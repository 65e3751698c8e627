pub mod order;
pub mod system_time;
pub mod sort;
pub mod telemetry;
pub mod text;
pub mod schema;
pub mod orchestration;
