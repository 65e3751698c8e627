//! The source-neutral observation model.

pub mod attributes;
pub mod context;
pub mod name;
pub mod vocabulary;
pub mod time;
pub mod time_order;
pub mod number;
pub mod property;
pub mod status;
pub mod log;
pub mod inventory;
pub mod state;
pub mod reading;
pub mod resource;
pub mod batch;
pub mod readings_table;
pub mod hex;
