//! The validated observation contract: one type per contract message, each
//! upholding the schema's invariants for as long as it exists, with the plain
//! wire form it is decoded from and encoded to.

pub mod invalid;
pub mod limits;
pub mod wire;
pub mod enums;
pub mod value;
pub mod value_tree;
pub mod digest;
pub mod canonical;
pub mod emit;
pub mod records;
pub mod readings;
pub mod graph;
pub mod batch;
pub mod identity;
pub mod messages;
pub mod status;
