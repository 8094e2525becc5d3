//! A metrics aggregation and export engine.
//!
//! Analytics records from several independent data domains are folded into a
//! uniform in-memory registry of counter and gauge metric families, converted
//! into a batch of export-ready metric points sharing one run timestamp, and
//! serialized to a wire payload (compact binary or JSON).

pub mod adapter;
pub mod convert;
pub mod domains;
pub mod encode;
pub mod errors;
pub mod headers;
pub mod ieee;
pub mod json;
pub mod labels;
pub mod laws;
pub mod pipeline;
pub mod proto;
pub mod registry;
pub mod timestamp;
pub mod value;
