//! Conversion of a long-format table of variant calls (one row per carrier
//! observation) into per-variant genotype records over a fixed sample order.

pub mod bytes;
pub mod catalog;
pub mod genotype;
pub mod grouping;
pub mod header;
pub mod record;
pub mod samples;
pub mod variant;
