pub mod harness;
pub mod lattice;
pub mod report;
pub mod schedule;
pub mod sweep;
