//! A harness that compares several ways of intersecting two unsorted
//! collections of integers: the strategies themselves, the timing of each,
//! the check that they agree, and the figures of the comparative report.

pub mod clock;
pub mod figures;
pub mod generate;
pub mod graph;
pub mod laws;
pub mod measure;
pub mod parallel;
pub mod rank;
pub mod report;
pub mod strategy;
pub mod table;
pub mod text;
pub mod validate;
