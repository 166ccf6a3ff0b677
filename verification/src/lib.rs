//! Battery history, battery report and dashboard logic of the Prophesy battery monitor.

pub mod text;
pub mod charge;
pub mod history;
pub mod tabs;
pub mod dashboard;
pub mod graph;
pub mod prediction;
pub mod report;
