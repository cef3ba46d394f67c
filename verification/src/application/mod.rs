pub mod aggregator;
pub mod app;
pub mod polling;
