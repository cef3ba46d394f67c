pub mod block;
pub mod calendar;
pub mod errors;
pub mod models;
