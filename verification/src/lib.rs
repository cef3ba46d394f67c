//! Core of a Solana transaction aggregator: the block-processing rules that
//! turn confirmed blocks into transfer and account notifications, the polling
//! loop that decides which slots to fetch next, and an in-memory store that
//! answers queries over what was collected.

pub mod application;
pub mod domain;
pub mod infrastructure;
