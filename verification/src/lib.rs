//! Collects Ethereum blocks and transactions into column-oriented tables.
//!
//! Everything in this crate works on values that are already at hand: which requests to make,
//! how a reply is judged, which columns a row fills, what the finished table holds and where
//! it is stored. Talking to a node, to the disk and to a bucket is left to the program around
//! it.
pub mod block_columns;
pub mod blocks;
pub mod blocks_and_transactions;
pub mod cells;
pub mod chunks;
pub mod columns;
pub mod date;
pub mod errors;
pub mod frame;
pub mod gather;
pub mod numbers;
pub mod paths;
pub mod reading;
pub mod records;
pub mod rows;
pub mod schema;
pub mod sorting;
pub mod tables;
pub mod text;
pub mod transaction_columns;
pub mod upload;
