//! Support for block-wise transfers.

pub mod block_value;
