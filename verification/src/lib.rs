//! Encoding and decoding of the CoAP Block option value.
//!
//! A Block option packs a block number, a continuation flag and a block-size
//! exponent into one unsigned integer, which travels as a big-endian byte
//! string without leading zero bytes.

pub mod block_handler;
pub mod error;
pub mod log2;
pub mod option_value;
