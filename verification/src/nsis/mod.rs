//! NSIS: the compressed header and its table of blocks.
pub mod block;
pub mod codec;
pub mod header;
