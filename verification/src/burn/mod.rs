//! The install-condition language of WiX Burn bundles.
pub mod condition;
pub mod expr;
pub mod parser;
pub mod token;
