//! Inno Setup: the setup loader and the entries of the setup header, laid out
//! by the version of the producer.
pub mod file;
pub mod flags;
pub mod loader;
pub mod message;
pub mod text;
pub mod version;
pub mod windows_version;
