//! Structural decoders for installer packages: the Burn install-condition
//! language, the Inno Setup loader and entry structures, the NSIS header and
//! block table, font signatures and the dispatch over file extensions.
pub mod analyzer;
pub mod burn;
pub mod bytes;
pub mod crc32;
pub mod error;
pub mod font;
pub mod inno;
pub mod manifest;
pub mod nsis;
pub mod record;
