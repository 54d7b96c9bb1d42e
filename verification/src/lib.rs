//! Offline vendoring of registry packages: reading a dependency lockfile,
//! hashing a vendored tree into a checksum manifest, and sequencing the
//! fetch and unpack of each package.

pub mod text;
pub mod digest;
pub mod json;
pub mod manifest;
pub mod toml_value;
pub mod lockfile;
pub mod pipeline;
