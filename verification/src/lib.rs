//! Turns the metadata of a Cargo package into the text of a `PKGBUILD`, the
//! build recipe that Arch Linux's `makepkg` reads.
//!
//! [`resolver`] takes the root package's [`metadata`] out of what
//! `cargo metadata` reported, and [`recipe`] writes the `PKGBUILD` for it.
//! Finding the manifest, running cargo and writing the file are left to the
//! caller.

pub mod escape;
pub mod metadata;
pub mod recipe;
pub mod resolver;

pub use crate::metadata::PackageMetadata;
pub use crate::recipe::generate_pkgbuild;
pub use crate::resolver::{parse_manifest, resolve, ResolutionError};
