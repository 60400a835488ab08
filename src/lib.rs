//! Packs a mod's source tree into a versioned archive and keeps a single
//! version of it in the install directory.
//!
//! The library decides; the program around it reads the disk, walks the
//! tree and writes the archive.

pub mod identity;
pub mod janitor;
pub mod paths;
pub mod target;
pub mod walk;
