//! Packaging of presets together with the texture files they reference.
//!
//! A preset is a configuration document that names textures by logical name
//! and category. The library decides which of those textures have to travel
//! with the preset, stores each distinct content once under its digest, and
//! on import reports which local files an archive would overwrite before it
//! writes any of them.
//!
//! All functions work on plain values: directories are path strings, the
//! files they hold are a [`files::FileStore`], and an archive is the list of
//! its named entries. Reading and writing the disk is left to the caller.

pub mod bundle;
pub mod files;
pub mod helpers;
pub mod info;
pub mod laws;
pub mod metadata;
pub mod packer;
pub mod preset;
pub mod resolver;
pub mod texture;
pub mod unpacker;
pub mod version;

