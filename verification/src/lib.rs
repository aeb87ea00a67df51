//! Clipboard image capture into a bounded, numbered image store.
//!
//! The image on the clipboard is stored as the next numbered file of a
//! directory that keeps a bounded number of images, and the file's path is
//! put on the clipboard in its place. The library decides; reading and
//! writing the clipboard and the file system is left to the caller.

pub mod bitmap;
pub mod capture;
pub mod codec;
pub mod config;
pub mod eviction;
pub mod image_manager;
pub mod naming;
pub mod path_resolver;
pub mod text;
pub mod thumbnail;
