//! sound-manager-core: the verified logic of the Sound Manager application.

pub mod text;
pub mod errors;
pub mod paths;
pub mod domain;
pub mod audio;
pub mod catalog;
pub mod platform;
pub mod encoding;
pub mod archive;
pub mod session;
pub mod commands;
pub mod downloader;
