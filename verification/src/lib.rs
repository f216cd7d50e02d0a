//! Verified core of the Proteus reference demo and its hosts.

pub mod text;
pub mod hls;
pub mod navigation;
pub mod gallery;
pub mod gallery_fetch;
pub mod host;
pub mod gallery_router;
pub mod stress;
pub mod video_probe;
pub mod hls_loader;
pub mod examples;
