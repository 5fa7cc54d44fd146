//! Plugin runtime and catalog cache of a small game-library tool.

pub mod appid;
pub mod bridge;
pub mod cancel;
pub mod catalog;
pub mod codec;
pub mod codec_laws;
pub mod host;
pub mod manifest;
pub mod runner;
pub mod stack;
pub mod steam;
