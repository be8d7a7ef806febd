//! Loading avatars: configurations, images, modes and the avatar cache.

pub mod avatar;
pub mod config;
pub mod image;
pub mod mode;

pub use avatar::{Avatar, AvatarLoader, AvatarSources};
pub use config::{AvatarSettings, FaceConfig, LoadError, ModeConfig, ModeListConfig};
pub use image::{HandData, ImageData, ImageStore};
pub use mode::LoadedMode;
