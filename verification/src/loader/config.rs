//! Avatar configuration, as read from the configuration files, and the
//! loading error.

use vstd::prelude::*;

verus! {

/// `std::io::Error`, carried through the library unopened.
#[verifier::external_type_specification]
#[verifier::external_body]
pub struct ExIoError(std::io::Error);

/// `serde_json::Error`, carried through the library unopened.
#[verifier::external_type_specification]
#[verifier::external_body]
pub struct ExJsonError(serde_json::Error);

/// `std::path::PathBuf`, carried through the library unopened.
#[verifier::external_type_specification]
#[verifier::external_body]
pub struct ExPathBuf(std::path::PathBuf);

/// Errors that can occur during avatar loading.
#[derive(Debug)]
pub enum LoadError {
    IoError(std::io::Error),
    JsonError(serde_json::Error),
    InvalidConfig(String),
    MissingFile(std::path::PathBuf),
}

impl From<std::io::Error> for LoadError {
    fn from(e: std::io::Error) -> (r: Self) {
        LoadError::IoError(e)
    }
}

impl vstd::std_specs::convert::FromSpecImpl<std::io::Error> for LoadError {
    open spec fn obeys_from_spec() -> bool {
        true
    }

    open spec fn from_spec(v: std::io::Error) -> Self {
        LoadError::IoError(v)
    }
}

impl From<serde_json::Error> for LoadError {
    fn from(e: serde_json::Error) -> (r: Self) {
        LoadError::JsonError(e)
    }
}

impl vstd::std_specs::convert::FromSpecImpl<serde_json::Error> for LoadError {
    open spec fn obeys_from_spec() -> bool {
        true
    }

    open spec fn from_spec(v: serde_json::Error) -> Self {
        LoadError::JsonError(v)
    }
}

/// Face configuration (face expressions): `hot_keys[i]` selects the image
/// named `face_images[i]`.
#[derive(Debug, Clone)]
pub struct FaceConfig {
    pub hot_keys: Vec<String>,
    pub face_images: Vec<String>,
}

/// The list of available modes, as directory names under `mode/`.
#[derive(Debug, Clone)]
pub struct ModeListConfig {
    pub model_paths: Vec<String>,
}

/// Configuration of one mode (e.g. keyboard, standard).
///
/// `key_mapping` lists `key_name -> [key_image_path, hand_image_path]`
/// entries in the order they were read.
#[derive(Debug, Clone)]
pub struct ModeConfig {
    pub version: Option<String>,
    pub background_image: String,
    pub cat_background_image: String,
    pub has_model: bool,
    pub cat_model_path: Option<String>,
    pub key_mapping: Option<Vec<(String, Vec<String>)>>,
    pub left_hand_up_image: Option<String>,
    pub right_hand_up_image: Option<String>,
    pub keys_image_path: Option<String>,
    pub keys_images: Option<Vec<String>>,
    pub key_bindings: Option<Vec<String>>,
    pub left_hand_image_path: Option<String>,
    pub left_hand_images: Option<Vec<String>>,
    pub right_hand_image_path: Option<String>,
    pub right_hand_images: Option<Vec<String>>,
    pub has_left_hand_model: bool,
    pub left_hand_model_path: Option<String>,
    pub has_right_hand_model: bool,
    pub right_hand_model_path: Option<String>,
}

/// Settings from avatar.json.
#[derive(Debug, Clone)]
pub struct AvatarSettings {
    pub default_mode: String,
    pub default_face: Option<String>,
    pub canvas_width: u32,
    pub canvas_height: u32,
    pub fps: u32,
}

} // verus!
