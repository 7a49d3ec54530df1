//! The manifests of an asset pack, as parsed from their JSON files.
use vstd::prelude::*;

verus! {

/// `face/config.json`: hotkey names paired by position with face image files.
#[derive(Debug, Clone)]
pub struct FaceConfig {
    pub hot_keys: Vec<String>,
    pub face_images: Vec<String>,
}

/// `mode/config.json`: the mode directories, in the order they are tried.
#[derive(Debug, Clone)]
pub struct ModeListConfig {
    pub model_paths: Vec<String>,
}

/// `mode/<name>/config.json`. With `key_mapping` present the mode is in the
/// key-mapping form and the legacy fields are not read; without it the
/// legacy positional fields describe keys and hands.
#[derive(Debug, Clone)]
pub struct ModeConfig {
    pub version: Option<String>,
    pub background_image: String,
    pub cat_background_image: String,
    pub has_model: bool,
    pub cat_model_path: Option<String>,
    /// Key name and `[key-cap image, hand-pose image]`, both relative to the
    /// mode directory.
    pub key_mapping: Option<Vec<(String, Vec<String>)>>,
    pub left_hand_up_image: Option<String>,
    pub right_hand_up_image: Option<String>,
    pub keys_image_path: Option<String>,
    pub keys_images: Option<Vec<String>>,
    pub key_bindings: Option<Vec<String>>,
    pub left_hand_image_path: Option<String>,
    pub left_hand_images: Option<Vec<String>>,
    pub right_hand_image_path: Option<String>,
    pub right_hand_images: Option<Vec<String>>,
    pub has_left_hand_model: bool,
    pub left_hand_model_path: Option<String>,
    pub has_right_hand_model: bool,
    pub right_hand_model_path: Option<String>,
}

/// `avatar.settings` of the top-level `avatar.json`.
#[derive(Debug, Clone)]
pub struct AvatarSettings {
    pub default_mode: String,
    pub default_face: Option<String>,
    pub canvas_width: u32,
    pub canvas_height: u32,
    pub fps: u32,
}

} // verus!
