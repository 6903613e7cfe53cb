use vstd::prelude::*;

use crate::paths::{lower_extension, lower_extension_of, same_text};

verus! {

/// The kind of an asset, decided by its file extension.
#[derive(Debug, Clone, Copy, PartialEq, Eq, Structural)]
pub enum AssetType {
    Image,
    Model,
    Audio,
    Unknown,
}

pub open spec fn is_image_extension(e: Seq<char>) -> bool {
    e == "png"@ || e == "jpg"@ || e == "jpeg"@ || e == "webp"@ || e == "bmp"@ || e == "gif"@
        || e == "tga"@ || e == "ktx2"@ || e == "basis"@
}

pub open spec fn is_model_extension(e: Seq<char>) -> bool {
    e == "gltf"@ || e == "glb"@ || e == "obj"@ || e == "fbx"@
}

pub open spec fn is_audio_extension(e: Seq<char>) -> bool {
    e == "wav"@ || e == "mp3"@ || e == "ogg"@ || e == "flac"@ || e == "aac"@ || e == "m4a"@
}

/// The asset kind of a lower-case extension.
pub open spec fn kind_of_extension(e: Seq<char>) -> AssetType {
    if is_image_extension(e) {
        AssetType::Image
    } else if is_model_extension(e) {
        AssetType::Model
    } else if is_audio_extension(e) {
        AssetType::Audio
    } else {
        AssetType::Unknown
    }
}

/// The asset kind of a path: that of its lower-cased extension, and
/// `Unknown` for a path without one.
pub open spec fn kind_of_path(path: Seq<char>) -> AssetType {
    match lower_extension(path) {
        Some(e) => kind_of_extension(e),
        None => AssetType::Unknown,
    }
}

fn is_one_of(e: &str, names: &[&str]) -> (r: bool)
    ensures
        r == exists|i: int| 0 <= i < names@.len() && e@ == (#[trigger] names@[i])@,
{
    let mut i: usize = 0;
    while i < names.len()
        invariant
            i <= names@.len(),
            forall|j: int| 0 <= j < i ==> e@ != (#[trigger] names@[j])@,
        decreases names@.len() - i,
    {
        if same_text(e, names[i]) {
            return true;
        }
        i += 1;
    }
    false
}

impl AssetType {
    /// The kind named by a lower-case extension.
    pub fn from_extension(ext: &str) -> (r: AssetType)
        ensures
            r == kind_of_extension(ext@),
    {
        let images = ["png", "jpg", "jpeg", "webp", "bmp", "gif", "tga", "ktx2", "basis"];
        let models = ["gltf", "glb", "obj", "fbx"];
        let audio = ["wav", "mp3", "ogg", "flac", "aac", "m4a"];
        if is_one_of(ext, images.as_slice()) {
            proof {
                let i = choose|i: int| 0 <= i < images@.len() && ext@ == (#[trigger] images@[i])@;
            }
            AssetType::Image
        } else if is_one_of(ext, models.as_slice()) {
            proof {
                assert(!is_image_extension(ext@)) by {
                    assert(images@[0] == "png");
                }
            }
            AssetType::Model
        } else if is_one_of(ext, audio.as_slice()) {
            AssetType::Audio
        } else {
            AssetType::Unknown
        }
    }

    /// The kind of a file, from its lower-cased extension.
    pub fn from_path(path: &str) -> (r: AssetType)
        ensures
            r == kind_of_path(path@),
    {
        match lower_extension_of(path) {
            Some(e) => AssetType::from_extension(e.as_str()),
            None => AssetType::Unknown,
        }
    }

    pub fn description(&self) -> (r: &'static str)
        ensures
            r@ == match *self {
                AssetType::Image => "Image/Texture"@,
                AssetType::Model => "3D Model"@,
                AssetType::Audio => "Audio"@,
                AssetType::Unknown => "Unknown"@,
            },
    {
        match self {
            AssetType::Image => "Image/Texture",
            AssetType::Model => "3D Model",
            AssetType::Audio => "Audio",
            AssetType::Unknown => "Unknown",
        }
    }
}

/// Sizes before and after one transform, and how long it took.
#[derive(Debug, Clone, Copy, PartialEq, Eq, Structural)]
pub struct ProcessingStats {
    pub original_size: u64,
    pub output_size: u64,
    pub processing_time_ms: u64,
}

/// Counts describing a glTF model.
#[derive(Debug, Clone, Copy, PartialEq, Eq, Structural)]
pub struct ModelInfo {
    pub meshes: usize,
    pub materials: usize,
    pub textures: usize,
    pub animations: usize,
    pub nodes: usize,
    pub total_vertices: usize,
    pub total_indices: usize,
}

/// A 3D model container format.
#[derive(Debug, Clone, Copy, PartialEq, Eq, Structural)]
pub enum ModelFormat {
    GlTF,
    GLB,
    OBJ,
    FBX,
}

/// The model format of a lower-case extension.
pub open spec fn model_format_of_extension(e: Seq<char>) -> Option<ModelFormat> {
    if e == "gltf"@ {
        Some(ModelFormat::GlTF)
    } else if e == "glb"@ {
        Some(ModelFormat::GLB)
    } else if e == "obj"@ {
        Some(ModelFormat::OBJ)
    } else if e == "fbx"@ {
        Some(ModelFormat::FBX)
    } else {
        None
    }
}

/// The model format of a lower-case extension.
pub fn model_format_for_extension(ext: &str) -> (r: Option<ModelFormat>)
    ensures
        r == model_format_of_extension(ext@),
{
    if same_text(ext, "gltf") {
        Some(ModelFormat::GlTF)
    } else if same_text(ext, "glb") {
        Some(ModelFormat::GLB)
    } else if same_text(ext, "obj") {
        Some(ModelFormat::OBJ)
    } else if same_text(ext, "fbx") {
        Some(ModelFormat::FBX)
    } else {
        None
    }
}

/// The model format of a path, from its lower-cased extension.
pub fn detect_model_format(path: &str) -> (r: Option<ModelFormat>)
    ensures
        r == match lower_extension(path@) {
            Some(e) => model_format_of_extension(e),
            None => None,
        },
{
    match lower_extension_of(path) {
        Some(e) => model_format_for_extension(e.as_str()),
        None => None,
    }
}

impl ModelFormat {
    /// The format's display name.
    pub fn label(&self) -> (r: &'static str)
        ensures
            r@ == match *self {
                ModelFormat::GlTF => "glTF"@,
                ModelFormat::GLB => "GLB"@,
                ModelFormat::OBJ => "OBJ"@,
                ModelFormat::FBX => "FBX"@,
            },
    {
        match self {
            ModelFormat::GlTF => "glTF",
            ModelFormat::GLB => "GLB",
            ModelFormat::OBJ => "OBJ",
            ModelFormat::FBX => "FBX",
        }
    }
}

} // verus!
