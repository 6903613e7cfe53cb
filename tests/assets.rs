use asset_forge::asset::model_format_for_extension;
use asset_forge::paths::{lower_extension_of, mirror_path};
use asset_forge::{detect_model_format, AssetType, ModelFormat};

#[test]
fn classifies_by_extension() {
    assert_eq!(AssetType::from_path("assets/hero.png"), AssetType::Image);
    assert_eq!(AssetType::from_path("assets/Hero.JPEG"), AssetType::Image);
    assert_eq!(AssetType::from_path("tex/a.ktx2"), AssetType::Image);
    assert_eq!(AssetType::from_path("m/ship.glb"), AssetType::Model);
    assert_eq!(AssetType::from_path("m/ship.FBX"), AssetType::Model);
    assert_eq!(AssetType::from_path("s/boom.Ogg"), AssetType::Audio);
    assert_eq!(AssetType::from_path("s/theme.m4a"), AssetType::Audio);
    assert_eq!(AssetType::from_path("readme.txt"), AssetType::Unknown);
    assert_eq!(AssetType::from_path("noext"), AssetType::Unknown);
    assert_eq!(AssetType::from_path(".png"), AssetType::Unknown);
    assert_eq!(AssetType::from_path("dir.png/file"), AssetType::Unknown);
}

#[test]
fn classifies_lower_case_extensions() {
    assert_eq!(AssetType::from_extension("basis"), AssetType::Image);
    assert_eq!(AssetType::from_extension("obj"), AssetType::Model);
    assert_eq!(AssetType::from_extension("flac"), AssetType::Audio);
    assert_eq!(AssetType::from_extension("PNG"), AssetType::Unknown);
    assert_eq!(AssetType::from_extension(""), AssetType::Unknown);
}

#[test]
fn extension_is_lowered() {
    assert_eq!(lower_extension_of("a/B.PnG"), Some("png".to_string()));
    assert_eq!(lower_extension_of("a/b"), None);
    assert_eq!(lower_extension_of("a/b.tar.GZ"), Some("gz".to_string()));
}

#[test]
fn descriptions() {
    assert_eq!(AssetType::Image.description(), "Image/Texture");
    assert_eq!(AssetType::Model.description(), "3D Model");
    assert_eq!(AssetType::Audio.description(), "Audio");
    assert_eq!(AssetType::Unknown.description(), "Unknown");
}

#[test]
fn model_formats() {
    assert_eq!(detect_model_format("x/ship.GLTF"), Some(ModelFormat::GlTF));
    assert_eq!(detect_model_format("ship.glb"), Some(ModelFormat::GLB));
    assert_eq!(detect_model_format("ship.obj"), Some(ModelFormat::OBJ));
    assert_eq!(detect_model_format("ship.fbx"), Some(ModelFormat::FBX));
    assert_eq!(detect_model_format("ship.png"), None);
    assert_eq!(detect_model_format("ship"), None);
    assert_eq!(model_format_for_extension("glb"), Some(ModelFormat::GLB));
    assert_eq!(ModelFormat::GlTF.label(), "glTF");
}

#[test]
fn output_path_mirrors_input_tree() {
    assert_eq!(mirror_path("assets/sub/a.png", "assets", "build/out"), "build/out/sub/a.png");
    assert_eq!(mirror_path("assets/a.png", "assets/", "out"), "out/a.png");
    assert_eq!(mirror_path("other/a.png", "assets", "out"), "out/other/a.png");
}
