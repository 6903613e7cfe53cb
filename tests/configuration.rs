use asset_forge::config::{
    audio_format_for, basis_config_for, image_config_for, quality_to_etc1s_level, quality_to_uastc_level,
    resolve_output_dir,
};
use asset_forge::{
    get_preset_config, AudioFormat, BasisCompressionMode, Config, OutputFormat, PlatformPreset, PresetConfig,
    QualityPreset,
};

#[test]
fn defaults_hold_three_presets() {
    let c = Config::with_defaults();
    assert_eq!(c.project.name, "my-game");
    assert_eq!(c.project.output, "./build/assets");
    assert_eq!(c.project.source, "./assets");
    assert!(c.cache.enabled);
    assert_eq!(c.cache.directory, ".asset-forge-cache");
    assert_eq!(c.presets.len(), 3);
    let m = c.presets.get(&"mobile".to_string()).unwrap();
    assert_eq!(m.texture_format.as_deref(), Some("ktx2"));
    assert_eq!(m.texture_max_size, Some(1024));
    let w = c.presets.get(&"web".to_string()).unwrap();
    assert_eq!(w.texture_format.as_deref(), Some("webp"));
    assert_eq!(w.generate_mipmaps, Some(false));
    let d = c.presets.get(&"desktop".to_string()).unwrap();
    assert_eq!(d.audio_format.as_deref(), Some("wav"));
    assert_eq!(d.audio_quality, Some(10));
}

#[test]
fn default_toml_has_sections() {
    let t = Config::default_toml();
    assert!(t.starts_with("[project]\nname = \"my-game\""));
    assert!(t.contains("[presets.web]"));
    assert!(t.ends_with("directory = \".asset-forge-cache\"\n"));
}

#[test]
fn preset_falls_back_to_builtin() {
    let p = get_preset_config(Some(PlatformPreset::Mobile), None);
    assert_eq!(p.texture_format.as_deref(), Some("png"));
    assert_eq!(p.audio_quality, Some(6));
    let none = get_preset_config(None, None);
    assert!(none.texture_format.is_none() && none.texture_max_size.is_none());
}

#[test]
fn preset_from_configuration_wins() {
    let c = Config::with_defaults();
    let p = get_preset_config(Some(PlatformPreset::Mobile), Some(&c));
    assert_eq!(p.texture_format.as_deref(), Some("ktx2"));
    let empty = Config::default();
    let q = get_preset_config(Some(PlatformPreset::Web), Some(&empty));
    assert_eq!(q.texture_format.as_deref(), Some("webp"));
}

#[test]
fn image_settings_from_preset() {
    let mut p = PresetConfig::default();
    let cfg = image_config_for(&p);
    assert_eq!(cfg.output_format, None);
    assert_eq!(cfg.quality, QualityPreset::Balanced);
    assert!(!cfg.generate_mipmaps);
    p.texture_format = Some("jpg".to_string());
    p.texture_max_size = Some(512);
    p.generate_mipmaps = Some(true);
    let cfg = image_config_for(&p);
    assert_eq!(cfg.output_format, Some(OutputFormat::Jpeg));
    assert_eq!(cfg.max_size, Some(512));
    assert!(cfg.generate_mipmaps);
    p.texture_format = Some("tiff".to_string());
    assert_eq!(image_config_for(&p).output_format, None);
    let b = basis_config_for(&cfg);
    assert_eq!(b.mode, BasisCompressionMode::Uastc);
    assert_eq!(b.max_size, Some(512));
}

#[test]
fn audio_format_from_preset() {
    let mut p = PresetConfig::default();
    assert_eq!(audio_format_for(&p), AudioFormat::Ogg);
    p.audio_format = Some("wav".to_string());
    assert_eq!(audio_format_for(&p), AudioFormat::Wav);
    p.audio_format = Some("mp3".to_string());
    assert_eq!(audio_format_for(&p), AudioFormat::Ogg);
}

#[test]
fn quality_levels() {
    assert_eq!(quality_to_etc1s_level(QualityPreset::Fast), 64);
    assert_eq!(quality_to_etc1s_level(QualityPreset::Ultra), 255);
    assert_eq!(quality_to_uastc_level(QualityPreset::High), 2);
    assert_eq!(quality_to_uastc_level(QualityPreset::Ultra), 4);
}

#[test]
fn output_dir_resolution() {
    assert_eq!(resolve_output_dir(&Some("x".to_string()), None), "x");
    let mut c = Config::default();
    c.project.output = "dist".to_string();
    assert_eq!(resolve_output_dir(&None, Some(&c)), "dist");
    assert_eq!(resolve_output_dir(&None, None), "./build/assets");
    assert_eq!(PlatformPreset::Desktop.name(), "desktop");
}
