use vstd::prelude::*;

use crate::paths::same_text;
use crate::table::KeyedTable;

verus! {

/// A platform the build can be tuned for.
#[derive(Debug, Clone, Copy, PartialEq, Eq, Structural)]
pub enum PlatformPreset {
    Mobile,
    Desktop,
    Web,
}

/// Image output format.
#[derive(Debug, Clone, Copy, PartialEq, Eq, Structural)]
pub enum OutputFormat {
    Png,
    Jpeg,
    Webp,
    Ktx2,
}

/// Speed against size of compression.
#[derive(Debug, Clone, Copy, PartialEq, Eq, Structural)]
pub enum QualityPreset {
    Fast,
    Balanced,
    High,
    Ultra,
}

/// Audio output format.
#[derive(Debug, Clone, Copy, PartialEq, Eq, Structural)]
pub enum AudioFormat {
    Wav,
    Ogg,
}

/// Settings of the image transform.
#[derive(Debug, Clone, Copy, PartialEq, Eq, Structural)]
pub struct ImageProcessorConfig {
    pub output_format: Option<OutputFormat>,
    pub quality: QualityPreset,
    pub max_size: Option<u32>,
    pub generate_mipmaps: bool,
}

/// Processing settings of one platform.
pub struct PresetConfig {
    pub texture_max_size: Option<u32>,
    pub texture_format: Option<String>,
    pub texture_quality: Option<u8>,
    pub audio_format: Option<String>,
    pub audio_quality: Option<u8>,
    pub compress_textures: Option<bool>,
    pub generate_mipmaps: Option<bool>,
}

/// Project metadata.
pub struct ProjectConfig {
    pub name: String,
    pub output: String,
    pub source: String,
}

/// Settings for files matching a pattern.
pub struct RuleConfig {
    pub format: Option<String>,
    pub atlas: Option<bool>,
    pub trim: Option<bool>,
    pub mipmap: Option<bool>,
    pub draco: Option<bool>,
    pub meshopt: Option<bool>,
    pub normalize: Option<bool>,
    pub quality: Option<u8>,
    pub max_size: Option<u32>,
    pub output: Option<String>,
}

/// Cache settings.
pub struct CacheConfig {
    pub enabled: bool,
    pub directory: String,
}

/// The whole project configuration.
pub struct Config {
    pub project: ProjectConfig,
    pub presets: KeyedTable<PresetConfig>,
    pub rules: KeyedTable<RuleConfig>,
    pub cache: CacheConfig,
}

/// Options of a batch build.
pub struct BuildOptions {
    pub output: Option<String>,
    pub preset: Option<PlatformPreset>,
    pub config: Option<String>,
    pub force: bool,
    pub jobs: Option<usize>,
    pub dry_run: bool,
}

/// Options of a watch session.
pub struct WatchOptions {
    pub output: Option<String>,
    pub config: Option<String>,
    pub preset: Option<PlatformPreset>,
    pub debounce: u64,
}

pub const DEFAULT_PROJECT_NAME: &'static str = "my-game";

pub const DEFAULT_OUTPUT_DIR: &'static str = "./build/assets";

pub const DEFAULT_SOURCE_DIR: &'static str = "./assets";

pub const DEFAULT_CACHE_DIR: &'static str = ".asset-forge-cache";

/// The configuration file written by `init`.
pub const DEFAULT_TOML: &'static str = "[project]
name = \"my-game\"
output = \"./build/assets\"
source = \"./assets\"

[presets.mobile]
texture_max_size = 1024
texture_format = \"png\"  # Will use \"ktx2\" when KTX2 support is added in Phase 2
texture_quality = 75
audio_format = \"ogg\"
audio_quality = 6
compress_textures = true
generate_mipmaps = true

[presets.desktop]
texture_max_size = 4096
texture_format = \"png\"
texture_quality = 90
audio_format = \"wav\"
audio_quality = 10
compress_textures = false
generate_mipmaps = true

[presets.web]
texture_max_size = 2048
texture_format = \"webp\"
texture_quality = 80
audio_format = \"ogg\"
audio_quality = 7
compress_textures = true
generate_mipmaps = false

[rules]
# Sprite atlas rules
# \"sprites/*.png\" = { atlas = true, trim = true }

# Texture rules
# \"textures/*.png\" = { format = \"ktx2\", mipmap = true }

# Model rules
# \"models/*.gltf\" = { draco = true, meshopt = true }

# Audio rules
# \"audio/*.wav\" = { format = \"ogg\", normalize = true }

[cache]
enabled = true
directory = \".asset-forge-cache\"
";

pub open spec fn opt_view(o: Option<String>) -> Option<Seq<char>> {
    match o {
        Some(s) => Some(s@),
        None => None,
    }
}

/// Every setting of `p` is given, with these values.
pub open spec fn preset_is(
    p: PresetConfig,
    max_size: u32,
    format: Seq<char>,
    quality: u8,
    audio_format: Seq<char>,
    audio_quality: u8,
    compress: bool,
    mipmaps: bool,
) -> bool {
    &&& p.texture_max_size == Some(max_size)
    &&& opt_view(p.texture_format) == Some(format)
    &&& p.texture_quality == Some(quality)
    &&& opt_view(p.audio_format) == Some(audio_format)
    &&& p.audio_quality == Some(audio_quality)
    &&& p.compress_textures == Some(compress)
    &&& p.generate_mipmaps == Some(mipmaps)
}

/// No setting of `p` is given.
pub open spec fn preset_is_empty(p: PresetConfig) -> bool {
    &&& p.texture_max_size is None
    &&& p.texture_format is None
    &&& p.texture_quality is None
    &&& p.audio_format is None
    &&& p.audio_quality is None
    &&& p.compress_textures is None
    &&& p.generate_mipmaps is None
}

/// The built-in settings of a platform, used when the configuration names
/// none for it.
pub open spec fn builtin_preset(platform: PlatformPreset, p: PresetConfig) -> bool {
    match platform {
        PlatformPreset::Mobile => preset_is(p, 1024, "png"@, 75, "ogg"@, 6, true, true),
        PlatformPreset::Desktop => preset_is(p, 4096, "png"@, 90, "wav"@, 10, false, true),
        PlatformPreset::Web => preset_is(p, 2048, "webp"@, 80, "ogg"@, 7, true, false),
    }
}

pub open spec fn platform_name(platform: PlatformPreset) -> Seq<char> {
    match platform {
        PlatformPreset::Mobile => "mobile"@,
        PlatformPreset::Desktop => "desktop"@,
        PlatformPreset::Web => "web"@,
    }
}

/// The image output format a preset names: `png`, `jpeg` or `jpg`, `webp`,
/// `ktx2`; none for any other name.
pub open spec fn format_named(name: Option<Seq<char>>) -> Option<OutputFormat> {
    match name {
        Some(f) => if f == "png"@ {
            Some(OutputFormat::Png)
        } else if f == "jpeg"@ || f == "jpg"@ {
            Some(OutputFormat::Jpeg)
        } else if f == "webp"@ {
            Some(OutputFormat::Webp)
        } else if f == "ktx2"@ {
            Some(OutputFormat::Ktx2)
        } else {
            None
        },
        None => None,
    }
}

/// The audio format a preset names: `wav` gives WAV, anything else Ogg.
pub open spec fn audio_format_named(name: Option<Seq<char>>) -> AudioFormat {
    match name {
        Some(f) => if f == "wav"@ {
            AudioFormat::Wav
        } else {
            AudioFormat::Ogg
        },
        None => AudioFormat::Ogg,
    }
}

fn copy_text(o: &Option<String>) -> (r: Option<String>)
    ensures
        r == *o,
{
    match o {
        Some(s) => Some(s.clone()),
        None => None,
    }
}

impl PlatformPreset {
    /// The platform's name, as presets are keyed in the configuration.
    pub fn name(&self) -> (r: &'static str)
        ensures
            r@ == platform_name(*self),
    {
        match self {
            PlatformPreset::Mobile => "mobile",
            PlatformPreset::Desktop => "desktop",
            PlatformPreset::Web => "web",
        }
    }
}

impl PresetConfig {
    /// A copy of the settings.
    pub fn duplicate(&self) -> (r: PresetConfig)
        ensures
            r == *self,
    {
        PresetConfig {
            texture_max_size: self.texture_max_size,
            texture_format: copy_text(&self.texture_format),
            texture_quality: self.texture_quality,
            audio_format: copy_text(&self.audio_format),
            audio_quality: self.audio_quality,
            compress_textures: self.compress_textures,
            generate_mipmaps: self.generate_mipmaps,
        }
    }

    fn filled(
        max_size: u32,
        format: &str,
        quality: u8,
        audio_format: &str,
        audio_quality: u8,
        compress: bool,
        mipmaps: bool,
    ) -> (r: PresetConfig)
        ensures
            preset_is(r, max_size, format@, quality, audio_format@, audio_quality, compress, mipmaps),
    {
        PresetConfig {
            texture_max_size: Some(max_size),
            texture_format: Some(format.to_owned()),
            texture_quality: Some(quality),
            audio_format: Some(audio_format.to_owned()),
            audio_quality: Some(audio_quality),
            compress_textures: Some(compress),
            generate_mipmaps: Some(mipmaps),
        }
    }

    /// The built-in settings of a platform.
    pub fn builtin(platform: PlatformPreset) -> (r: PresetConfig)
        ensures
            builtin_preset(platform, r),
    {
        match platform {
            PlatformPreset::Mobile => PresetConfig::filled(1024, "png", 75, "ogg", 6, true, true),
            PlatformPreset::Desktop => PresetConfig::filled(4096, "png", 90, "wav", 10, false, true),
            PlatformPreset::Web => PresetConfig::filled(2048, "webp", 80, "ogg", 7, true, false),
        }
    }
}

impl Default for PresetConfig {
    fn default() -> (r: PresetConfig)
        ensures
            preset_is_empty(r),
    {
        PresetConfig {
            texture_max_size: None,
            texture_format: None,
            texture_quality: None,
            audio_format: None,
            audio_quality: None,
            compress_textures: None,
            generate_mipmaps: None,
        }
    }
}

impl Default for ProjectConfig {
    fn default() -> (r: ProjectConfig)
        ensures
            r.name@ == DEFAULT_PROJECT_NAME@,
            r.output@ == DEFAULT_OUTPUT_DIR@,
            r.source@ == DEFAULT_SOURCE_DIR@,
    {
        ProjectConfig {
            name: DEFAULT_PROJECT_NAME.to_owned(),
            output: DEFAULT_OUTPUT_DIR.to_owned(),
            source: DEFAULT_SOURCE_DIR.to_owned(),
        }
    }
}

impl Default for CacheConfig {
    fn default() -> (r: CacheConfig)
        ensures
            r.enabled,
            r.directory@ == DEFAULT_CACHE_DIR@,
    {
        CacheConfig { enabled: true, directory: DEFAULT_CACHE_DIR.to_owned() }
    }
}

impl Default for Config {
    fn default() -> (r: Config)
        ensures
            r.project.name@ == DEFAULT_PROJECT_NAME@,
            r.project.output@ == DEFAULT_OUTPUT_DIR@,
            r.project.source@ == DEFAULT_SOURCE_DIR@,
            r.presets@ == Map::<Seq<char>, PresetConfig>::empty(),
            r.rules@ == Map::<Seq<char>, RuleConfig>::empty(),
            r.cache.enabled,
            r.cache.directory@ == DEFAULT_CACHE_DIR@,
    {
        Config {
            project: ProjectConfig::default(),
            presets: KeyedTable::new(),
            rules: KeyedTable::new(),
            cache: CacheConfig::default(),
        }
    }
}

impl Config {
    /// The default configuration with presets for the three platforms.
    pub fn with_defaults() -> (r: Config)
        ensures
            r.project.name@ == DEFAULT_PROJECT_NAME@,
            r.project.output@ == DEFAULT_OUTPUT_DIR@,
            r.project.source@ == DEFAULT_SOURCE_DIR@,
            r.rules@ == Map::<Seq<char>, RuleConfig>::empty(),
            r.cache.enabled,
            r.cache.directory@ == DEFAULT_CACHE_DIR@,
            r.presets@.dom() == set!["mobile"@, "desktop"@, "web"@],
            preset_is(r.presets@["mobile"@], 1024, "ktx2"@, 75, "ogg"@, 6, true, true),
            preset_is(r.presets@["desktop"@], 4096, "png"@, 90, "wav"@, 10, false, true),
            preset_is(r.presets@["web"@], 2048, "webp"@, 80, "ogg"@, 7, true, false),
    {
        let mut config = Config::default();
        config.presets.insert("mobile".to_owned(), PresetConfig::filled(1024, "ktx2", 75, "ogg", 6, true, true));
        config.presets.insert("desktop".to_owned(), PresetConfig::filled(4096, "png", 90, "wav", 10, false, true));
        config.presets.insert("web".to_owned(), PresetConfig::filled(2048, "webp", 80, "ogg", 7, true, false));
        proof {
            reveal_strlit("mobile");
            reveal_strlit("desktop");
            reveal_strlit("web");
            assert("mobile"@.len() == 6 && "desktop"@.len() == 7 && "web"@.len() == 3);
            assert("mobile"@ != "desktop"@ && "mobile"@ != "web"@ && "desktop"@ != "web"@);
            assert(config.presets@.dom() =~= set!["mobile"@, "desktop"@, "web"@]);
        }
        config
    }

    /// The text of a fresh configuration file.
    pub fn default_toml() -> (r: String)
        ensures
            r@ == DEFAULT_TOML@,
    {
        DEFAULT_TOML.to_owned()
    }
}

/// The settings for a build: the configuration's preset of the chosen
/// platform, else the platform's built-in one; all unset without a platform.
pub fn get_preset_config(preset: Option<PlatformPreset>, config: Option<&Config>) -> (r: PresetConfig)
    ensures
        match preset {
            None => preset_is_empty(r),
            Some(p) => match config {
                Some(c) => if c.presets@.contains_key(platform_name(p)) {
                    r == c.presets@[platform_name(p)]
                } else {
                    builtin_preset(p, r)
                },
                None => builtin_preset(p, r),
            },
        },
{
    match preset {
        None => PresetConfig::default(),
        Some(p) => {
            match config {
                Some(c) => {
                    let name = p.name().to_owned();
                    match c.presets.get(&name) {
                        Some(found) => found.duplicate(),
                        None => PresetConfig::builtin(p),
                    }
                },
                None => PresetConfig::builtin(p),
            }
        },
    }
}

/// Where a build or watch session writes: the option given, else the
/// configuration's output directory, else `DEFAULT_OUTPUT_DIR`.
pub fn resolve_output_dir(option: &Option<String>, config: Option<&Config>) -> (r: String)
    ensures
        r@ == match option {
            Some(o) => o@,
            None => match config {
                Some(c) => c.project.output@,
                None => DEFAULT_OUTPUT_DIR@,
            },
        },
{
    match option {
        Some(o) => o.clone(),
        None => match config {
            Some(c) => c.project.output.clone(),
            None => DEFAULT_OUTPUT_DIR.to_owned(),
        },
    }
}

fn format_of(name: &Option<String>) -> (r: Option<OutputFormat>)
    ensures
        r == format_named(opt_view(*name)),
{
    match name {
        Some(f) => {
            let f = f.as_str();
            if same_text(f, "png") {
                Some(OutputFormat::Png)
            } else if same_text(f, "jpeg") || same_text(f, "jpg") {
                Some(OutputFormat::Jpeg)
            } else if same_text(f, "webp") {
                Some(OutputFormat::Webp)
            } else if same_text(f, "ktx2") {
                Some(OutputFormat::Ktx2)
            } else {
                None
            }
        },
        None => None,
    }
}

/// The image transform's settings under a preset.
pub fn image_config_for(preset: &PresetConfig) -> (r: ImageProcessorConfig)
    ensures
        r.output_format == format_named(opt_view(preset.texture_format)),
        r.quality == QualityPreset::Balanced,
        r.max_size == preset.texture_max_size,
        r.generate_mipmaps == match preset.generate_mipmaps {
            Some(b) => b,
            None => false,
        },
{
    ImageProcessorConfig {
        output_format: format_of(&preset.texture_format),
        quality: QualityPreset::Balanced,
        max_size: preset.texture_max_size,
        generate_mipmaps: match preset.generate_mipmaps {
            Some(b) => b,
            None => false,
        },
    }
}

/// The audio format under a preset.
pub fn audio_format_for(preset: &PresetConfig) -> (r: AudioFormat)
    ensures
        r == audio_format_named(opt_view(preset.audio_format)),
{
    match &preset.audio_format {
        Some(f) => if same_text(f.as_str(), "wav") {
            AudioFormat::Wav
        } else {
            AudioFormat::Ogg
        },
        None => AudioFormat::Ogg,
    }
}

/// Basis ETC1S quality level for a preset.
pub fn quality_to_etc1s_level(quality: QualityPreset) -> (r: u32)
    ensures
        r == match quality {
            QualityPreset::Fast => 64u32,
            QualityPreset::Balanced => 128u32,
            QualityPreset::High => 192u32,
            QualityPreset::Ultra => 255u32,
        },
{
    match quality {
        QualityPreset::Fast => 64,
        QualityPreset::Balanced => 128,
        QualityPreset::High => 192,
        QualityPreset::Ultra => 255,
    }
}

/// Basis UASTC quality level for a preset.
pub fn quality_to_uastc_level(quality: QualityPreset) -> (r: u32)
    ensures
        r == match quality {
            QualityPreset::Fast => 0u32,
            QualityPreset::Balanced => 1u32,
            QualityPreset::High => 2u32,
            QualityPreset::Ultra => 4u32,
        },
{
    match quality {
        QualityPreset::Fast => 0,
        QualityPreset::Balanced => 1,
        QualityPreset::High => 2,
        QualityPreset::Ultra => 4,
    }
}

/// Basis Universal codec.
#[derive(Debug, Clone, Copy, PartialEq, Eq, Structural)]
pub enum BasisCompressionMode {
    /// Smaller files, lower quality.
    Etc1s,
    /// Larger files, higher quality.
    Uastc,
}

/// Settings of the Basis Universal transform.
#[derive(Debug, Clone, Copy, PartialEq, Eq, Structural)]
pub struct BasisConfig {
    pub mode: BasisCompressionMode,
    pub quality: QualityPreset,
    pub generate_mipmaps: bool,
    pub max_size: Option<u32>,
}

/// The Basis settings that the image transform uses for KTX2 output.
pub fn basis_config_for(image: &ImageProcessorConfig) -> (r: BasisConfig)
    ensures
        r.mode == BasisCompressionMode::Uastc,
        r.quality == image.quality,
        r.generate_mipmaps == image.generate_mipmaps,
        r.max_size == image.max_size,
{
    BasisConfig {
        mode: BasisCompressionMode::Uastc,
        quality: image.quality,
        generate_mipmaps: image.generate_mipmaps,
        max_size: image.max_size,
    }
}

} // verus!
