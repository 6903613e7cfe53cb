use vstd::prelude::*;

pub mod asset;
pub mod cache;
pub mod config;
pub mod debounce;
pub mod hash;
pub mod paths;
pub mod scheduler;
pub mod table;
pub mod watch;

pub use asset::{detect_model_format, AssetType, ModelFormat, ModelInfo, ProcessingStats};
pub use cache::{BuildCache, CacheEntry, CacheStats, CACHE_VERSION};
pub use config::{
    get_preset_config, AudioFormat, BasisCompressionMode, BasisConfig, BuildOptions, CacheConfig, Config,
    ImageProcessorConfig, OutputFormat, PlatformPreset, PresetConfig, ProjectConfig, QualityPreset, RuleConfig,
    WatchOptions,
};
pub use debounce::Debouncer;
pub use hash::{hash_data, hash_inputs};
pub use scheduler::{plan_jobs, BuildJob, BuildSession, BuildStats, FileFacts, TransformOutcome};
pub use table::KeyedTable;
pub use watch::{EventKind, EventPath, WatchEvent, WatchSession, WatchStats};

verus! {

} // verus!
