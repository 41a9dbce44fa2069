//! Configuration: its values, their defaults and the checks and rewrites applied after loading.
pub mod keys;
pub mod normalize;
pub mod overrides;
pub mod paths;
pub mod types;
pub mod validate;

pub use overrides::apply_rule_overrides;
pub use types::{
    Config, Defaults, InputText, LogFormat, LoggingConfig, Plugin, RuleConfig, Stages, TransportConfig,
    TransportOnExceed,
};
