//! Pseudo-random integer generation under range or list constraints, with
//! checked configuration, duplicate-free sampling and a line-oriented text
//! format for results.

pub mod text;
pub mod config;
pub mod sampling;
pub mod generator;

pub use config::{validate_config, GeneratorConfig, GeneratorMode, RandomGeneratorError};
pub use generator::{GeneratorStats, RandomGenerator, CORE_VERSION};
pub use text::{parse_custom_list, parse_numbers_file};
