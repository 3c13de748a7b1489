//! Completion providers.

pub mod static_provider;

pub use static_provider::{StaticPatternDetector, StaticPatternProvider};
