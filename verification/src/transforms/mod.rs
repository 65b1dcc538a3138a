//! Utility functions and types for transforming [`SgmlFragment`]s.
//!
//! Transforms usually normalize data into a more suitable format for deserialization.
//!
//! [`SgmlFragment`]: crate::SgmlFragment

pub mod normalize_end_tags;
pub mod transform;

pub use self::normalize_end_tags::normalize_end_tags;
pub use self::normalize_end_tags::NormalizationError;
pub use self::transform::Transform;
