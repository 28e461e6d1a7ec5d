//! A string-keyed container of values of several types, with typed
//! retrieval, textual rendering and a JSON projection.
//!
//! The types a container can hold form a closed set: `String`, `&'static str`,
//! `bool`, `char`, `i32`, `i64`, `u32`, `u64`, and `IntVec` of those four
//! integer types. Each is recovered only by its own type. Types of a caller's
//! own cannot be stored, since a verified downcast needs a known set of
//! types, and floating-point values are not held at all.
pub mod builder;
pub mod error;
pub mod json;
pub mod keys;
pub mod laws;
pub mod parameters;
pub mod text;
pub mod value;

pub use builder::ParametersBuilder;
pub use error::ParameterError;
pub use json::JsonValue;
pub use parameters::{ParameterKey, Parameters};
pub use value::{FromText, IntKind, IntVec, IntegerBehavior, ParameterValue, Value};
