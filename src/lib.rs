//! Validation and normalization of combo lines: a network endpoint, a login
//! and a password joined by a delimiter.
mod bytes;
mod enums;
pub mod laws;
mod model;
mod outside;
mod schema;
mod validator;

pub use bytes::{
    ascii_lower, canonicalize, classify_line, count_delims, decimal, fast_filter, join_fields,
    split_fields,
};
pub use enums::{DataEnum, LineEnum, ValidationError};
pub use model::{ConfigView, Parts, ResultView};
pub use validator::{normalize_endpoint, rebuild_endpoint};
pub use schema::{outcome, LocalConfig, ResultVULP, ShapeRules, Shapes, VULP};
