//! Decoder for bean-serialized frame captures, and the state of a frame viewer.
//!
//! A capture file is a generic property tree (`Java` and its children). The
//! transformation stage projects each object of that tree onto one `Trame`.
pub mod bean;
pub mod trame;
pub mod transform;
pub mod viewer;

pub use bean::{Java, JavaArray, JavaDate, JavaObject, JavaVoid, ParseError, VoidIndex, VoidValue};
pub use trame::{Timestamp, Trame, TrameModel};
pub use transform::{transform_to_trame, transform_with_now, PropertyKind, TransformError};
pub use viewer::{LoadError, Viewer};
