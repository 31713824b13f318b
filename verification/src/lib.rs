//! Reflection metadata for the types of an entity-component-system engine.
//!
//! The engine hands out raw integer tags and entity identifiers; this crate
//! turns them into range-checked kinds and keeps, for every reflected type, a
//! descriptor of its shape together with the marker that records how far the
//! description has come.

pub mod bitmask;
pub mod builtins;
pub mod constants;
pub mod descriptor;
pub mod error;
pub mod kinds;
pub mod laws;
pub mod marker;
pub mod registry;
pub mod structure;
pub mod unit;

pub use bitmask::EcsBitmask;
pub use builtins::{Builtin, BuiltinTable};
pub use descriptor::{Descriptor, Element, TypeRef};
pub use error::MetaError;
pub use kinds::{EcsPrimitiveKind, EcsTypeKind};
pub use marker::{EcsMetaType, TypeEvent, TypeState};
pub use registry::TypeRegistry;
pub use structure::Member;
