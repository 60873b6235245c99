//! A schema-driven transformation core.
//!
//! A schema describes a tagged union of data shapes ("variants"), each field of
//! which carries a replacement policy. From that description the library
//! derives, per variant, two procedures that the embedding system runs against
//! the same pre-resolution input value:
//!
//! - `preload`: scans the fields whose policy requires early resource
//!   registration and records each discovered dependency with a dependency
//!   tracker, before any construction happens;
//! - `construct`: resolves every field through its policy against an ambient
//!   context and produces the fully resolved output value, all or nothing.
//!
//! Both procedures walk the same single field enumeration of the variant, so
//! the discovery pattern can never diverge structurally from the construction
//! pattern.

pub mod assets;
pub mod context;
pub mod definition;
pub mod errors;
pub mod laws;
pub mod phases;
pub mod schema;
pub mod tracker;
pub mod values;
