//! Locating the canonical WIT root of the guest bindings crate, and the
//! behaviour of the canonical component fixture that exercises them.

pub mod bytes;
pub mod component;
pub mod wit_paths;
