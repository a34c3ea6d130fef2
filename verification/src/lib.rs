//! Derivation of a typestate builder for a record type with named fields:
//! the required fields are supplied one per stage, along a linear chain of
//! generated stage types, and the optional fields are settable in any order
//! on the terminal stage, from which the record is finally built. Finalizing
//! a record before every required field has been supplied is a type error in
//! the generated API, not a runtime defect.

pub mod decls;
pub mod errors;
pub mod fields;
pub mod generator;
pub mod names;
pub mod semantics;

pub use generator::implementation_better_builder;
pub use generator::BetterBuilderGenerator;
pub use generator::InputData;
pub use generator::RecordInput;
