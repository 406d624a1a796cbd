//! Derivation of human-readable "short name" labels for declared data types.
//!
//! A compact `PascalCase` identifier such as `NamedFieldsStruct` is turned
//! into the space-separated label `"Named Fields Struct"` by inserting one
//! space at every word boundary (a lowercase letter or digit followed by an
//! uppercase letter). A structural description of a type — its kind, its
//! name and, for a tagged union, its variants — is turned into a capability
//! that answers `as_short_name` for any value of that type, and into the
//! source text of the implementation that a registration layer can attach
//! to the type.

pub mod descriptor;
pub mod generator;
pub mod splitter;
