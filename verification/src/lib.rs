//! Editor-integration library for the MIPS assembly family.
//!
//! The crate models the ISA version lattice, the dialect/version-gated
//! knowledge base of instructions, directives and registers, the per-document
//! incremental synchronization state, and the completion and hover resolvers.

pub mod completion;
pub mod document;
pub mod hover;
pub mod lang;
pub mod language_definitions;
pub mod settings;
pub mod text;
pub mod tree;
pub mod version;
