//! Authoring and packaging of programming assignments: one annotated source
//! tree is split into a reference view and a student template, question
//! definitions are assembled into a typed tree, and that tree is laid out as
//! a package of files.
pub mod attr;
pub mod dsl;
pub mod export;
pub mod format;
pub mod imports;
pub mod junit;
pub mod messages;
pub mod metadata;
pub mod programming;
pub mod questions;
pub mod slots;
pub mod split;
pub mod structure;
