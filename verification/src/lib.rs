//! Utility types in the style of TypeScript (`Partial`, `Required`, `Readonly`,
//! `Record`, `Pick` and unions): the traits that generated code implements, and
//! the verified logic that decides what the derive macros generate.

pub mod error;
pub mod text;
pub mod case;
pub mod tokens;
pub mod search;
pub mod lexing;
pub mod attributes;
pub mod types;
pub mod literal;
pub mod result_ext;
pub mod partial;
pub mod pick;
pub mod readonly;
pub mod record;
pub mod required;
pub mod string_union;
pub mod union;
pub mod derive;
pub mod helper_attributes;
