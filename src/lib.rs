//! Builds declaration-level Rust source text: types, structs, enums, traits,
//! impl blocks, functions and modules, rendered with exact indentation.
mod associated_type;
mod block;
mod bound;
mod docs;
mod enums;
mod error;
mod field;
mod fields;
mod formatter;
mod function;
mod impls;
mod import;
mod scope;
mod structs;
mod traits;
mod type_def;
mod types;
mod variant;

pub use associated_type::AssociatedType;
pub use block::{Block, Body};
pub use bound::Bound;
pub use docs::Docs;
pub use enums::Enum;
pub use error::CodegenError;
pub use field::Field;
pub use fields::Fields;
pub use formatter::Formatter;
pub use function::Function;
pub use impls::Impl;
pub use import::Import;
pub use scope::{Item, Module, Scope};
pub use structs::Struct;
pub use traits::Trait;
pub use type_def::TypeDef;
pub use types::Type;
pub use variant::Variant;
