//! Normalisation of markup templates: directive conversion, scope resolution
//! and the allocation of binding-map indices for top-level data fields.

pub mod binding_map;
pub mod convert_tree;
pub mod directives;
pub mod element;
pub mod entities;
pub mod expr;
pub mod group;
pub mod number;
pub mod parse_text_entity;
pub mod parser;
pub mod scopes;
pub mod str_map;
pub mod syntax;
pub mod tree;
pub mod utils;

pub use element::TmplElement;
pub use group::TmplGroup;
pub use parser::{parse_tmpl, TmplParseError};
pub use tree::TmplTree;
