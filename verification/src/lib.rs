//! Template-to-schema compiler.
//!
//! A template is a sequence of tokens in which annotations, each introduced
//! by the marker `#`, declare the fields that matching input will later
//! fill: `#name`, `#{name: Type}`, `#( .. ),*`, `#?name`, `#?{name: Type, if:
//! guard}`, `#?[ .. ]`, `#? if guard { .. } else { .. }` and `#{ .. }`. The
//! compiler walks the template once, from left to right, and gives the
//! ordered schema of its fields, or the first error.
//!
//! The modules, leaves first:
//!
//! - [`token`]: the token tree, and [`render`], its text;
//! - [`syntax`]: what the `syn` parser says of a piece of Rust text;
//! - [`recognizer`]: from a marker and the few tokens behind it, the
//!   construct that begins there;
//! - [`schema`]: fields, repetitions, and the schema emitter;
//! - [`bindings`]: the binding table, with registration, the check of
//!   guards, and the merge of scopes;
//! - [`names`]: the names that an expression cites and that tokens declare;
//! - [`grammar`] and [`var`]: the inside of bindings;
//! - [`depth`]: the guards against templates that are nested too deeply and
//!   against texts that the parser cannot be given;
//! - [`walker`]: the walk itself;
//! - [`compiler`]: the entry points;
//! - [`laws`]: what holds of every compilation;
//! - [`parse_vec`]: a list of items parsed one after another.

pub mod bindings;
pub mod compiler;
pub mod depth;
pub mod error;
pub mod grammar;
pub mod laws;
pub mod names;
pub mod parse_vec;
pub mod recognizer;
pub mod render;
pub mod schema;
pub mod syntax;
pub mod token;
pub mod var;
pub mod walker;

pub use crate::compiler::{
    quote_parse, quote_parse_internal, walk_token_stream, Compiled, Definition, Diagnostic,
    QuoteParseArgs,
};
pub use crate::error::{ErrorKind, SchemaError};
pub use crate::parse_vec::ParseVec;
pub use crate::schema::{FieldDecl, FieldKind, Guard, RepetitionSpec, TemplateSchema};
pub use crate::token::{Delimiter, Position, Token};
