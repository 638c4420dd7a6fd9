//! What the `syn` parser says of a piece of Rust text.
//!
//! The template grammar is this crate's own; whether a run of tokens is a
//! Rust identifier, type, expression or visibility is `syn`'s to decide. Each
//! function here puts one such question to `syn`, and each answer has a name
//! that the contracts of the rest of the crate speak of.
//!
//! `syn` reads a text through the lexer of `proc-macro2`. This crate builds
//! `proc-macro2`, `quote` and `syn` without their `proc-macro` feature, so
//! that the lexer is always `proc-macro2`'s own, whether or not the process
//! is a compiler that expands a macro: the answer then depends on the text
//! and on nothing else. A build that turns the feature on lets the compiler's
//! lexer answer inside a macro, and the names below no longer hold of it.
//!
//! `syn` descends once for each group that a text opens, and its parsers
//! for types and expressions once for each token at worst; neither knows a
//! limit. So no function here takes every text: each asks that its text
//! [may be read](crate::depth::may_be_read) or
//! [may be parsed](crate::depth::may_be_parsed).

use vstd::prelude::*;
use crate::depth::{may_be_parsed, may_be_read};

verus! {

/// Whether `syn` reads `text` as one identifier that is no keyword.
pub uninterp spec fn parses_as_ident(text: Seq<char>) -> bool;

/// Whether `syn` reads the whole of `text` as one type.
pub uninterp spec fn parses_as_type(text: Seq<char>) -> bool;

/// Whether `syn` reads the whole of `text` as one expression.
pub uninterp spec fn parses_as_expr(text: Seq<char>) -> bool;

/// Whether `syn` reads the whole of `text` as a visibility; the empty text is
/// the inherited one.
pub uninterp spec fn parses_as_visibility(text: Seq<char>) -> bool;

/// What `syn` reads out of `text` as a string literal: the string that the
/// literal denotes, or nothing where `text` is no string literal.
pub uninterp spec fn string_literal_value(text: Seq<char>) -> Option<Seq<char>>;

/// `syn::parse_str::<syn::Ident>`: the answer is that of `syn`'s parser for
/// identifiers on `text`, which turns keywords down and wants the whole text
/// read.
#[verifier::external_body]
pub(crate) fn is_ident(text: &str) -> (ok: bool)
    requires
        may_be_read(text@),
    ensures
        ok == parses_as_ident(text@),
{
    syn::parse_str::<syn::Ident>(text).is_ok()
}

/// `syn::parse_str::<syn::Type>`: the answer is that of `syn`'s parser for
/// types on `text`, which wants the whole text read.
#[verifier::external_body]
pub(crate) fn is_type(text: &str) -> (ok: bool)
    requires
        may_be_parsed(text@),
    ensures
        ok == parses_as_type(text@),
{
    syn::parse_str::<syn::Type>(text).is_ok()
}

/// `syn::parse_str::<syn::Expr>`: the answer is that of `syn`'s parser for
/// expressions on `text`, which wants the whole text read.
#[verifier::external_body]
pub(crate) fn is_expr(text: &str) -> (ok: bool)
    requires
        may_be_parsed(text@),
    ensures
        ok == parses_as_expr(text@),
{
    syn::parse_str::<syn::Expr>(text).is_ok()
}

/// `syn::parse_str::<syn::Visibility>`: the answer is that of `syn`'s parser
/// for visibilities on `text`, which wants the whole text read.
#[verifier::external_body]
pub(crate) fn is_visibility(text: &str) -> (ok: bool)
    requires
        may_be_read(text@),
    ensures
        ok == parses_as_visibility(text@),
{
    syn::parse_str::<syn::Visibility>(text).is_ok()
}

/// `syn::parse_str::<syn::LitStr>` and `syn::LitStr::value`: the string that
/// `text` denotes as a string literal, escapes resolved, or nothing where
/// `syn` does not read `text` as a string literal.
#[verifier::external_body]
pub(crate) fn literal_value(text: &str) -> (value: Option<String>)
    requires
        may_be_read(text@),
    ensures
        match value {
            Some(v) => string_literal_value(text@) == Some(v@),
            None => string_literal_value(text@) is None,
        },
{
    match syn::parse_str::<syn::LitStr>(text) {
        Ok(literal) => Some(literal.value()),
        Err(_) => None,
    }
}

} // verus!
