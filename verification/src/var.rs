//! The variables that a template binds: `#name` and `#{name: Type}`.

use vstd::prelude::*;
use crate::depth::{lemma_inside_shallow, shallow, MAX_DEPTH};
use crate::error::{ErrorKind, SchemaError};
use crate::grammar::{default_type, default_type_text, parse_typed, typed_parts};
use crate::recognizer::{children_at, shape_at, shape_at_spec, Shape};
use crate::render::{render, tokens_text};
use crate::token::{Position, Token, TokenView, tokens_view};

verus! {

/// A variable as the template declares it.
#[derive(Clone, Debug, PartialEq, Eq)]
pub enum Var {
    /// `#ident`
    IdentVar { ident: String, pos: Position },
    /// `#{ident: Type}`
    TypedVar { ident: String, pos: Position, typ: String },
}

/// The mathematical value of a [`Var`].
pub enum VarView {
    IdentVar { ident: Seq<char>, pos: Position },
    TypedVar { ident: Seq<char>, pos: Position, typ: Seq<char> },
}

impl View for Var {
    type V = VarView;

    open spec fn view(&self) -> VarView {
        match self {
            Var::IdentVar { ident, pos } => VarView::IdentVar { ident: ident@, pos: *pos },
            Var::TypedVar { ident, pos, typ } => VarView::TypedVar {
                ident: ident@,
                pos: *pos,
                typ: typ@,
            },
        }
    }
}

impl VarView {
    /// The variable's name.
    pub open spec fn ident(self) -> Seq<char> {
        match self {
            VarView::IdentVar { ident, pos } => ident,
            VarView::TypedVar { ident, pos, typ } => ident,
        }
    }

    /// The position of the variable's name.
    pub open spec fn position(self) -> Position {
        match self {
            VarView::IdentVar { ident, pos } => pos,
            VarView::TypedVar { ident, pos, typ } => pos,
        }
    }

    /// The text of the variable's type: the declared one, or the default.
    pub open spec fn typ(self) -> Seq<char> {
        match self {
            VarView::IdentVar { ident, pos } => default_type(),
            VarView::TypedVar { ident, pos, typ } => typ,
        }
    }
}

impl Var {
    /// The variable's name.
    pub fn ident(&self) -> (ident: &String)
        ensures
            ident@ == self@.ident(),
    {
        match self {
            Var::IdentVar { ident, pos } => ident,
            Var::TypedVar { ident, pos, typ } => ident,
        }
    }

    /// The position of the variable's name.
    pub fn position(&self) -> (pos: Position)
        ensures
            pos == self@.position(),
    {
        match self {
            Var::IdentVar { ident, pos } => *pos,
            Var::TypedVar { ident, pos, typ } => *pos,
        }
    }

    /// The text of the variable's type: the declared one, or the default.
    pub fn typ(&self) -> (typ: String)
        ensures
            typ@ == self@.typ(),
    {
        match self {
            Var::IdentVar { ident, pos } => default_type_text(),
            Var::TypedVar { ident, pos, typ } => typ.clone(),
        }
    }
}

/// The error for a construct that is not written as the grammar asks, at
/// the position of the marker `tokens[i]`.
pub open spec fn syntax_error_at(tokens: Seq<TokenView>, i: int) -> SchemaError {
    SchemaError::new(ErrorKind::Syntax, tokens[i].position())
}

/// What `#ident` at `tokens[i]` declares: the marker has to be followed by
/// a word that can name a field.
pub open spec fn ident_var_spec(tokens: Seq<TokenView>, i: int) -> Result<VarView, SchemaError> {
    if shape_at_spec(tokens, i + 1) == Shape::Name {
        Ok(VarView::IdentVar { ident: tokens[i + 1].text(), pos: tokens[i + 1].position() })
    } else {
        Err(syntax_error_at(tokens, i))
    }
}

/// What `#{ident: Type}` at `tokens[i]` declares: the marker has to be
/// followed by a brace group that holds a well-written typed binding
/// without a guard. What is wrong with the binding is an error at the
/// marker.
pub open spec fn typed_var_spec(tokens: Seq<TokenView>, i: int) -> Result<VarView, SchemaError> {
    if shape_at_spec(tokens, i + 1) == Shape::Brace {
        match typed_parts(children_at(tokens, i + 1), false) {
            Ok(parts) => Ok(
                VarView::TypedVar {
                    ident: parts.name,
                    pos: parts.name_pos,
                    typ: tokens_text(parts.ty),
                },
            ),
            Err(kind) => Err(SchemaError::new(kind, tokens[i].position())),
        }
    } else {
        Err(syntax_error_at(tokens, i))
    }
}

/// What the variable at `tokens[i]` declares: a typed one where a brace
/// group follows the marker, else a plain one.
pub open spec fn var_spec(tokens: Seq<TokenView>, i: int) -> Result<VarView, SchemaError> {
    if shape_at_spec(tokens, i + 1) == Shape::Brace {
        typed_var_spec(tokens, i)
    } else {
        ident_var_spec(tokens, i)
    }
}

/// Whether `found` is what the grammar gives.
pub open spec fn var_matches(
    found: Result<Var, SchemaError>,
    given: Result<VarView, SchemaError>,
) -> bool {
    match found {
        Ok(v) => given == Ok::<VarView, SchemaError>(v@),
        Err(e) => given == Err::<VarView, SchemaError>(e),
    }
}

/// Parses `#ident` declarations.
pub fn parse_ident_var(tokens: &Vec<Token>, i: usize) -> (var: Result<Var, SchemaError>)
    requires
        i < tokens.len(),
    ensures
        var_matches(var, ident_var_spec(tokens_view(tokens@), i as int)),
{
    if shape_at(tokens, i + 1) == Shape::Name {
        Ok(Var::IdentVar { ident: tokens[i + 1].text(), pos: tokens[i + 1].position() })
    } else {
        Err(SchemaError::new(ErrorKind::Syntax, tokens[i].position()))
    }
}

/// Parses `#{ident: Type}` declarations. What follows the marker is nested
/// no deeper than the compiler follows.
pub fn parse_typed_var(tokens: &Vec<Token>, i: usize) -> (var: Result<Var, SchemaError>)
    requires
        i < tokens.len(),
        shallow(tokens_view(tokens@), i + 1, i + 2),
    ensures
        var_matches(var, typed_var_spec(tokens_view(tokens@), i as int)),
{
    let error = SchemaError::new(ErrorKind::Syntax, tokens[i].position());
    if shape_at(tokens, i + 1) != Shape::Brace {
        return Err(error);
    }
    match &tokens[i + 1] {
        Token::Group { delimiter, children, pos } => {
            proof {
                lemma_inside_shallow(tokens_view(tokens@), i + 1, MAX_DEPTH as nat);
            }
            match parse_typed(children, false) {
                Ok(parts) => {
                    let typ = render(&parts.ty);
                    Ok(Var::TypedVar { ident: parts.name, pos: parts.name_pos, typ })
                },
                Err(kind) => Err(SchemaError::new(kind, tokens[i].position())),
            }
        },
        _ => Err(error),
    }
}

/// Parses the variable at `tokens[i]`, in either form. What follows the
/// marker is nested no deeper than the compiler follows.
pub fn parse_var(tokens: &Vec<Token>, i: usize) -> (var: Result<Var, SchemaError>)
    requires
        i < tokens.len(),
        shallow(tokens_view(tokens@), i + 1, i + 2),
    ensures
        var_matches(var, var_spec(tokens_view(tokens@), i as int)),
{
    if shape_at(tokens, i + 1) == Shape::Brace {
        parse_typed_var(tokens, i)
    } else {
        parse_ident_var(tokens, i)
    }
}

} // verus!
