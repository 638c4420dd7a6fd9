//! The parts of the template grammar that stay within one sequence: where a
//! shape first stands, and how the inside of a typed binding is laid out.

use vstd::prelude::*;
use crate::depth::{all_shallow, lemma_part_shallow, may_be_parsed, parsable};
use crate::error::ErrorKind;
use crate::names::typed_head;
use crate::recognizer::{shape_at, shape_at_spec, Shape};
use crate::render::{render, tokens_text};
use crate::syntax::{is_expr, is_type, parses_as_expr, parses_as_type};
use crate::token::{copy_range, Position, Token, TokenView, tokens_view};

verus! {

/// The text of the type of a binding that names none: `syn::Ident`, as
/// its tokens are written out.
pub open spec fn default_type() -> Seq<char> {
    "syn :: Ident"@
}

/// The text of the type of a binding that names none.
pub fn default_type_text() -> (text: String)
    ensures
        text@ == default_type(),
{
    "syn :: Ident".to_owned()
}

/// The first index at or behind `from` at which a token of shape `shape`
/// stands in `tokens`; the length of `tokens` where there is none.
pub open spec fn find_shape(tokens: Seq<TokenView>, from: int, shape: Shape) -> int
    decreases tokens.len() - from,
{
    if from < 0 || from >= tokens.len() {
        tokens.len() as int
    } else if shape_at_spec(tokens, from) == shape {
        from
    } else {
        find_shape(tokens, from + 1, shape)
    }
}

/// The first index at or behind `from` at which a token of shape `shape`
/// stands in `tokens`; the length of `tokens` where there is none.
pub fn find(tokens: &Vec<Token>, from: usize, shape: Shape) -> (at: usize)
    requires
        from <= tokens.len(),
    ensures
        at == find_shape(tokens_view(tokens@), from as int, shape),
        from <= at <= tokens.len(),
        at < tokens.len() ==> shape_at_spec(tokens_view(tokens@), at as int) == shape,
{
    let ghost all = tokens_view(tokens@);
    let mut i: usize = from;
    while i < tokens.len()
        invariant
            from <= i <= tokens.len(),
            all == tokens_view(tokens@),
            find_shape(all, from as int, shape) == find_shape(all, i as int, shape),
        decreases tokens.len() - i,
    {
        if shape_at(tokens, i) == shape {
            return i;
        }
        i += 1;
    }
    i
}

/// Where the guard of an optional typed binding begins: the first index at
/// or behind `from` at which `,`, `if` and `:` stand in a row, or the length
/// of `children` where they do nowhere.
pub open spec fn guard_split(children: Seq<TokenView>, from: int) -> int
    decreases children.len() - from,
{
    if from < 0 || from >= children.len() {
        children.len() as int
    } else if shape_at_spec(children, from) == Shape::Comma && shape_at_spec(children, from + 1)
        == Shape::If && shape_at_spec(children, from + 2) == Shape::Colon {
        from
    } else {
        guard_split(children, from + 1)
    }
}

/// Where the guard of an optional typed binding begins.
pub fn find_guard(children: &Vec<Token>, from: usize) -> (at: usize)
    requires
        from <= children.len(),
    ensures
        at == guard_split(tokens_view(children@), from as int),
        from <= at <= children.len(),
        at < children.len() ==> at + 3 <= children.len(),
{
    let ghost all = tokens_view(children@);
    let mut i: usize = from;
    while i < children.len()
        invariant
            from <= i <= children.len(),
            all == tokens_view(children@),
            guard_split(all, from as int) == guard_split(all, i as int),
        decreases children.len() - i,
    {
        if shape_at(children, i) == Shape::Comma && children.len() - i > 2 && shape_at(
            children,
            i + 1,
        ) == Shape::If && shape_at(children, i + 2) == Shape::Colon {
            return i;
        }
        i += 1;
    }
    i
}

/// The inside of a typed binding, taken apart: the name with its position,
/// the tokens of the type, and the tokens of the guard where one is written.
#[derive(Debug, PartialEq, Eq)]
pub struct TypedSplit {
    pub name: String,
    pub name_pos: Position,
    pub ty: Vec<Token>,
    pub guard: Option<Vec<Token>>,
}

/// The mathematical value of a [`TypedSplit`].
pub struct TypedSplitView {
    pub name: Seq<char>,
    pub name_pos: Position,
    pub ty: Seq<TokenView>,
    pub guard: Option<Seq<TokenView>>,
}

impl View for TypedSplit {
    type V = TypedSplitView;

    open spec fn view(&self) -> TypedSplitView {
        TypedSplitView {
            name: self.name@,
            name_pos: self.name_pos,
            ty: tokens_view(self.ty@),
            guard: match self.guard {
                Some(g) => Some(tokens_view(g@)),
                None => None,
            },
        }
    }
}

/// How the inside of a typed binding is laid out: a name, `:` or `as`, then
/// the type. In an optional binding the type ends where `, if :` begins, and
/// the guard is what follows that. Nothing where the inside does not begin
/// with a name and `:` or `as`.
pub open spec fn typed_split(children: Seq<TokenView>, optional: bool) -> Option<TypedSplitView> {
    if !typed_head(children) {
        None
    } else {
        let end = if optional {
            guard_split(children, 2)
        } else {
            children.len() as int
        };
        Some(
            TypedSplitView {
                name: children[0].text(),
                name_pos: children[0].position(),
                ty: children.subrange(2, end),
                guard: if end < children.len() {
                    Some(children.subrange(end + 3, children.len() as int))
                } else {
                    None
                },
            },
        )
    }
}

/// Whether a typed binding that is laid out as `split` is well written,
/// given what the parser said of its type and of its guard: there is a type
/// and the parser takes it, and a guard that is written is not empty and the
/// parser takes it.
pub open spec fn typed_accepted(split: TypedSplitView, type_ok: bool, guard_ok: bool) -> bool {
    &&& split.ty.len() > 0
    &&& type_ok
    &&& match split.guard {
        Some(g) => g.len() > 0 && guard_ok,
        None => true,
    }
}

/// Whether a typed binding that is laid out as `split` is well written.
pub open spec fn typed_well_written(split: TypedSplitView) -> bool {
    typed_accepted(
        split,
        parses_as_type(tokens_text(split.ty)),
        match split.guard {
            Some(g) => parses_as_expr(tokens_text(g)),
            None => true,
        },
    )
}

/// Whether the type and the guard of a typed binding may be put to the
/// parser.
pub open spec fn typed_may_be_parsed(split: TypedSplitView) -> bool {
    &&& may_be_parsed(tokens_text(split.ty))
    &&& match split.guard {
        Some(g) => may_be_parsed(tokens_text(g)),
        None => true,
    }
}

/// The well-written typed binding inside `children`. An inside that is not
/// laid out as a typed binding, or is not well written, is an error of
/// syntax. One whose type or guard may not be put to the parser is too
/// deep.
pub open spec fn typed_parts(children: Seq<TokenView>, optional: bool) -> Result<
    TypedSplitView,
    ErrorKind,
> {
    match typed_split(children, optional) {
        None => Err(ErrorKind::Syntax),
        Some(split) => if !typed_may_be_parsed(split) {
            Err(ErrorKind::DepthExceeded)
        } else if typed_well_written(split) {
            Ok(split)
        } else {
            Err(ErrorKind::Syntax)
        },
    }
}

/// Takes the inside of a typed binding apart. The inside is nested no
/// deeper than the compiler follows, and so are the parts.
pub fn split_typed(children: &Vec<Token>, optional: bool) -> (split: Option<TypedSplit>)
    requires
        all_shallow(tokens_view(children@)),
    ensures
        match split {
            Some(s) => typed_split(tokens_view(children@), optional) == Some(s@)
                && all_shallow(s@.ty) && match s@.guard {
                Some(g) => all_shallow(g),
                None => true,
            },
            None => typed_split(tokens_view(children@), optional) is None,
        },
{
    let head = shape_at(children, 0) == Shape::Name && (shape_at(children, 1) == Shape::Colon
        || shape_at(children, 1) == Shape::As);
    if !head {
        return None;
    }
    let end = if optional {
        find_guard(children, 2)
    } else {
        children.len()
    };
    let ghost all = tokens_view(children@);
    proof {
        lemma_part_shallow(all, 0, all.len() as int, 2, end as int);
        if end < children.len() {
            lemma_part_shallow(all, 0, all.len() as int, end + 3, all.len() as int);
        }
    }
    let ty = copy_range(children, 2, end);
    let guard = if end < children.len() {
        Some(copy_range(children, end + 3, children.len()))
    } else {
        None
    };
    Some(TypedSplit { name: children[0].text(), name_pos: children[0].position(), ty, guard })
}

/// Whether a typed binding that is laid out as `split` is well written,
/// given what the parser said of its type and of its guard.
pub fn accept_typed(split: &TypedSplit, type_ok: bool, guard_ok: bool) -> (ok: bool)
    ensures
        ok == typed_accepted(split@, type_ok, guard_ok),
{
    if split.ty.len() == 0 || !type_ok {
        return false;
    }
    match &split.guard {
        Some(g) => g.len() > 0 && guard_ok,
        None => true,
    }
}

/// The well-written typed binding inside `children`, which is nested no
/// deeper than the compiler follows. The type and the guard are put to the
/// parser, unless they may not be.
pub fn parse_typed(children: &Vec<Token>, optional: bool) -> (parts: Result<TypedSplit, ErrorKind>)
    requires
        all_shallow(tokens_view(children@)),
    ensures
        match parts {
            Ok(p) => typed_parts(tokens_view(children@), optional) == Ok::<
                TypedSplitView,
                ErrorKind,
            >(p@) && all_shallow(p@.ty) && match p@.guard {
                Some(g) => all_shallow(g),
                None => true,
            },
            Err(kind) => typed_parts(tokens_view(children@), optional) == Err::<
                TypedSplitView,
                ErrorKind,
            >(kind),
        },
{
    match split_typed(children, optional) {
        Some(split) => {
            let type_text = render(&split.ty);
            if !parsable(type_text.as_str()) {
                return Err(ErrorKind::DepthExceeded);
            }
            let guard_text = match &split.guard {
                Some(g) => {
                    let text = render(g);
                    if !parsable(text.as_str()) {
                        return Err(ErrorKind::DepthExceeded);
                    }
                    Some(text)
                },
                None => None,
            };
            let type_ok = is_type(type_text.as_str());
            let guard_ok = match &guard_text {
                Some(text) => is_expr(text.as_str()),
                None => true,
            };
            if accept_typed(&split, type_ok, guard_ok) {
                Ok(split)
            } else {
                Err(ErrorKind::Syntax)
            }
        },
        None => Err(ErrorKind::Syntax),
    }
}

} // verus!
