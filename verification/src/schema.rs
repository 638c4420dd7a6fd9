//! The field schema that a template compiles to.

use vstd::prelude::*;
use crate::token::{Token, TokenView, tokens_view};

verus! {

/// How often a field is filled, with the text of its type.
#[derive(Clone, Debug, PartialEq, Eq)]
pub enum FieldKind {
    /// Exactly once.
    Plain(String),
    /// Any number of times.
    Repeated(String),
    /// Once or not at all.
    Optional(String),
}

/// The mathematical value of a [`FieldKind`].
pub enum FieldKindView {
    Plain(Seq<char>),
    Repeated(Seq<char>),
    Optional(Seq<char>),
}

/// The condition under which a field is filled.
///
/// A guard that the template writes is an expression over fields that are
/// bound before it, and nothing else: it cannot ask the input. What the
/// input goes on with decides only where the template leaves the guard to
/// the compiler, and is then said by [`Guard::Present`].
#[derive(Clone, Debug, PartialEq, Eq)]
pub enum Guard {
    /// The text of an expression over fields that are bound earlier.
    When(String),
    /// The text of what is written first in a group: the field is filled
    /// when the input goes on with that.
    Present(String),
}

/// The mathematical value of a [`Guard`].
pub enum GuardView {
    When(Seq<char>),
    Present(Seq<char>),
}

/// One field of the schema.
#[derive(Clone, Debug, PartialEq, Eq)]
pub struct FieldDecl {
    pub name: String,
    pub kind: FieldKind,
    pub guard: Option<Guard>,
    /// The name begins with `_`: the field is parsed and not kept.
    pub internal: bool,
    pub doc: Option<String>,
}

/// The mathematical value of a [`FieldDecl`].
pub struct FieldView {
    pub name: Seq<char>,
    pub kind: FieldKindView,
    pub guard: Option<GuardView>,
    pub internal: bool,
    pub doc: Option<Seq<char>>,
}

/// What a repetition matches: the tokens before its variable, the variable
/// as it is declared, the tokens behind it, and the tokens between two
/// rounds.
#[derive(Debug, PartialEq, Eq)]
pub struct RepetitionSpec {
    pub prefix: Vec<Token>,
    pub variable: FieldDecl,
    pub suffix: Vec<Token>,
    pub separator: Vec<Token>,
}

/// The mathematical value of a [`RepetitionSpec`].
pub struct RepetitionView {
    pub prefix: Seq<TokenView>,
    pub variable: FieldView,
    pub suffix: Seq<TokenView>,
    pub separator: Seq<TokenView>,
}

/// The compiled schema: the public fields in the order in which the template
/// declares them, and beside them the internal ones.
#[derive(Clone, Debug, PartialEq, Eq)]
pub struct TemplateSchema {
    pub fields: Vec<FieldDecl>,
    pub internal_fields: Vec<FieldDecl>,
}

/// The mathematical value of a [`TemplateSchema`].
pub struct SchemaView {
    pub fields: Seq<FieldView>,
    pub internal_fields: Seq<FieldView>,
}

impl View for FieldKind {
    type V = FieldKindView;

    open spec fn view(&self) -> FieldKindView {
        match self {
            FieldKind::Plain(ty) => FieldKindView::Plain(ty@),
            FieldKind::Repeated(ty) => FieldKindView::Repeated(ty@),
            FieldKind::Optional(ty) => FieldKindView::Optional(ty@),
        }
    }
}

impl View for Guard {
    type V = GuardView;

    open spec fn view(&self) -> GuardView {
        match self {
            Guard::When(text) => GuardView::When(text@),
            Guard::Present(text) => GuardView::Present(text@),
        }
    }
}

/// The value of a guard that may be absent.
pub open spec fn guard_view(guard: Option<Guard>) -> Option<GuardView> {
    match guard {
        Some(g) => Some(g@),
        None => None,
    }
}

/// The value of a text that may be absent.
pub open spec fn text_view(text: Option<String>) -> Option<Seq<char>> {
    match text {
        Some(t) => Some(t@),
        None => None,
    }
}

impl View for FieldDecl {
    type V = FieldView;

    open spec fn view(&self) -> FieldView {
        FieldView {
            name: self.name@,
            kind: self.kind@,
            guard: guard_view(self.guard),
            internal: self.internal,
            doc: text_view(self.doc),
        }
    }
}

/// The values of a run of fields, in order.
pub open spec fn fields_view(fields: Seq<FieldDecl>) -> Seq<FieldView> {
    fields.map_values(|f: FieldDecl| f@)
}

impl View for RepetitionSpec {
    type V = RepetitionView;

    open spec fn view(&self) -> RepetitionView {
        RepetitionView {
            prefix: tokens_view(self.prefix@),
            variable: self.variable@,
            suffix: tokens_view(self.suffix@),
            separator: tokens_view(self.separator@),
        }
    }
}

/// The values of a run of repetitions, in order.
pub open spec fn repetitions_view(repetitions: Seq<RepetitionSpec>) -> Seq<RepetitionView> {
    repetitions.map_values(|r: RepetitionSpec| r@)
}

impl View for TemplateSchema {
    type V = SchemaView;

    open spec fn view(&self) -> SchemaView {
        SchemaView {
            fields: fields_view(self.fields@),
            internal_fields: fields_view(self.internal_fields@),
        }
    }
}

impl FieldKindView {
    /// The text of the type.
    pub open spec fn type_text(self) -> Seq<char> {
        match self {
            FieldKindView::Plain(ty) => ty,
            FieldKindView::Repeated(ty) => ty,
            FieldKindView::Optional(ty) => ty,
        }
    }

    /// The kind that is left of this one in a scope that may stay empty:
    /// optional, of the same type.
    pub open spec fn weakened(self) -> FieldKindView {
        FieldKindView::Optional(self.type_text())
    }
}

impl FieldKind {
    /// The text of the type.
    pub fn type_text(&self) -> (ty: &String)
        ensures
            ty@ == self@.type_text(),
    {
        match self {
            FieldKind::Plain(ty) => ty,
            FieldKind::Repeated(ty) => ty,
            FieldKind::Optional(ty) => ty,
        }
    }

    /// A copy of this kind.
    pub fn duplicate(&self) -> (kind: FieldKind)
        ensures
            kind@ == self@,
    {
        match self {
            FieldKind::Plain(ty) => FieldKind::Plain(ty.clone()),
            FieldKind::Repeated(ty) => FieldKind::Repeated(ty.clone()),
            FieldKind::Optional(ty) => FieldKind::Optional(ty.clone()),
        }
    }

    /// The optional kind of the same type.
    pub fn weakened(&self) -> (kind: FieldKind)
        ensures
            kind@ == self@.weakened(),
    {
        FieldKind::Optional(self.type_text().clone())
    }
}

impl Guard {
    /// A copy of this guard.
    pub fn duplicate(&self) -> (guard: Guard)
        ensures
            guard@ == self@,
    {
        match self {
            Guard::When(text) => Guard::When(text.clone()),
            Guard::Present(text) => Guard::Present(text.clone()),
        }
    }
}

/// Whether a field of this name is internal: the name begins with `_`.
pub open spec fn is_internal_name(name: Seq<char>) -> bool {
    name.len() > 0 && name[0] == '_'
}

/// Whether a field of this name is internal.
pub fn internal_name(name: &String) -> (internal: bool)
    ensures
        internal == is_internal_name(name@),
{
    let text = name.as_str();
    if text.unicode_len() == 0 {
        false
    } else {
        text.get_char(0) == '_'
    }
}

impl FieldDecl {
    /// A field without guard and documentation; whether it is internal
    /// follows from its name.
    pub fn new(name: String, kind: FieldKind) -> (field: FieldDecl)
        ensures
            field@ == (FieldView {
                name: name@,
                kind: kind@,
                guard: None,
                internal: is_internal_name(name@),
                doc: None,
            }),
    {
        let internal = internal_name(&name);
        FieldDecl { name, kind, guard: None, internal, doc: None }
    }

    /// A copy of this field.
    pub fn duplicate(&self) -> (field: FieldDecl)
        ensures
            field@ == self@,
    {
        FieldDecl {
            name: self.name.clone(),
            kind: self.kind.duplicate(),
            guard: match &self.guard {
                Some(g) => Some(g.duplicate()),
                None => None,
            },
            internal: self.internal,
            doc: match &self.doc {
                Some(d) => Some(d.clone()),
                None => None,
            },
        }
    }
}

/// The schema of a finished scope: the fields whose names do not begin with
/// `_`, and those whose names do, each list in the order of `fields`.
pub open spec fn emit_spec(fields: Seq<FieldView>) -> SchemaView {
    SchemaView {
        fields: fields.filter(|f: FieldView| !is_internal_name(f.name)),
        internal_fields: fields.filter(|f: FieldView| is_internal_name(f.name)),
    }
}

/// Flattens the fields of the finished root scope into the schema: a field
/// whose name begins with `_` goes to the internal list, every other to the
/// public one, and each list keeps the order of declaration.
pub fn emit(fields: &Vec<FieldDecl>) -> (schema: TemplateSchema)
    ensures
        schema@ == emit_spec(fields_view(fields@)),
{
    let ghost all = fields_view(fields@);
    let ghost public = |f: FieldView| !is_internal_name(f.name);
    let ghost hidden = |f: FieldView| is_internal_name(f.name);
    let mut shown: Vec<FieldDecl> = Vec::new();
    let mut kept: Vec<FieldDecl> = Vec::new();
    let mut i: usize = 0;
    while i < fields.len()
        invariant
            i <= fields.len(),
            all == fields_view(fields@),
            public == |f: FieldView| !is_internal_name(f.name),
            hidden == |f: FieldView| is_internal_name(f.name),
            fields_view(shown@) == all.take(i as int).filter(public),
            fields_view(kept@) == all.take(i as int).filter(hidden),
        decreases fields.len() - i,
    {
        let field = fields[i].duplicate();
        proof {
            let next = all.take(i + 1);
            assert(next.drop_last() =~= all.take(i as int));
            reveal(Seq::filter);
        }
        if internal_name(&field.name) {
            let ghost before = fields_view(kept@);
            kept.push(field);
        } else {
            shown.push(field);
        }
        i += 1;
    }
    assert(all.take(fields.len() as int) =~= all);
    TemplateSchema { fields: shown, internal_fields: kept }
}

} // verus!
