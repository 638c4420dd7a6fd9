//! The template walker: one pass over a token sequence, left to right, that
//! hands every marker to the recognizer, consumes the construct that begins
//! there, and echoes every other token.

use vstd::prelude::*;
use vstd::string::StringExecFns;
use crate::bindings::{BindingTable, Nesting, NestingView, TableView};
use crate::depth::{
    all_shallow, first_too_deep, lemma_inside_shallow, lemma_leaf_shallow, lemma_more_budget,
    lemma_part_shallow, lemma_part_within, may_be_parsed, may_be_read, parsable, readable,
    shallow, too_deep, MAX_DEPTH,
};
use crate::error::{ErrorKind, SchemaError};
use crate::grammar::{default_type, default_type_text, find, find_shape, parse_typed, typed_parts};
use crate::names::{cited, cited_names, later_names, names_later, texts_view};
use crate::recognizer::{
    children_at, is_word, recognize, recognize_spec, shape_at, shape_at_spec, Construct, Shape,
};
use crate::render::{render, tokens_text};
use crate::schema::{
    guard_view, internal_name, is_internal_name, repetitions_view, text_view, FieldDecl,
    FieldKind, FieldKindView, FieldView, Guard, GuardView, RepetitionSpec, RepetitionView,
};
use crate::syntax::{is_expr, literal_value, parses_as_expr, string_literal_value};
use crate::token::{
    copy_range, copy_token, Delimiter, Position, Token, TokenView, tokens_view,
};
use crate::var::{parse_var, syntax_error_at, var_spec};

verus! {

/// What a walk has gathered so far.
#[derive(Debug, PartialEq, Eq)]
pub struct Walker {
    /// The tokens of the sequence at hand that belong to no annotation, in
    /// their order.
    pub echo: Vec<Token>,
    /// The fields of the scope chain.
    pub table: BindingTable,
    /// What each repetition met so far matches, in the order of the text.
    pub repetitions: Vec<RepetitionSpec>,
    /// The documentation that waits for the next binding of the sequence.
    pub doc: Option<String>,
}

/// The mathematical value of a [`Walker`].
pub struct WalkView {
    pub echo: Seq<TokenView>,
    pub table: TableView,
    pub repetitions: Seq<RepetitionView>,
    pub doc: Option<Seq<char>>,
}

impl View for Walker {
    type V = WalkView;

    open spec fn view(&self) -> WalkView {
        WalkView {
            echo: tokens_view(self.echo@),
            table: self.table@,
            repetitions: repetitions_view(self.repetitions@),
            doc: text_view(self.doc),
        }
    }
}

impl WalkView {
    /// The state before the first token of a template.
    pub open spec fn initial() -> WalkView {
        WalkView {
            echo: Seq::empty(),
            table: TableView::empty(),
            repetitions: Seq::empty(),
            doc: None,
        }
    }
}

/// Whether a step came to what the grammar gives.
pub open spec fn step_matches(
    found: Result<(usize, Walker), SchemaError>,
    given: Result<(int, WalkView), SchemaError>,
) -> bool {
    match found {
        Ok((next, st)) => given == Ok::<(int, WalkView), SchemaError>((next as int, st@)),
        Err(e) => given == Err::<(int, WalkView), SchemaError>(e),
    }
}

/// Whether a walk came to what the grammar gives.
pub open spec fn walk_matches(
    found: Result<Walker, SchemaError>,
    given: Result<WalkView, SchemaError>,
) -> bool {
    match found {
        Ok(st) => given == Ok::<WalkView, SchemaError>(st@),
        Err(e) => given == Err::<WalkView, SchemaError>(e),
    }
}

/// The step that ends at `next` where `walked` succeeded.
pub open spec fn advanced(
    walked: Result<WalkView, SchemaError>,
    next: int,
) -> Result<(int, WalkView), SchemaError> {
    match walked {
        Ok(st) => Ok((next, st)),
        Err(e) => Err(e),
    }
}

/// The state after a field of the given name, kind and guard has been
/// declared at `pos`: the field takes the waiting documentation. A name
/// that the scope chain binds already is a duplicate, at `pos`.
pub open spec fn declared_spec(
    st: WalkView,
    name: Seq<char>,
    kind: FieldKindView,
    guard: Option<GuardView>,
    pos: Position,
) -> Result<WalkView, SchemaError> {
    if st.table.binds(name) {
        Err(SchemaError::new(ErrorKind::DuplicateField, pos))
    } else {
        Ok(
            WalkView {
                table: st.table.registered(
                    FieldView { name, kind, guard, internal: is_internal_name(name), doc: st.doc },
                ),
                doc: None,
                ..st
            },
        )
    }
}

/// Declares a field of the given name, kind and guard.
pub fn declare(
    st: Walker,
    name: String,
    kind: FieldKind,
    guard: Option<Guard>,
    pos: Position,
) -> (done: Result<Walker, SchemaError>)
    ensures
        walk_matches(done, declared_spec(st@, name@, kind@, guard_view(guard), pos)),
{
    let Walker { echo, mut table, repetitions, doc } = st;
    let internal = internal_name(&name);
    let field = FieldDecl { name, kind, guard, internal, doc };
    match table.register(field, pos) {
        Ok(_) => Ok(Walker { echo, table, repetitions, doc: None }),
        Err(e) => Err(e),
    }
}

/// The single field that a repetition stands for: the variable, any number
/// of times.
pub open spec fn expanded(rep: RepetitionView) -> FieldView {
    FieldView { kind: FieldKindView::Repeated(rep.variable.kind.type_text()), ..rep.variable }
}

/// The single field that a repetition stands for: it has the variable's
/// name and documentation, and is repeated, of the variable's type.
pub fn expand(rep: &RepetitionSpec) -> (field: FieldDecl)
    ensures
        field@ == expanded(rep@),
{
    let variable = rep.variable.duplicate();
    let FieldDecl { name, kind, guard, internal, doc } = variable;
    FieldDecl { name, kind: FieldKind::Repeated(kind.type_text().clone()), guard, internal, doc }
}

/// What the repetition at `tokens[i]` comes to. The marker is followed by a
/// round group that holds, at its top level, tokens, one variable, and
/// tokens; behind the group stand the separator's tokens and then `*`. The
/// repetition declares one repeated field and is noted with what it
/// matches. A group without a variable and a missing `*` are errors of
/// syntax at the marker; a further marker behind the variable is an error
/// at that marker.
pub open spec fn repetition_spec(
    tokens: Seq<TokenView>,
    i: int,
    st: WalkView,
) -> Result<(int, WalkView), SchemaError> {
    let body = children_at(tokens, i + 1);
    let at = find_shape(body, 0, Shape::Marker);
    let star = find_shape(tokens, i + 2, Shape::Star);
    if shape_at_spec(tokens, i + 1) != Shape::Paren || at >= body.len() {
        Err(syntax_error_at(tokens, i))
    } else {
        match var_spec(body, at) {
            Err(e) => Err(e),
            Ok(var) => {
                let second = find_shape(body, at + 2, Shape::Marker);
                let rep = RepetitionView {
                    prefix: body.take(at),
                    variable: FieldView {
                        name: var.ident(),
                        kind: FieldKindView::Plain(var.typ()),
                        guard: None,
                        internal: is_internal_name(var.ident()),
                        doc: st.doc,
                    },
                    suffix: body.skip(at + 2),
                    separator: tokens.subrange(i + 2, star),
                };
                if second < body.len() {
                    Err(
                        SchemaError::new(
                            ErrorKind::MultipleBindingInRepetition,
                            body[second].position(),
                        ),
                    )
                } else if star >= tokens.len() {
                    Err(syntax_error_at(tokens, i))
                } else if st.table.binds(var.ident()) {
                    Err(SchemaError::new(ErrorKind::DuplicateField, var.position()))
                } else {
                    Ok(
                        (
                            star + 1,
                            WalkView {
                                table: st.table.registered(expanded(rep)),
                                repetitions: st.repetitions.push(rep),
                                doc: None,
                                ..st
                            },
                        ),
                    )
                }
            },
        }
    }
}

/// Parses `#(#{var: Type})*`, `#(#{var: Type}),*`, etc. statements. The
/// group and the separator are nested no deeper than the compiler follows.
pub fn parse_repetition(tokens: &Vec<Token>, i: usize, st: Walker) -> (done: Result<
    (usize, Walker),
    SchemaError,
>)
    requires
        i < tokens.len(),
        shallow(
            tokens_view(tokens@),
            i + 1,
            repetition_end(tokens_view(tokens@), i as int),
        ),
    ensures
        step_matches(done, repetition_spec(tokens_view(tokens@), i as int, st@)),
        done is Ok ==> i < done->Ok_0.0 <= tokens.len(),
{
    let error = SchemaError::new(ErrorKind::Syntax, tokens[i].position());
    if shape_at(tokens, i + 1) != Shape::Paren {
        return Err(error);
    }
    match &tokens[i + 1] {
        Token::Group { delimiter, children, pos } => {
            let at = find(children, 0, Shape::Marker);
            if at >= children.len() {
                return Err(error);
            }
            let ghost all = tokens_view(tokens@);
            let ghost body = tokens_view(children@);
            let ghost end = repetition_end(all, i as int);
            proof {
                lemma_part_within(all, i + 1, end, i + 1, i + 2, MAX_DEPTH as nat);
                lemma_inside_shallow(all, i + 1, MAX_DEPTH as nat);
                lemma_part_shallow(body, 0, body.len() as int, 0, at as int);
                if at + 2 <= children.len() {
                    lemma_part_shallow(body, 0, body.len() as int, at + 1, at + 2);
                    lemma_part_shallow(body, 0, body.len() as int, at + 2, body.len() as int);
                }
            }
            let var = match parse_var(children, at) {
                Ok(v) => v,
                Err(e) => {
                    return Err(e);
                },
            };
            let second = find(children, at + 2, Shape::Marker);
            if second < children.len() {
                return Err(
                    SchemaError::new(
                        ErrorKind::MultipleBindingInRepetition,
                        children[second].position(),
                    ),
                );
            }
            let star = find(tokens, i + 2, Shape::Star);
            if star >= tokens.len() {
                return Err(error);
            }
            proof {
                lemma_part_shallow(all, i + 1, end, i + 2, star as int);
            }
            let Walker { echo, mut table, mut repetitions, doc } = st;
            let name = var.ident().clone();
            let internal = internal_name(&name);
            let rep = RepetitionSpec {
                prefix: copy_range(children, 0, at),
                variable: FieldDecl {
                    name,
                    kind: FieldKind::Plain(var.typ()),
                    guard: None,
                    internal,
                    doc,
                },
                suffix: copy_range(children, at + 2, children.len()),
                separator: copy_range(tokens, i + 2, star),
            };
            let field = expand(&rep);
            match table.register(field, var.position()) {
                Ok(_) => {
                    let ghost before = repetitions_view(repetitions@);
                    repetitions.push(rep);
                    assert(repetitions_view(repetitions@) =~= before.push(rep@));
                    Ok((star + 1, Walker { echo, table, repetitions, doc: None }))
                },
                Err(e) => Err(e),
            }
        },
        _ => Err(error),
    }
}

/// Whether the tokens inside a bracket group are those of a documentation
/// attribute: the word `doc`, `=`, and a literal.
pub open spec fn is_doc_attribute(children: Seq<TokenView>) -> bool {
    &&& children.len() == 3
    &&& children[0] is Ident
    &&& children[0].text() == "doc"@
    &&& children[1].is_punct('=')
    &&& children[2] is Literal
}

/// The documentation that waits once `value`, what a further documentation
/// attribute's literal denotes, has been read: `value` on a line of its own
/// behind what waited before. A literal that denotes no string is an error
/// of syntax at `pos`.
pub open spec fn documented_spec(
    prior: Option<Seq<char>>,
    value: Option<Seq<char>>,
    pos: Position,
) -> Result<Seq<char>, SchemaError> {
    match value {
        None => Err(SchemaError::new(ErrorKind::Syntax, pos)),
        Some(v) => match prior {
            None => Ok(v),
            Some(d) => Ok(d + "\n"@ + v),
        },
    }
}

/// The documentation that waits once a further documentation attribute has
/// been read, given what its literal denotes.
pub fn documented(prior: Option<String>, value: Option<String>, pos: Position) -> (doc: Result<
    String,
    SchemaError,
>)
    ensures
        match doc {
            Ok(d) => documented_spec(text_view(prior), text_view(value), pos) == Ok::<
                Seq<char>,
                SchemaError,
            >(d@),
            Err(e) => documented_spec(text_view(prior), text_view(value), pos) == Err::<
                Seq<char>,
                SchemaError,
            >(e),
        },
{
    match value {
        None => Err(SchemaError::new(ErrorKind::Syntax, pos)),
        Some(v) => match prior {
            None => Ok(v),
            Some(d) => {
                let mut text = d;
                text.append("\n");
                text.append(v.as_str());
                Ok(text)
            },
        },
    }
}

/// What the documentation attribute at `tokens[i]` comes to: the marker is
/// followed by a bracket group that holds `doc = ".."`, and what the literal
/// denotes waits for the next binding. Anything else in the brackets is an
/// error of syntax at the marker; a literal that may not be read is too
/// deep.
pub open spec fn documentation_spec(
    tokens: Seq<TokenView>,
    i: int,
    st: WalkView,
) -> Result<(int, WalkView), SchemaError> {
    let children = children_at(tokens, i + 1);
    if shape_at_spec(tokens, i + 1) != Shape::Bracket || !is_doc_attribute(children) {
        Err(syntax_error_at(tokens, i))
    } else if !may_be_read(children[2].text()) {
        Err(SchemaError::new(ErrorKind::DepthExceeded, tokens[i].position()))
    } else {
        match documented_spec(
            st.doc,
            string_literal_value(children[2].text()),
            tokens[i].position(),
        ) {
            Ok(doc) => Ok((i + 2, WalkView { doc: Some(doc), ..st })),
            Err(e) => Err(e),
        }
    }
}

/// Whether the tokens inside a bracket group are those of a documentation
/// attribute.
pub fn doc_attribute(children: &Vec<Token>) -> (yes: bool)
    ensures
        yes == is_doc_attribute(tokens_view(children@)),
{
    if children.len() != 3 {
        return false;
    }
    let word = match &children[0] {
        Token::Ident { text, pos } => is_word(text, "doc"),
        _ => false,
    };
    let literal = match &children[2] {
        Token::Literal { text, pos } => true,
        _ => false,
    };
    word && children[1].is_punct('=') && literal
}

/// Reads the documentation attribute at `tokens[i]`.
pub fn parse_documentation(tokens: &Vec<Token>, i: usize, st: Walker) -> (done: Result<
    (usize, Walker),
    SchemaError,
>)
    requires
        i < tokens.len(),
    ensures
        step_matches(done, documentation_spec(tokens_view(tokens@), i as int, st@)),
        done is Ok ==> i < done->Ok_0.0 <= tokens.len(),
{
    let error = SchemaError::new(ErrorKind::Syntax, tokens[i].position());
    if shape_at(tokens, i + 1) != Shape::Bracket {
        return Err(error);
    }
    match &tokens[i + 1] {
        Token::Group { delimiter, children, pos } => {
            if !doc_attribute(children) {
                return Err(error);
            }
            let literal = children[2].text();
            if !readable(literal.as_str()) {
                return Err(SchemaError::new(ErrorKind::DepthExceeded, tokens[i].position()));
            }
            let value = literal_value(literal.as_str());
            let Walker { echo, table, repetitions, doc } = st;
            match documented(doc, value, tokens[i].position()) {
                Ok(text) => Ok((i + 2, Walker { echo, table, repetitions, doc: Some(text) })),
                Err(e) => Err(e),
            }
        },
        _ => Err(error),
    }
}

/// What `#name` at `tokens[i]` comes to: a plain field of the default type.
pub open spec fn plain_binding_spec(
    tokens: Seq<TokenView>,
    i: int,
    st: WalkView,
) -> Result<(int, WalkView), SchemaError> {
    match var_spec(tokens, i) {
        Ok(var) => advanced(
            declared_spec(st, var.ident(), FieldKindView::Plain(var.typ()), None, var.position()),
            i + 2,
        ),
        Err(e) => Err(e),
    }
}

/// Declares the plain field that `#name` or `#{name: Type}` at `tokens[i]`
/// binds. What follows the marker is nested no deeper than the compiler
/// follows.
pub fn parse_binding(tokens: &Vec<Token>, i: usize, st: Walker) -> (done: Result<
    (usize, Walker),
    SchemaError,
>)
    requires
        i < tokens.len(),
        shallow(tokens_view(tokens@), i + 1, i + 2),
    ensures
        step_matches(done, plain_binding_spec(tokens_view(tokens@), i as int, st@)),
        done is Ok ==> i < done->Ok_0.0 <= tokens.len(),
{
    match parse_var(tokens, i) {
        Ok(var) => {
            let name = var.ident().clone();
            match declare(st, name, FieldKind::Plain(var.typ()), None, var.position()) {
                Ok(st) => Ok((i + 2, st)),
                Err(e) => Err(e),
            }
        },
        Err(e) => Err(e),
    }
}

/// What `#?name` at `tokens[i]` comes to: an optional field of the default
/// type.
pub open spec fn optional_ident_spec(
    tokens: Seq<TokenView>,
    i: int,
    st: WalkView,
) -> Result<(int, WalkView), SchemaError> {
    if shape_at_spec(tokens, i + 2) == Shape::Name {
        advanced(
            declared_spec(
                st,
                tokens[i + 2].text(),
                FieldKindView::Optional(default_type()),
                None,
                tokens[i + 2].position(),
            ),
            i + 3,
        )
    } else {
        Err(syntax_error_at(tokens, i))
    }
}

/// Declares the optional field that `#?name` at `tokens[i]` binds.
pub fn parse_optional_ident(tokens: &Vec<Token>, i: usize, st: Walker) -> (done: Result<
    (usize, Walker),
    SchemaError,
>)
    requires
        i < tokens.len(),
    ensures
        step_matches(done, optional_ident_spec(tokens_view(tokens@), i as int, st@)),
        done is Ok ==> i < done->Ok_0.0 <= tokens.len(),
{
    if tokens.len() - i > 2 && shape_at(tokens, i + 2) == Shape::Name {
        let name = tokens[i + 2].text();
        match declare(
            st,
            name,
            FieldKind::Optional(default_type_text()),
            None,
            tokens[i + 2].position(),
        ) {
            Ok(st) => Ok((i + 3, st)),
            Err(e) => Err(e),
        }
    } else {
        Err(SchemaError::new(ErrorKind::Syntax, tokens[i].position()))
    }
}

/// What `#?{name: Type}` or `#?{name: Type, if: guard}` at `tokens[i]` comes
/// to, where `later` holds the names that are bound later: an optional
/// field of the declared type, under the guard where one is written. The
/// guard is checked before the field is declared.
pub open spec fn optional_typed_spec(
    tokens: Seq<TokenView>,
    i: int,
    later: Seq<Seq<char>>,
    st: WalkView,
) -> Result<(int, WalkView), SchemaError> {
    if shape_at_spec(tokens, i + 2) != Shape::Brace {
        Err(syntax_error_at(tokens, i))
    } else {
        match typed_parts(children_at(tokens, i + 2), true) {
            Err(kind) => Err(SchemaError::new(kind, tokens[i].position())),
            Ok(parts) => match parts.guard {
                None => advanced(
                    declared_spec(
                        st,
                        parts.name,
                        FieldKindView::Optional(tokens_text(parts.ty)),
                        None,
                        parts.name_pos,
                    ),
                    i + 3,
                ),
                Some(g) => match st.table.guard_checked(cited_names(g), later) {
                    Err(e) => Err(e),
                    Ok(_) => advanced(
                        declared_spec(
                            st,
                            parts.name,
                            FieldKindView::Optional(tokens_text(parts.ty)),
                            Some(GuardView::When(tokens_text(g))),
                            parts.name_pos,
                        ),
                        i + 3,
                    ),
                },
            },
        }
    }
}

/// Declares the optional field that `#?{..}` at `tokens[i]` binds. The
/// group is nested no deeper than the compiler follows.
pub fn parse_optional_typed(
    tokens: &Vec<Token>,
    i: usize,
    later: &Vec<String>,
    st: Walker,
) -> (done:
    Result<(usize, Walker), SchemaError>)
    requires
        i < tokens.len(),
        shallow(tokens_view(tokens@), i + 2, i + 3),
    ensures
        step_matches(
            done,
            optional_typed_spec(tokens_view(tokens@), i as int, texts_view(later@), st@),
        ),
        done is Ok ==> i < done->Ok_0.0 <= tokens.len(),
{
    let error = SchemaError::new(ErrorKind::Syntax, tokens[i].position());
    if !(tokens.len() - i > 2 && shape_at(tokens, i + 2) == Shape::Brace) {
        return Err(error);
    }
    match &tokens[i + 2] {
        Token::Group { delimiter, children, pos } => {
            proof {
                lemma_inside_shallow(tokens_view(tokens@), i + 2, MAX_DEPTH as nat);
            }
            match parse_typed(children, true) {
                Err(kind) => Err(SchemaError::new(kind, tokens[i].position())),
                Ok(parts) => {
                    let ty = render(&parts.ty);
                    let guard = match &parts.guard {
                        None => None,
                        Some(g) => {
                            let names = cited(g);
                            match st.table.validate_guard(&names, later) {
                                Err(e) => {
                                    return Err(e);
                                },
                                Ok(_) => Some(Guard::When(render(g))),
                            }
                        },
                    };
                    match declare(st, parts.name, FieldKind::Optional(ty), guard, parts.name_pos) {
                        Ok(st) => Ok((i + 3, st)),
                        Err(e) => Err(e),
                    }
                },
            }
        },
        _ => Err(error),
    }
}

/// The state in which the walk of an inner scope begins: nothing echoed, no
/// documentation waiting, the table and the repetitions as they are.
pub open spec fn inner_start(st: WalkView) -> WalkView {
    WalkView { echo: Seq::empty(), doc: None, ..st }
}

/// The state of the outer walk once an inner scope has been closed: the
/// inner scope's fields stay in the table as `nesting` takes them in, the
/// names declared in it are out of sight, and the outer walk's echo and
/// waiting documentation are as they were.
pub open spec fn inner_end(outer: WalkView, inner: WalkView, nesting: NestingView) -> WalkView {
    WalkView {
        echo: outer.echo,
        table: inner.table.merged(
            outer.table.fields.len() as int,
            outer.table.visible.len() as int,
            nesting,
        ),
        repetitions: inner.repetitions,
        doc: outer.doc,
    }
}

/// How many of `children` make up what is written first in them, given
/// that the first `n` do: a punctuation character that is joined to the
/// token behind it takes that one along.
pub open spec fn first_len(children: Seq<TokenView>, n: int) -> int
    decreases children.len() - n,
{
    if 1 <= n < children.len() && children[n - 1].is_joint() {
        first_len(children, n + 1)
    } else {
        n
    }
}

/// The text of what is written first in `children`: the first token, and
/// with a punctuation character what is joined to it, as in `->` or `'a`;
/// empty where there is no token.
pub open spec fn first_text(children: Seq<TokenView>) -> Seq<char> {
    if children.len() > 0 {
        tokens_text(children.take(first_len(children, 1)))
    } else {
        Seq::empty()
    }
}

/// The position of the first group in what is written first in `children`
/// that is nested deeper than `budget`; nothing where there is none.
pub open spec fn first_too_deep_in_first(children: Seq<TokenView>, budget: nat) -> Option<
    Position,
> {
    if children.len() > 0 {
        first_too_deep(children, 0, first_len(children, 1), budget)
    } else {
        None
    }
}

/// What the walk of a group comes to whose fields are guarded by what is
/// written first in it: the scope is closed as `nesting` says and the walk
/// goes on at `next`, unless what is written first is nested deeper than
/// the inside of the group may be.
pub open spec fn closed_under_first(
    st: WalkView,
    inner: WalkView,
    children: Seq<TokenView>,
    nesting: NestingView,
    next: int,
    depth: nat,
) -> Result<(int, WalkView), SchemaError> {
    match first_too_deep_in_first(children, (depth - 1) as nat) {
        Some(deep) => Err(SchemaError::new(ErrorKind::DepthExceeded, deep)),
        None => Ok((next, inner_end(st, inner, nesting))),
    }
}

/// The guard of a branch with the condition `text` that stands behind
/// branches whose conditions all failed, which `rejected` says.
pub open spec fn taken_guard(rejected: Option<Seq<char>>, text: Seq<char>) -> Seq<char> {
    match rejected {
        None => text,
        Some(r) => r + " && ("@ + text + ")"@,
    }
}

/// What says that the branches so far, and the one with the condition
/// `text`, all failed.
pub open spec fn rejected_guard(rejected: Option<Seq<char>>, text: Seq<char>) -> Seq<char> {
    match rejected {
        None => "!("@ + text + ")"@,
        Some(r) => r + " && !("@ + text + ")"@,
    }
}

/// The state with `token` echoed.
pub open spec fn echoed(st: WalkView, token: TokenView) -> WalkView {
    WalkView { echo: st.echo.push(token), ..st }
}

/// The state after a plain group has been walked: the group is echoed with
/// the echo of its inside, and its fields stay as they are.
pub open spec fn grouped(
    st: WalkView,
    inner: WalkView,
    delimiter: Delimiter,
    pos: Position,
) -> WalkView {
    WalkView {
        echo: st.echo.push(TokenView::Group { delimiter, children: inner.echo, pos }),
        ..inner_end(st, inner, NestingView::Group)
    }
}

/// The walk of the inside of the group `tokens[k]` as an inner scope of
/// `st`, with `depth` levels of nesting to go. A group that is met with no
/// level to go is too deep: the error is at the group. The names that are
/// bound later are those of `later` and those that `tokens` declares
/// behind the group.
pub open spec fn scope_spec(
    tokens: Seq<TokenView>,
    k: int,
    later: Seq<Seq<char>>,
    st: WalkView,
    depth: nat,
) -> Result<WalkView, SchemaError>
    decreases tokens, 3 * (tokens.len() - k),
{
    if 0 <= k < tokens.len() {
        match tokens[k] {
            TokenView::Group { delimiter, children, pos } => if depth == 0 {
                Err(SchemaError::new(ErrorKind::DepthExceeded, pos))
            } else {
                walk_spec(
                    children,
                    0,
                    later_names(later, tokens, k + 1, depth),
                    inner_start(st),
                    (depth - 1) as nat,
                )
            },
            _ => Ok(inner_start(st)),
        }
    } else {
        Ok(inner_start(st))
    }
}

/// What the check of a condition comes to, given what the parser said of
/// it: a condition that the parser does not take as an expression is an
/// error of syntax at `marker`; one that it takes is checked as a guard.
pub open spec fn condition_spec(
    condition: Seq<TokenView>,
    accepted: bool,
    table: TableView,
    later: Seq<Seq<char>>,
    marker: Position,
) -> Result<(), SchemaError> {
    if !accepted {
        Err(SchemaError::new(ErrorKind::Syntax, marker))
    } else {
        table.guard_checked(cited_names(condition), later)
    }
}

/// Checks a condition, given what the parser said of it. The condition is
/// nested no deeper than the compiler follows.
pub fn check_condition(
    condition: &Vec<Token>,
    accepted: bool,
    table: &BindingTable,
    later: &Vec<String>,
    marker: Position,
) -> (done: Result<(), SchemaError>)
    requires
        all_shallow(tokens_view(condition@)),
    ensures
        done == condition_spec(
            tokens_view(condition@),
            accepted,
            table@,
            texts_view(later@),
            marker,
        ),
{
    if !accepted {
        return Err(SchemaError::new(ErrorKind::Syntax, marker));
    }
    let names = cited(condition);
    table.validate_guard(&names, later)
}

/// What the conditional chain comes to whose `if` stands at `tokens[j]`.
/// The condition is what stands between `if` and the next brace group, the
/// body is that group. A condition that is missing is an error of syntax
/// at `marker`. One that is nested deeper than `depth`, or may not be put
/// to the parser, is too deep. Else it is put to the parser and
/// checked as [`condition_spec`] says, before the body is walked. The
/// body's fields become optional, under the branch's guard where they
/// have none. Behind the body, `else` goes on with another `if` or ends
/// the chain with a last body.
pub open spec fn chain_spec(
    tokens: Seq<TokenView>,
    j: int,
    marker: Position,
    rejected: Option<Seq<char>>,
    later: Seq<Seq<char>>,
    st: WalkView,
    depth: nat,
) -> Result<(int, WalkView), SchemaError>
    decreases tokens, 3 * (tokens.len() - j) + 1,
{
    let body = find_shape(tokens, j + 1, Shape::Brace);
    let condition = tokens.subrange(j + 1, body);
    let text = tokens_text(condition);
    let error = SchemaError::new(ErrorKind::Syntax, marker);
    if shape_at_spec(tokens, j) != Shape::If || !(j < body < tokens.len()) || condition.len()
        == 0 {
        Err(error)
    } else if first_too_deep(tokens, j + 1, body, depth) is Some {
        Err(
            SchemaError::new(
                ErrorKind::DepthExceeded,
                first_too_deep(tokens, j + 1, body, depth)->Some_0,
            ),
        )
    } else if !may_be_parsed(text) {
        Err(SchemaError::new(ErrorKind::DepthExceeded, marker))
    } else {
        match condition_spec(
            condition,
            parses_as_expr(text),
            st.table,
            later_names(later, tokens, j, depth),
            marker,
        ) {
            Err(e) => Err(e),
            Ok(_) => match scope_spec(tokens, body, later, st, depth) {
                Err(e) => Err(e),
                Ok(inner) => {
                    let st1 = inner_end(
                        st,
                        inner,
                        NestingView::Guarded(GuardView::When(taken_guard(rejected, text))),
                    );
                    let otherwise = rejected_guard(rejected, text);
                    if shape_at_spec(tokens, body + 1) != Shape::Else {
                        Ok((body + 1, st1))
                    } else if shape_at_spec(tokens, body + 2) == Shape::If {
                        chain_spec(tokens, body + 2, marker, Some(otherwise), later, st1, depth)
                    } else if shape_at_spec(tokens, body + 2) == Shape::Brace {
                        match scope_spec(tokens, body + 2, later, st1, depth) {
                            Err(e) => Err(e),
                            Ok(last) => Ok(
                                (
                                    body + 3,
                                    inner_end(
                                        st1,
                                        last,
                                        NestingView::Guarded(GuardView::When(otherwise)),
                                    ),
                                ),
                            ),
                        }
                    } else {
                        Err(error)
                    }
                },
            },
        }
    }
}

/// What came of a step inside `construct`: an error that is not yet said to
/// have arisen in a construct arose in this one.
pub open spec fn within(
    construct: Construct,
    done: Result<(int, WalkView), SchemaError>,
) -> Result<(int, WalkView), SchemaError> {
    match done {
        Ok(next) => Ok(next),
        Err(e) => Err(e.tagged(construct)),
    }
}

/// Where the tokens end that the repetition at `tokens[i]` takes as they
/// are: at its `*`, or behind its group where no `*` follows.
pub open spec fn repetition_end(tokens: Seq<TokenView>, i: int) -> int {
    let star = find_shape(tokens, i + 2, Shape::Star);
    if i + 2 <= star < tokens.len() {
        star
    } else {
        i + 2
    }
}

/// The tokens that `construct` at `tokens[i]` takes as they are, without
/// walking them, as the index of the first and the index behind the last:
/// the group of a typed binding or of a documentation attribute, and the
/// group and the separator of a repetition.
pub open spec fn taken_whole(tokens: Seq<TokenView>, i: int, construct: Construct) -> (int, int) {
    match construct {
        Construct::TypedBinding => (i + 1, i + 2),
        Construct::Documentation => (i + 1, i + 2),
        Construct::OptionalTypedBinding => (i + 2, i + 3),
        Construct::Repetition => (i + 1, repetition_end(tokens, i)),
        _ => (i, i),
    }
}

/// What one step of the walk at `tokens[i]` comes to, with `depth` levels
/// of nesting to go: the index at which the walk goes on, and the state
/// there.
///
/// A marker is handed to the recognizer, and the construct that it
/// introduces decides. What the construct takes as it is must be nested no
/// deeper than `depth`: the first group that is, is an error there. An
/// error says in which construct it arose, the innermost where constructs
/// are nested. A group that no marker introduces is walked as an inner
/// scope and echoed with the echo of its inside. Every other token is
/// echoed.
pub open spec fn step_spec(
    tokens: Seq<TokenView>,
    i: int,
    later: Seq<Seq<char>>,
    st: WalkView,
    depth: nat,
) -> Result<(int, WalkView), SchemaError>
    decreases tokens, 3 * (tokens.len() - i) + 1,
{
    if i < 0 || i >= tokens.len() {
        Ok((i + 1, st))
    } else {
        match tokens[i] {
            TokenView::Group { delimiter, children, pos } => match scope_spec(
                tokens,
                i,
                later,
                st,
                depth,
            ) {
                Err(e) => Err(e),
                Ok(inner) => Ok((i + 1, grouped(st, inner, delimiter, pos))),
            },
            TokenView::Punct { ch, joint, pos } => if ch != '#' {
                Ok((i + 1, echoed(st, tokens[i])))
            } else {
                let construct = recognize_spec(tokens, i);
                let whole = taken_whole(tokens, i, construct);
                within(
                    construct,
                    match first_too_deep(tokens, whole.0, whole.1, depth) {
                        Some(deep) => Err(
                            SchemaError::new(ErrorKind::DepthExceeded, deep),
                        ),
                        None => match construct {
                            Construct::PlainBinding => plain_binding_spec(tokens, i, st),
                            Construct::TypedBinding => plain_binding_spec(tokens, i, st),
                            Construct::Repetition => repetition_spec(tokens, i, st),
                            Construct::OptionalPlainBinding => optional_ident_spec(tokens, i, st),
                            Construct::OptionalTypedBinding => optional_typed_spec(
                                tokens,
                                i,
                                later_names(later, tokens, i, depth),
                                st,
                            ),
                            Construct::OptionalBracketGroup => match scope_spec(
                                tokens,
                                i + 2,
                                later,
                                st,
                                depth,
                            ) {
                                Err(e) => Err(e),
                                Ok(inner) => closed_under_first(
                                    st,
                                    inner,
                                    children_at(tokens, i + 2),
                                    NestingView::Guarded(
                                        GuardView::Present(
                                            first_text(children_at(tokens, i + 2)),
                                        ),
                                    ),
                                    i + 3,
                                    depth,
                                ),
                            },
                            Construct::ConditionalChain => chain_spec(
                                tokens,
                                i + 2,
                                pos,
                                None,
                                later,
                                st,
                                depth,
                            ),
                            Construct::AllRequiredGroup => match scope_spec(
                                tokens,
                                i + 1,
                                later,
                                st,
                                depth,
                            ) {
                                Err(e) => Err(e),
                                Ok(inner) => closed_under_first(
                                    st,
                                    inner,
                                    children_at(tokens, i + 1),
                                    NestingView::Required(
                                        GuardView::Present(
                                            first_text(children_at(tokens, i + 1)),
                                        ),
                                    ),
                                    i + 2,
                                    depth,
                                ),
                            },
                            Construct::Documentation => documentation_spec(tokens, i, st),
                            Construct::Unknown => Err(syntax_error_at(tokens, i)),
                        },
                    },
                )
            },
            _ => Ok((i + 1, echoed(st, tokens[i]))),
        }
    }
}

/// What the walk of `tokens[i..]` from the state `st` comes to, with
/// `depth` levels of nesting to go, where `later` holds the names that the
/// sequences around this one bind behind it: step by step to the end of
/// the sequence, or the first error.
pub open spec fn walk_spec(
    tokens: Seq<TokenView>,
    i: int,
    later: Seq<Seq<char>>,
    st: WalkView,
    depth: nat,
) -> Result<WalkView, SchemaError>
    decreases tokens, 3 * (tokens.len() - i) + 2,
{
    if i < 0 || i >= tokens.len() {
        Ok(st)
    } else {
        match step_spec(tokens, i, later, st, depth) {
            Err(e) => Err(e),
            Ok((next, st2)) => if i < next <= tokens.len() {
                walk_spec(tokens, next, later, st2, depth)
            } else {
                Ok(st2)
            },
        }
    }
}

/// How many of `children` make up what is written first in them.
pub fn first_count(children: &Vec<Token>) -> (n: usize)
    ensures
        n <= children.len(),
        children.len() > 0 ==> n == first_len(tokens_view(children@), 1),
        children.len() == 0 ==> n == 0,
{
    if children.len() == 0 {
        return 0;
    }
    let ghost all = tokens_view(children@);
    let mut n: usize = 1;
    let mut more = true;
    while more && n < children.len()
        invariant
            1 <= n <= children.len(),
            all == tokens_view(children@),
            first_len(all, 1) == first_len(all, n as int),
            !more ==> first_len(all, n as int) == n,
        decreases children.len() - n + (if more { 1int } else { 0int }),
    {
        if children[n - 1].is_joint() {
            n += 1;
        } else {
            more = false;
        }
    }
    n
}

/// The text of what is written first in `children`, which is nested no
/// deeper than the compiler follows.
pub fn text_of_first(children: &Vec<Token>) -> (text: String)
    requires
        children.len() > 0 ==> shallow(
            tokens_view(children@),
            0,
            first_len(tokens_view(children@), 1),
        ),
    ensures
        text@ == first_text(tokens_view(children@)),
{
    if children.len() == 0 {
        return String::new();
    }
    let n = first_count(children);
    proof {
        lemma_part_shallow(tokens_view(children@), 0, n as int, 0, n as int);
    }
    let first = copy_range(children, 0, n);
    render(&first)
}

/// The text of what is written first in `children`, unless a group in it
/// is nested deeper than `budget`, which is no more than [`MAX_DEPTH`].
pub fn first_guard(children: &Vec<Token>, budget: usize) -> (text: Result<String, SchemaError>)
    requires
        budget <= MAX_DEPTH,
    ensures
        match text {
            Ok(t) => first_too_deep_in_first(tokens_view(children@), budget as nat) is None
                && t@ == first_text(tokens_view(children@)),
            Err(e) => first_too_deep_in_first(tokens_view(children@), budget as nat) is Some
                && e == SchemaError::new(
                ErrorKind::DepthExceeded,
                first_too_deep_in_first(tokens_view(children@), budget as nat)->Some_0,
            ),
        },
{
    let n = first_count(children);
    match too_deep(children, 0, n, budget) {
        Some(deep) => Err(SchemaError::new(ErrorKind::DepthExceeded, deep)),
        None => {
            proof {
                lemma_more_budget(
                    tokens_view(children@),
                    0,
                    n as int,
                    budget as nat,
                    MAX_DEPTH as nat,
                );
            }
            Ok(text_of_first(children))
        },
    }
}

/// The guard of a branch with the condition `text` behind branches whose
/// conditions all failed.
pub fn guard_taken(rejected: &Option<String>, text: &String) -> (guard: String)
    ensures
        guard@ == taken_guard(text_view(*rejected), text@),
{
    match rejected {
        None => text.clone(),
        Some(r) => {
            let mut guard = r.clone();
            guard.append(" && (");
            guard.append(text.as_str());
            guard.append(")");
            guard
        },
    }
}

/// What says that the branches so far, and the one with the condition
/// `text`, all failed.
pub fn guard_rejected(rejected: &Option<String>, text: &String) -> (guard: String)
    ensures
        guard@ == rejected_guard(text_view(*rejected), text@),
{
    let mut guard = match rejected {
        None => {
            let mut start = String::new();
            start.append("!(");
            start
        },
        Some(r) => {
            let mut start = r.clone();
            start.append(" && !(");
            start
        },
    };
    guard.append(text.as_str());
    guard.append(")");
    guard
}

/// What the outer walk keeps while an inner scope is walked: its echo, its
/// waiting documentation, and how many fields and names in sight the
/// table held when the scope began.
#[derive(Debug, PartialEq, Eq)]
pub struct Outer {
    pub echo: Vec<Token>,
    pub doc: Option<String>,
    pub fields_mark: usize,
    pub visible_mark: usize,
}

impl Outer {
    /// Whether this is what a walk in the state `st` keeps.
    pub open spec fn keeps(&self, st: WalkView) -> bool {
        &&& tokens_view(self.echo@) == st.echo
        &&& text_view(self.doc) == st.doc
        &&& self.fields_mark == st.table.fields.len()
        &&& self.visible_mark == st.table.visible.len()
    }
}

/// Walks the inside of the group `tokens[k]` as an inner scope of `st`.
/// Gives what the outer walk keeps, and the state at the end of the inner
/// walk, which [`close_scope`] puts together again.
pub fn walk_scope(
    tokens: &Vec<Token>,
    k: usize,
    later: &Vec<String>,
    st: Walker,
    depth: usize,
) -> (done:
    Result<(Outer, Walker), SchemaError>)
    requires
        depth <= MAX_DEPTH,
        k < tokens.len(),
    ensures
        match done {
            Ok((outer, inner)) => {
                &&& scope_spec(
                    tokens_view(tokens@),
                    k as int,
                    texts_view(later@),
                    st@,
                    depth as nat,
                ) == Ok::<WalkView, SchemaError>(inner@)
                &&& outer.keeps(st@)
                &&& outer.fields_mark <= inner.table.fields.len()
                &&& outer.visible_mark <= inner.table.visible.len()
            },
            Err(e) => scope_spec(
                tokens_view(tokens@),
                k as int,
                texts_view(later@),
                st@,
                depth as nat,
            ) == Err::<WalkView, SchemaError>(e),
        },
    decreases tokens, 3 * (tokens.len() - k),
{
    let ghost before = st@;
    let Walker { echo, table, repetitions, doc } = st;
    let outer = Outer {
        echo,
        doc,
        fields_mark: table.fields.len(),
        visible_mark: table.visible.len(),
    };
    let start = Walker { echo: Vec::new(), table, repetitions, doc: None };
    assert(start@.echo =~= Seq::empty());
    let walked = match &tokens[k] {
        Token::Group { delimiter, children, pos } => {
            if depth == 0 {
                return Err(
                    SchemaError::new(ErrorKind::DepthExceeded, *pos),
                );
            }
            let inner_later = names_later(later, tokens, k + 1, depth);
            Walker::parse(children, &inner_later, start, depth - 1)
        },
        _ => Ok(start),
    };
    match walked {
        Err(e) => Err(e),
        Ok(inner) => {
            proof {
                lemma_scope_grows(
                    tokens_view(tokens@),
                    k as int,
                    texts_view(later@),
                    before,
                    depth as nat,
                );
            }
            Ok((outer, inner))
        },
    }
}

/// Closes an inner scope as `nesting` says. Gives the state of the outer
/// walk and, beside it, what the inner walk echoed.
pub fn close_scope(outer: Outer, inner: Walker, nesting: &Nesting) -> (done: (Walker, Vec<Token>))
    requires
        outer.fields_mark <= inner.table.fields.len(),
        outer.visible_mark <= inner.table.visible.len(),
    ensures
        forall|st: WalkView| outer.keeps(st) ==> done.0@ == inner_end(st, inner@, nesting@),
        tokens_view(done.1@) == inner@.echo,
{
    let Outer { echo, doc, fields_mark, visible_mark } = outer;
    let Walker { echo: inner_echo, table: mut table, repetitions, doc: _ } = inner;
    table.merge(fields_mark, visible_mark, nesting);
    (Walker { echo, table, repetitions, doc }, inner_echo)
}

/// Walks the conditional chain whose `if` stands at `tokens[j]`.
pub fn parse_chain(
    tokens: &Vec<Token>,
    j: usize,
    marker: Position,
    rejected: Option<String>,
    later: &Vec<String>,
    st: Walker,
    depth: usize,
) -> (done:
    Result<(usize, Walker), SchemaError>)
    requires
        depth <= MAX_DEPTH,
        j <= tokens.len(),
    ensures
        step_matches(
            done,
            chain_spec(
                tokens_view(tokens@),
                j as int,
                marker,
                text_view(rejected),
                texts_view(later@),
                st@,
                depth as nat,
            ),
        ),
        done is Ok ==> j < done->Ok_0.0 <= tokens.len(),
    decreases tokens, 3 * (tokens.len() - j) + 1,
{
    let error = SchemaError::new(ErrorKind::Syntax, marker);
    if shape_at(tokens, j) != Shape::If {
        return Err(error);
    }
    let body = find(tokens, j + 1, Shape::Brace);
    if body >= tokens.len() || body == j + 1 {
        return Err(error);
    }
    match too_deep(tokens, j + 1, body, depth) {
        Some(pos) => {
            return Err(SchemaError::new(ErrorKind::DepthExceeded, pos));
        },
        None => {},
    }
    proof {
        let all = tokens_view(tokens@);
        lemma_more_budget(all, j + 1, body as int, depth as nat, MAX_DEPTH as nat);
        lemma_part_shallow(all, j + 1, body as int, j + 1, body as int);
    }
    let condition = copy_range(tokens, j + 1, body);
    let text = render(&condition);
    if !parsable(text.as_str()) {
        return Err(SchemaError::new(ErrorKind::DepthExceeded, marker));
    }
    let accepted = is_expr(text.as_str());
    let here = names_later(later, tokens, j, depth);
    match check_condition(&condition, accepted, &st.table, &here, marker) {
        Err(e) => {
            return Err(e);
        },
        Ok(_) => {},
    }
    let taken = Nesting::Guarded(Guard::When(guard_taken(&rejected, &text)));
    let otherwise = guard_rejected(&rejected, &text);
    let st1 = match walk_scope(tokens, body, later, st, depth) {
        Err(e) => {
            return Err(e);
        },
        Ok((outer, inner)) => close_scope(outer, inner, &taken).0,
    };
    if shape_at(tokens, body + 1) != Shape::Else {
        return Ok((body + 1, st1));
    }
    let after = if tokens.len() - body > 2 {
        shape_at(tokens, body + 2)
    } else {
        Shape::End
    };
    if after == Shape::If {
        parse_chain(tokens, body + 2, marker, Some(otherwise), later, st1, depth)
    } else if after == Shape::Brace {
        let last = Nesting::Guarded(Guard::When(otherwise));
        match walk_scope(tokens, body + 2, later, st1, depth) {
            Err(e) => Err(e),
            Ok((outer, inner)) => Ok((body + 3, close_scope(outer, inner, &last).0)),
        }
    } else {
        Err(error)
    }
}

/// Where the tokens end that the repetition at `tokens[i]` takes as they
/// are.
pub fn end_of_repetition(tokens: &Vec<Token>, i: usize) -> (end: usize)
    requires
        i + 2 <= tokens.len(),
    ensures
        end == repetition_end(tokens_view(tokens@), i as int),
        i + 2 <= end <= tokens.len(),
{
    let star = find(tokens, i + 2, Shape::Star);
    if star < tokens.len() {
        star
    } else {
        i + 2
    }
}

/// One step of the walk at `tokens[i]`: the index at which the walk goes
/// on, and the state there.
pub fn step(tokens: &Vec<Token>, i: usize, later: &Vec<String>, st: Walker, depth: usize) -> (done:
    Result<(usize, Walker), SchemaError>)
    requires
        depth <= MAX_DEPTH,
        i < tokens.len(),
    ensures
        step_matches(
            done,
            step_spec(tokens_view(tokens@), i as int, texts_view(later@), st@, depth as nat),
        ),
        done is Ok ==> i < done->Ok_0.0 <= tokens.len(),
    decreases tokens, 3 * (tokens.len() - i) + 1,
{
    match &tokens[i] {
        Token::Group { delimiter, children, pos } => {
            match walk_scope(tokens, i, later, st, depth) {
                Err(e) => Err(e),
                Ok((outer, inner)) => {
                    let (out, inner_echo) = close_scope(outer, inner, &Nesting::Group);
                    let Walker { mut echo, table, repetitions, doc } = out;
                    let group = Token::Group {
                        delimiter: *delimiter,
                        children: inner_echo,
                        pos: *pos,
                    };
                    let ghost earlier = tokens_view(echo@);
                    echo.push(group);
                    assert(tokens_view(echo@) =~= earlier.push(group@));
                    Ok((i + 1, Walker { echo, table, repetitions, doc }))
                },
            }
        },
        Token::Punct { ch, joint, pos } => {
            if *ch != '#' {
                let Walker { mut echo, table, repetitions, doc } = st;
                proof {
                    lemma_leaf_shallow(tokens_view(tokens@), i as int);
                }
                proof {
                lemma_leaf_shallow(tokens_view(tokens@), i as int);
            }
            let token = copy_token(&tokens[i]);
                let ghost earlier = tokens_view(echo@);
                echo.push(token);
                assert(tokens_view(echo@) =~= earlier.push(token@));
                return Ok((i + 1, Walker { echo, table, repetitions, doc }));
            }
            let construct = recognize(tokens, i);
            let (from, to) = match construct {
                Construct::TypedBinding => (i + 1, i + 2),
                Construct::Documentation => (i + 1, i + 2),
                Construct::OptionalTypedBinding => (i + 2, i + 3),
                Construct::Repetition => (i + 1, end_of_repetition(tokens, i)),
                _ => (i, i),
            };
            proof {
                if first_too_deep(
                    tokens_view(tokens@),
                    from as int,
                    to as int,
                    depth as nat,
                ) is None {
                    lemma_more_budget(
                        tokens_view(tokens@),
                        from as int,
                        to as int,
                        depth as nat,
                        MAX_DEPTH as nat,
                    );
                }
            }
            let done = match too_deep(tokens, from, to, depth) {
                Some(deep) => Err(
                    SchemaError::new(ErrorKind::DepthExceeded, deep),
                ),
                None => match construct {
                    Construct::PlainBinding => {
                        proof {
                            lemma_leaf_shallow(tokens_view(tokens@), i + 1);
                        }
                        parse_binding(tokens, i, st)
                    },
                    Construct::TypedBinding => parse_binding(tokens, i, st),
                    Construct::Repetition => parse_repetition(tokens, i, st),
                    Construct::OptionalPlainBinding => parse_optional_ident(tokens, i, st),
                    Construct::OptionalTypedBinding => {
                        let here = names_later(later, tokens, i, depth);
                        parse_optional_typed(tokens, i, &here, st)
                    },
                    Construct::OptionalBracketGroup => match &tokens[i + 2] {
                        Token::Group { delimiter, children, pos } => {
                            match walk_scope(tokens, i + 2, later, st, depth) {
                                Err(e) => Err(e),
                                Ok((outer, inner)) => match first_guard(children, depth - 1) {
                                    Err(e) => Err(e),
                                    Ok(text) => {
                                        let nesting = Nesting::Guarded(Guard::Present(text));
                                        Ok((i + 3, close_scope(outer, inner, &nesting).0))
                                    },
                                },
                            }
                        },
                        _ => Err(SchemaError::new(ErrorKind::Syntax, *pos)),
                    },
                    Construct::ConditionalChain => parse_chain(
                        tokens,
                        i + 2,
                        *pos,
                        None,
                        later,
                        st,
                        depth,
                    ),
                    Construct::AllRequiredGroup => match &tokens[i + 1] {
                        Token::Group { delimiter, children, pos } => {
                            match walk_scope(tokens, i + 1, later, st, depth) {
                                Err(e) => Err(e),
                                Ok((outer, inner)) => match first_guard(children, depth - 1) {
                                    Err(e) => Err(e),
                                    Ok(text) => {
                                        let nesting = Nesting::Required(Guard::Present(text));
                                        Ok((i + 2, close_scope(outer, inner, &nesting).0))
                                    },
                                },
                            }
                        },
                        _ => Err(SchemaError::new(ErrorKind::Syntax, *pos)),
                    },
                    Construct::Documentation => parse_documentation(tokens, i, st),
                    Construct::Unknown => Err(SchemaError::new(ErrorKind::Syntax, *pos)),
                },
            };
            match done {
                Ok(next) => Ok(next),
                Err(e) => Err(e.within(construct)),
            }
        },
        _ => {
            let Walker { mut echo, table, repetitions, doc } = st;
            proof {
                lemma_leaf_shallow(tokens_view(tokens@), i as int);
            }
            let token = copy_token(&tokens[i]);
            let ghost earlier = tokens_view(echo@);
            echo.push(token);
            assert(tokens_view(echo@) =~= earlier.push(token@));
            Ok((i + 1, Walker { echo, table, repetitions, doc }))
        },
    }
}

impl Walker {
    /// The state before the first token of a template.
    pub fn new() -> (st: Walker)
        ensures
            st@ == WalkView::initial(),
    {
        let st = Walker {
            echo: Vec::new(),
            table: BindingTable::new(),
            repetitions: Vec::new(),
            doc: None,
        };
        assert(st@.echo =~= Seq::empty());
        assert(st@.repetitions =~= Seq::empty());
        st
    }

    /// Walks `tokens` from the state `st`, with `depth` levels of nesting
    /// to go, where `later` holds the names that the sequences around this
    /// one bind behind it. Gives the state at the end of the sequence, or
    /// the first error.
    pub fn parse(tokens: &Vec<Token>, later: &Vec<String>, st: Walker, depth: usize) -> (done:
        Result<Walker, SchemaError>)
        requires
            depth <= MAX_DEPTH,
        ensures
            walk_matches(
                done,
                walk_spec(tokens_view(tokens@), 0, texts_view(later@), st@, depth as nat),
            ),
        decreases tokens, 3 * tokens.len() + 2,
    {
        let ghost all = tokens_view(tokens@);
        let ghost start = st@;
        let mut cur = st;
        let mut i: usize = 0;
        while i < tokens.len()
            invariant
                i <= tokens.len(),
                depth <= MAX_DEPTH,
                all == tokens_view(tokens@),
                start == st@,
                walk_spec(all, 0, texts_view(later@), start, depth as nat) == walk_spec(
                    all,
                    i as int,
                    texts_view(later@),
                    cur@,
                    depth as nat,
                ),
            decreases tokens.len() - i,
        {
            match step(tokens, i, later, cur, depth) {
                Err(e) => {
                    return Err(e);
                },
                Ok((next, after)) => {
                    cur = after;
                    i = next;
                },
            }
        }
        Ok(cur)
    }
}

/// A walk only adds to the table: it ends with no fewer fields and no fewer
/// names in sight than it began with.
pub proof fn lemma_walk_grows(
    tokens: Seq<TokenView>,
    i: int,
    later: Seq<Seq<char>>,
    st: WalkView,
    depth: nat,
)
    requires
        walk_spec(tokens, i, later, st, depth) is Ok,
    ensures
        st.table.fields.len() <= walk_spec(tokens, i, later, st, depth)->Ok_0.table.fields.len(),
        st.table.visible.len() <= walk_spec(
            tokens,
            i,
            later,
            st,
            depth,
        )->Ok_0.table.visible.len(),
    decreases tokens, 3 * (tokens.len() - i) + 2,
{
    if 0 <= i < tokens.len() {
        lemma_step_grows(tokens, i, later, st, depth);
        let (next, st2) = step_spec(tokens, i, later, st, depth)->Ok_0;
        if i < next <= tokens.len() {
            lemma_walk_grows(tokens, next, later, st2, depth);
        }
    }
}

/// A step only adds to the table.
pub proof fn lemma_step_grows(
    tokens: Seq<TokenView>,
    i: int,
    later: Seq<Seq<char>>,
    st: WalkView,
    depth: nat,
)
    requires
        step_spec(tokens, i, later, st, depth) is Ok,
    ensures
        st.table.fields.len() <= step_spec(
            tokens,
            i,
            later,
            st,
            depth,
        )->Ok_0.1.table.fields.len(),
        st.table.visible.len() <= step_spec(
            tokens,
            i,
            later,
            st,
            depth,
        )->Ok_0.1.table.visible.len(),
    decreases tokens, 3 * (tokens.len() - i) + 1,
{
    if 0 <= i < tokens.len() {
        match tokens[i] {
            TokenView::Group { delimiter, children, pos } => {
                lemma_scope_grows(tokens, i, later, st, depth);
            },
            TokenView::Punct { ch, joint, pos } => {
                if ch == '#' {
                    match recognize_spec(tokens, i) {
                        Construct::OptionalBracketGroup => {
                            lemma_scope_grows(tokens, i + 2, later, st, depth);
                        },
                        Construct::AllRequiredGroup => {
                            lemma_scope_grows(tokens, i + 1, later, st, depth);
                        },
                        Construct::ConditionalChain => {
                            lemma_chain_grows(tokens, i + 2, pos, None, later, st, depth);
                        },
                        _ => {},
                    }
                }
            },
            _ => {},
        }
    }
}

/// The walk of an inner scope only adds to the table, and once the scope is
/// closed, as many names are in sight as before.
pub proof fn lemma_scope_grows(
    tokens: Seq<TokenView>,
    k: int,
    later: Seq<Seq<char>>,
    st: WalkView,
    depth: nat,
)
    requires
        scope_spec(tokens, k, later, st, depth) is Ok,
    ensures
        st.table.fields.len() <= scope_spec(tokens, k, later, st, depth)->Ok_0.table.fields.len(),
        st.table.visible.len() <= scope_spec(
            tokens,
            k,
            later,
            st,
            depth,
        )->Ok_0.table.visible.len(),
        forall|nesting: NestingView|
            #![trigger inner_end(st, scope_spec(tokens, k, later, st, depth)->Ok_0, nesting)]
            {
                let out = inner_end(st, scope_spec(tokens, k, later, st, depth)->Ok_0, nesting);
                st.table.fields.len() <= out.table.fields.len() && st.table.visible.len()
                    == out.table.visible.len()
            },
    decreases tokens, 3 * (tokens.len() - k),
{
    if 0 <= k < tokens.len() {
        match tokens[k] {
            TokenView::Group { delimiter, children, pos } => {
                lemma_walk_grows(
                    children,
                    0,
                    later_names(later, tokens, k + 1, depth),
                    inner_start(st),
                    (depth - 1) as nat,
                );
            },
            _ => {},
        }
    }
}

/// A conditional chain only adds to the table.
pub proof fn lemma_chain_grows(
    tokens: Seq<TokenView>,
    j: int,
    marker: Position,
    rejected: Option<Seq<char>>,
    later: Seq<Seq<char>>,
    st: WalkView,
    depth: nat,
)
    requires
        chain_spec(tokens, j, marker, rejected, later, st, depth) is Ok,
    ensures
        st.table.fields.len() <= chain_spec(
            tokens,
            j,
            marker,
            rejected,
            later,
            st,
            depth,
        )->Ok_0.1.table.fields.len(),
        st.table.visible.len() <= chain_spec(
            tokens,
            j,
            marker,
            rejected,
            later,
            st,
            depth,
        )->Ok_0.1.table.visible.len(),
    decreases tokens, 3 * (tokens.len() - j) + 1,
{
    let body = find_shape(tokens, j + 1, Shape::Brace);
    let text = tokens_text(tokens.subrange(j + 1, body));
    lemma_scope_grows(tokens, body, later, st, depth);
    let inner = scope_spec(tokens, body, later, st, depth)->Ok_0;
    let st1 = inner_end(
        st,
        inner,
        NestingView::Guarded(GuardView::When(taken_guard(rejected, text))),
    );
    let otherwise = rejected_guard(rejected, text);
    if shape_at_spec(tokens, body + 1) == Shape::Else {
        if shape_at_spec(tokens, body + 2) == Shape::If {
            lemma_chain_grows(tokens, body + 2, marker, Some(otherwise), later, st1, depth);
        } else if shape_at_spec(tokens, body + 2) == Shape::Brace {
            lemma_scope_grows(tokens, body + 2, later, st1, depth);
        }
    }
}

} // verus!
