//! What holds of every compilation.

use vstd::prelude::*;
use crate::bindings::{
    absorbed, lemma_merged_well_formed, lemma_registered_well_formed, NestingView, TableView,
};
use crate::grammar::{default_type, find_shape, typed_parts};
use crate::names::{cited_names, declared_at, declared_in, later_names};
use crate::recognizer::{
    children_at, recognize_spec, shape_at_spec, shape_spec, Construct, Shape,
};
use crate::render::tokens_text;
use crate::syntax::parses_as_expr;
use crate::schema::{is_internal_name, FieldKindView, GuardView};
use crate::token::Position;
use crate::var::{var_spec, VarView};
use crate::compiler::{compile_matches, compile_spec, Compiled, CompiledView};
use crate::depth::{first_too_deep, lemma_too_deep_stays, may_be_parsed, MAX_DEPTH};
use crate::error::{ErrorKind, SchemaError};
use crate::names::CitationView;
use crate::schema::{emit_spec, FieldView, RepetitionView, SchemaView};
use crate::token::TokenView;
use crate::walker::{
    chain_spec, declared_spec, first_text, grouped, inner_end, inner_start, lemma_scope_grows,
    rejected_guard, repetition_end, repetition_spec, scope_spec, step_spec, taken_guard,
    walk_spec, WalkView,
};

verus! {

/// Whether no marker stands among the first `n` of `tokens`, nor in a group
/// among them, at any depth.
pub open spec fn marker_free_upto(tokens: Seq<TokenView>, n: int) -> bool
    decreases tokens, n,
{
    if n <= 0 || n > tokens.len() {
        true
    } else {
        marker_free_upto(tokens, n - 1) && match tokens[n - 1] {
            TokenView::Group { delimiter, children, pos } => marker_free_upto(
                children,
                children.len() as int,
            ),
            TokenView::Punct { ch, joint, pos } => ch != '#',
            _ => true,
        }
    }
}

/// Whether no marker stands in `tokens`, at any depth.
pub open spec fn marker_free(tokens: Seq<TokenView>) -> bool {
    marker_free_upto(tokens, tokens.len() as int)
}

/// Where no marker stands among the first `n` tokens, none stands in any of
/// them.
pub proof fn lemma_marker_free_at(tokens: Seq<TokenView>, n: int, i: int)
    requires
        0 <= i < n <= tokens.len(),
        marker_free_upto(tokens, n),
    ensures
        match tokens[i] {
            TokenView::Group { delimiter, children, pos } => marker_free(children),
            TokenView::Punct { ch, joint, pos } => ch != '#',
            _ => true,
        },
    decreases n,
{
    if i < n - 1 {
        lemma_marker_free_at(tokens, n - 1, i);
    }
}

/// Where no group of `tokens[..n]` is nested deeper than `depth`, a group
/// among them has a level to go, and none inside it is nested deeper than
/// what is left then.
pub proof fn lemma_within_depth_at(tokens: Seq<TokenView>, n: int, i: int, depth: nat)
    requires
        0 <= i < n <= tokens.len(),
        first_too_deep(tokens, 0, n, depth) is None,
    ensures
        within_depth_at(tokens, i, depth),
    decreases n,
{
    if i < n - 1 {
        lemma_within_depth_at(tokens, n - 1, i, depth);
    }
}

/// Whether the token `tokens[i]` is within `depth`: a group has a level to
/// go, and nothing inside it is nested deeper than what is left then.
pub open spec fn within_depth_at(tokens: Seq<TokenView>, i: int, depth: nat) -> bool {
    match tokens[i] {
        TokenView::Group { delimiter, children, pos } => depth > 0 && first_too_deep(
            children,
            0,
            children.len() as int,
            (depth - 1) as nat,
        ) is None,
        _ => true,
    }
}

/// The step at a token that is no marker, that holds none, and that is
/// within `depth`, echoes the token and leaves the rest of the state as it
/// is.
pub proof fn lemma_step_without_markers(
    tokens: Seq<TokenView>,
    i: int,
    later: Seq<Seq<char>>,
    st: WalkView,
    depth: nat,
)
    requires
        marker_free(tokens),
        0 <= i < tokens.len(),
        within_depth_at(tokens, i, depth),
    ensures
        step_spec(tokens, i, later, st, depth) == Ok::<(int, WalkView), SchemaError>(
            (i + 1, WalkView { echo: st.echo.push(tokens[i]), ..st }),
        ),
    decreases tokens, 0nat,
{
    lemma_marker_free_at(tokens, tokens.len() as int, i);
    let after = WalkView { echo: st.echo.push(tokens[i]), ..st };
    match tokens[i] {
        TokenView::Group { delimiter, children, pos } => {
            let inner_later = later_names(later, tokens, i + 1, depth);
            lemma_walk_without_markers(
                children,
                0,
                inner_later,
                inner_start(st),
                (depth - 1) as nat,
            );
            let inner = scope_spec(tokens, i, later, st, depth)->Ok_0;
            assert(inner.echo =~= children);
            assert(inner.table == st.table);
            let out = grouped(st, inner, delimiter, pos);
            assert(out.table.fields =~= st.table.fields);
            assert(out.table.visible =~= st.table.visible);
            assert(out == after);
        },
        _ => {},
    }
}

/// The walk of tokens that hold no marker, and no group nested deeper than
/// `depth`, echoes them and leaves the rest of the state as it is.
pub proof fn lemma_walk_without_markers(
    tokens: Seq<TokenView>,
    i: int,
    later: Seq<Seq<char>>,
    st: WalkView,
    depth: nat,
)
    requires
        marker_free(tokens),
        first_too_deep(tokens, 0, tokens.len() as int, depth) is None,
        0 <= i <= tokens.len(),
    ensures
        walk_spec(tokens, i, later, st, depth) == Ok::<WalkView, SchemaError>(
            WalkView { echo: st.echo + tokens.skip(i), ..st },
        ),
    decreases tokens, tokens.len() - i + 1,
{
    if i >= tokens.len() {
        assert(st.echo + tokens.skip(i) =~= st.echo);
    } else {
        lemma_within_depth_at(tokens, tokens.len() as int, i, depth);
        let after = WalkView { echo: st.echo.push(tokens[i]), ..st };
        lemma_step_without_markers(tokens, i, later, st, depth);
        lemma_walk_without_markers(tokens, i + 1, later, after, depth);
        assert(after.echo + tokens.skip(i + 1) =~= st.echo + tokens.skip(i));
    }
}

/// A template that holds no marker, and no group nested deeper than the
/// compiler follows, compiles to the schema without a field, and what is
/// echoed is the template, token for token.
pub proof fn law_template_without_markers_is_echoed(tokens: Seq<TokenView>)
    requires
        marker_free(tokens),
        first_too_deep(tokens, 0, tokens.len() as int, MAX_DEPTH as nat) is None,
    ensures
        compile_spec(tokens) == Ok::<CompiledView, SchemaError>(
            CompiledView {
                schema: SchemaView { fields: Seq::empty(), internal_fields: Seq::empty() },
                echo: tokens,
                repetitions: Seq::empty(),
            },
        ),
{
    lemma_walk_without_markers(tokens, 0, Seq::empty(), WalkView::initial(), MAX_DEPTH as nat);
    assert(Seq::<TokenView>::empty() + tokens.skip(0) =~= tokens);
    let none = Seq::<FieldView>::empty();
    assert(none.filter(|f: FieldView| !is_internal_name(f.name)) =~= none);
    assert(none.filter(|f: FieldView| is_internal_name(f.name)) =~= none);
}

/// A template in which a group is nested deeper than the compiler follows,
/// and that holds no marker, does not compile: the error is at the first
/// such group.
pub proof fn law_template_nested_too_deep_is_rejected(tokens: Seq<TokenView>)
    requires
        marker_free(tokens),
        first_too_deep(tokens, 0, tokens.len() as int, MAX_DEPTH as nat) is Some,
    ensures
        compile_spec(tokens) == Err::<CompiledView, SchemaError>(
            SchemaError::new(
                ErrorKind::DepthExceeded,
                first_too_deep(tokens, 0, tokens.len() as int, MAX_DEPTH as nat)->Some_0,
            ),
        ),
{
    lemma_walk_too_deep(tokens, 0, Seq::empty(), WalkView::initial(), MAX_DEPTH as nat);
}

/// The step at a group that holds no marker and is not within `depth`
/// fails: at the group where no level is left, else at the first group
/// inside it that is nested too deep.
pub proof fn lemma_step_too_deep(
    tokens: Seq<TokenView>,
    i: int,
    later: Seq<Seq<char>>,
    st: WalkView,
    depth: nat,
)
    requires
        marker_free(tokens),
        0 <= i < tokens.len(),
        tokens[i] is Group,
        !within_depth_at(tokens, i, depth),
    ensures
        step_spec(tokens, i, later, st, depth) == Err::<(int, WalkView), SchemaError>(
            SchemaError::new(
                ErrorKind::DepthExceeded,
                if depth == 0 {
                    tokens[i].position()
                } else {
                    first_too_deep(
                        tokens[i]->children,
                        0,
                        tokens[i]->children.len() as int,
                        (depth - 1) as nat,
                    )->Some_0
                },
            ),
        ),
    decreases tokens, 0nat,
{
    lemma_marker_free_at(tokens, tokens.len() as int, i);
    match tokens[i] {
        TokenView::Group { delimiter, children, pos } => {
            if depth > 0 {
                lemma_walk_too_deep(
                    children,
                    0,
                    later_names(later, tokens, i + 1, depth),
                    inner_start(st),
                    (depth - 1) as nat,
                );
            }
        },
        _ => {},
    }
}

/// The walk of tokens that hold no marker, from a place before which no
/// group is nested too deep, fails at the first group that is.
pub proof fn lemma_walk_too_deep(
    tokens: Seq<TokenView>,
    i: int,
    later: Seq<Seq<char>>,
    st: WalkView,
    depth: nat,
)
    requires
        marker_free(tokens),
        0 <= i <= tokens.len(),
        first_too_deep(tokens, 0, i, depth) is None,
        first_too_deep(tokens, 0, tokens.len() as int, depth) is Some,
    ensures
        walk_spec(tokens, i, later, st, depth) == Err::<WalkView, SchemaError>(
            SchemaError::new(
                ErrorKind::DepthExceeded,
                first_too_deep(tokens, 0, tokens.len() as int, depth)->Some_0,
            ),
        ),
    decreases tokens, tokens.len() - i + 1,
{
    if first_too_deep(tokens, 0, i + 1, depth) is Some {
        lemma_too_deep_stays(tokens, 0, i + 1, tokens.len() as int, depth);
        lemma_step_too_deep(tokens, i, later, st, depth);
    } else {
        lemma_within_depth_at(tokens, i + 1, i, depth);
        let after = WalkView { echo: st.echo.push(tokens[i]), ..st };
        lemma_step_without_markers(tokens, i, later, st, depth);
        lemma_walk_too_deep(tokens, i + 1, later, after, depth);
    }
}

/// Two compilations of one template come to the same: both fail with the
/// same error, or both give the same fields in the same order, with the
/// same kinds, guards and documentation, the same echo and the same
/// repetitions.
pub proof fn law_compilation_is_deterministic(
    tokens: Seq<TokenView>,
    first: Result<Compiled, SchemaError>,
    second: Result<Compiled, SchemaError>,
)
    requires
        compile_matches(first, compile_spec(tokens)),
        compile_matches(second, compile_spec(tokens)),
    ensures
        match (first, second) {
            (Ok(a), Ok(b)) => a@ == b@,
            (Err(a), Err(b)) => a == b,
            _ => false,
        },
{
}

/// A guard that passes the check cites only names that are in sight.
pub proof fn law_checked_guard_cites_names_in_sight(
    table: TableView,
    cited: Seq<CitationView>,
    later: Seq<Seq<char>>,
)
    requires
        table.guard_checked(cited, later) is Ok,
    ensures
        forall|k: int| 0 <= k < cited.len() ==> table.sees(#[trigger] cited[k].name),
{
    assert forall|k: int| 0 <= k < cited.len() implies table.sees(#[trigger] cited[k].name) by {
        lemma_seen_from(table, cited, 0, k);
    }
}

/// Where none of `cited[from..]` is out of sight, `cited[k]` is in sight
/// for `k` behind `from`.
pub proof fn lemma_seen_from(table: TableView, cited: Seq<CitationView>, from: int, k: int)
    requires
        0 <= from <= k < cited.len(),
        table.first_unseen(cited, from) is None,
    ensures
        table.sees(cited[k].name),
    decreases k - from,
{
    if from < k {
        lemma_seen_from(table, cited, from + 1, k);
    }
}

/// A field that leaves a conditional branch, an optional bracket group or
/// an all-required group is optional in the scope around it, whatever it
/// was declared as; it keeps its name, its type and its documentation; and
/// the fields that were bound before the scope began stay as they are.
pub proof fn law_merge_weakens(
    table: TableView,
    fields_mark: int,
    visible_mark: int,
    nesting: NestingView,
)
    requires
        0 <= fields_mark <= table.fields.len(),
        0 <= visible_mark <= table.visible.len(),
    ensures
        ({
            let merged = table.merged(fields_mark, visible_mark, nesting);
            &&& merged.fields.len() == table.fields.len()
            &&& forall|k: int| 0 <= k < fields_mark ==> merged.fields[k] == table.fields[k]
            &&& forall|k: int|
                fields_mark <= k < table.fields.len() ==> {
                    &&& (#[trigger] merged.fields[k]).name == table.fields[k].name
                    &&& merged.fields[k].kind.type_text() == table.fields[k].kind.type_text()
                    &&& merged.fields[k].doc == table.fields[k].doc
                    &&& merged.fields[k].internal == table.fields[k].internal
                    &&& !(nesting is Group) ==> merged.fields[k].kind is Optional
                    &&& nesting is Group ==> merged.fields[k] == table.fields[k]
                }
            &&& merged.visible == table.visible.take(visible_mark)
        }),
{
    let merged = table.merged(fields_mark, visible_mark, nesting);
    assert forall|k: int| fields_mark <= k < table.fields.len() implies {
        &&& (#[trigger] merged.fields[k]).name == table.fields[k].name
        &&& merged.fields[k].kind.type_text() == table.fields[k].kind.type_text()
        &&& merged.fields[k].doc == table.fields[k].doc
        &&& merged.fields[k].internal == table.fields[k].internal
        &&& !(nesting is Group) ==> merged.fields[k].kind is Optional
        &&& nesting is Group ==> merged.fields[k] == table.fields[k]
    } by {
        assert(merged.fields[k] == absorbed(table.fields[k], nesting));
    }
}

/// Whether no two of `fields` have one name.
pub open spec fn distinct_names(fields: Seq<FieldView>) -> bool {
    forall|i: int, j: int|
        0 <= i < j < fields.len() ==> (#[trigger] fields[i]).name != (#[trigger] fields[j]).name
}

/// What a selection keeps of fields with distinct names are fields of them
/// that meet the selection, and their names are distinct.
pub proof fn lemma_selection_keeps_distinct(
    fields: Seq<FieldView>,
    keep: spec_fn(FieldView) -> bool,
)
    requires
        distinct_names(fields),
    ensures
        distinct_names(fields.filter(keep)),
        forall|k: int|
            0 <= k < fields.filter(keep).len() ==> keep(#[trigger] fields.filter(keep)[k])
                && fields.contains(fields.filter(keep)[k]),
    decreases fields.len(),
{
    reveal(Seq::filter);
    if fields.len() > 0 {
        let head = fields.drop_last();
        lemma_selection_keeps_distinct(head, keep);
        let kept = head.filter(keep);
        assert forall|k: int| 0 <= k < kept.len() implies fields.contains(#[trigger] kept[k])
            && kept[k].name != fields.last().name by {
            let i = choose|i: int| 0 <= i < head.len() && head[i] == kept[k];
            assert(fields[i] == kept[k]);
        }
        if keep(fields.last()) {
            assert(fields[fields.len() - 1] == fields.last());
        }
    }
}

/// A step of the walk leaves a table in order in order.
pub proof fn lemma_step_keeps_order(
    tokens: Seq<TokenView>,
    i: int,
    later: Seq<Seq<char>>,
    st: WalkView,
    depth: nat,
)
    requires
        st.table.well_formed(),
        step_spec(tokens, i, later, st, depth) is Ok,
    ensures
        step_spec(tokens, i, later, st, depth)->Ok_0.1.table.well_formed(),
    decreases tokens, 3 * (tokens.len() - i) + 1,
{
    if 0 <= i < tokens.len() {
        match tokens[i] {
            TokenView::Group { delimiter, children, pos } => {
                lemma_scope_keeps_order(tokens, i, later, st, NestingView::Group, depth);
            },
            TokenView::Punct { ch, joint, pos } => {
                if ch == '#' {
                    match recognize_spec(tokens, i) {
                        Construct::PlainBinding | Construct::TypedBinding => {
                            let var = var_spec(tokens, i)->Ok_0;
                            lemma_declared_keeps_order(
                                st,
                                var.ident(),
                                FieldKindView::Plain(var.typ()),
                                None,
                                var.position(),
                            );
                        },
                        Construct::Repetition => {
                            lemma_repetition_keeps_order(tokens, i, st);
                        },
                        Construct::OptionalPlainBinding => {
                            lemma_declared_keeps_order(
                                st,
                                tokens[i + 2].text(),
                                FieldKindView::Optional(default_type()),
                                None,
                                tokens[i + 2].position(),
                            );
                        },
                        Construct::OptionalTypedBinding => {
                            let parts = typed_parts(children_at(tokens, i + 2), true)->Ok_0;
                            lemma_declared_keeps_order(
                                st,
                                parts.name,
                                FieldKindView::Optional(tokens_text(parts.ty)),
                                match parts.guard {
                                    None => None,
                                    Some(g) => Some(GuardView::When(tokens_text(g))),
                                },
                                parts.name_pos,
                            );
                        },
                        Construct::OptionalBracketGroup => {
                            lemma_scope_keeps_order(
                                tokens,
                                i + 2,
                                later,
                                st,
                                NestingView::Guarded(
                                    GuardView::Present(first_text(children_at(tokens, i + 2))),
                                ),
                                depth,
                            );
                        },
                        Construct::AllRequiredGroup => {
                            lemma_scope_keeps_order(
                                tokens,
                                i + 1,
                                later,
                                st,
                                NestingView::Required(
                                    GuardView::Present(first_text(children_at(tokens, i + 1))),
                                ),
                                depth,
                            );
                        },
                        Construct::ConditionalChain => {
                            lemma_chain_keeps_order(tokens, i + 2, pos, None, later, st, depth);
                        },
                        _ => {},
                    }
                }
            },
            _ => {},
        }
    }
}

/// The declaration of a field leaves a table in order in order.
pub proof fn lemma_declared_keeps_order(
    st: WalkView,
    name: Seq<char>,
    kind: FieldKindView,
    guard: Option<GuardView>,
    pos: Position,
)
    requires
        st.table.well_formed(),
        declared_spec(st, name, kind, guard, pos) is Ok,
    ensures
        declared_spec(st, name, kind, guard, pos)->Ok_0.table.well_formed(),
{
    lemma_registered_well_formed(
        st.table,
        FieldView { name, kind, guard, internal: is_internal_name(name), doc: st.doc },
    );
}

/// A repetition leaves a table in order in order.
pub proof fn lemma_repetition_keeps_order(tokens: Seq<TokenView>, i: int, st: WalkView)
    requires
        st.table.well_formed(),
        repetition_spec(tokens, i, st) is Ok,
    ensures
        repetition_spec(tokens, i, st)->Ok_0.1.table.well_formed(),
{
    let body = children_at(tokens, i + 1);
    let at = find_shape(body, 0, Shape::Marker);
    let var = var_spec(body, at)->Ok_0;
    let field = FieldView {
        name: var.ident(),
        kind: FieldKindView::Repeated(var.typ()),
        guard: None,
        internal: is_internal_name(var.ident()),
        doc: st.doc,
    };
    lemma_registered_well_formed(st.table, field);
}

/// The walk of an inner scope, closed as `nesting` says, leaves a table in
/// order in order.
pub proof fn lemma_scope_keeps_order(
    tokens: Seq<TokenView>,
    k: int,
    later: Seq<Seq<char>>,
    st: WalkView,
    nesting: NestingView,
    depth: nat,
)
    requires
        st.table.well_formed(),
        scope_spec(tokens, k, later, st, depth) is Ok,
    ensures
        inner_end(st, scope_spec(tokens, k, later, st, depth)->Ok_0, nesting).table.well_formed(),
    decreases tokens, 3 * (tokens.len() - k),
{
    lemma_scope_grows(tokens, k, later, st, depth);
    if 0 <= k < tokens.len() {
        match tokens[k] {
            TokenView::Group { delimiter, children, pos } => {
                lemma_walk_keeps_order(
                    children,
                    0,
                    later_names(later, tokens, k + 1, depth),
                    inner_start(st),
                    (depth - 1) as nat,
                );
            },
            _ => {},
        }
    }
    let inner = scope_spec(tokens, k, later, st, depth)->Ok_0;
    lemma_merged_well_formed(
        inner.table,
        st.table.fields.len() as int,
        st.table.visible.len() as int,
        nesting,
    );
}

/// A conditional chain leaves a table in order in order.
pub proof fn lemma_chain_keeps_order(
    tokens: Seq<TokenView>,
    j: int,
    marker: Position,
    rejected: Option<Seq<char>>,
    later: Seq<Seq<char>>,
    st: WalkView,
    depth: nat,
)
    requires
        st.table.well_formed(),
        chain_spec(tokens, j, marker, rejected, later, st, depth) is Ok,
    ensures
        chain_spec(tokens, j, marker, rejected, later, st, depth)->Ok_0.1.table.well_formed(),
    decreases tokens, 3 * (tokens.len() - j) + 1,
{
    let body = find_shape(tokens, j + 1, Shape::Brace);
    let text = tokens_text(tokens.subrange(j + 1, body));
    let taken = NestingView::Guarded(GuardView::When(taken_guard(rejected, text)));
    lemma_scope_keeps_order(tokens, body, later, st, taken, depth);
    let st1 = inner_end(st, scope_spec(tokens, body, later, st, depth)->Ok_0, taken);
    let otherwise = rejected_guard(rejected, text);
    if shape_at_spec(tokens, body + 1) == Shape::Else {
        if shape_at_spec(tokens, body + 2) == Shape::If {
            lemma_chain_keeps_order(tokens, body + 2, marker, Some(otherwise), later, st1, depth);
        } else if shape_at_spec(tokens, body + 2) == Shape::Brace {
            lemma_scope_keeps_order(
                tokens,
                body + 2,
                later,
                st1,
                NestingView::Guarded(GuardView::When(otherwise)),
                depth,
            );
        }
    }
}

/// A walk leaves a table in order in order.
pub proof fn lemma_walk_keeps_order(
    tokens: Seq<TokenView>,
    i: int,
    later: Seq<Seq<char>>,
    st: WalkView,
    depth: nat,
)
    requires
        st.table.well_formed(),
        walk_spec(tokens, i, later, st, depth) is Ok,
    ensures
        walk_spec(tokens, i, later, st, depth)->Ok_0.table.well_formed(),
    decreases tokens, 3 * (tokens.len() - i) + 2,
{
    if 0 <= i < tokens.len() {
        lemma_step_keeps_order(tokens, i, later, st, depth);
        let (next, st2) = step_spec(tokens, i, later, st, depth)->Ok_0;
        if i < next <= tokens.len() {
            lemma_walk_keeps_order(tokens, next, later, st2, depth);
        }
    }
}

/// No two fields of a compiled schema have one name, whichever of the two
/// lists they stand in; the public list holds the fields whose names do
/// not begin with `_`, the internal list those whose names do.
pub proof fn law_schema_names_are_distinct(tokens: Seq<TokenView>)
    requires
        compile_spec(tokens) is Ok,
    ensures
        ({
            let schema = compile_spec(tokens)->Ok_0.schema;
            &&& distinct_names(schema.fields)
            &&& distinct_names(schema.internal_fields)
            &&& forall|i: int, j: int|
                0 <= i < schema.fields.len() && 0 <= j < schema.internal_fields.len() ==> (
                #[trigger] schema.fields[i]).name != (#[trigger] schema.internal_fields[j]).name
            &&& forall|i: int|
                0 <= i < schema.fields.len() ==> !is_internal_name(
                    (#[trigger] schema.fields[i]).name,
                ) && !schema.fields[i].internal
            &&& forall|j: int|
                0 <= j < schema.internal_fields.len() ==> is_internal_name(
                    (#[trigger] schema.internal_fields[j]).name,
                ) && schema.internal_fields[j].internal
        }),
{
    let start = WalkView::initial();
    lemma_walk_keeps_order(tokens, 0, Seq::empty(), start, MAX_DEPTH as nat);
    let fields = walk_spec(tokens, 0, Seq::empty(), start, MAX_DEPTH as nat)->Ok_0.table.fields;
    let public = |f: FieldView| !is_internal_name(f.name);
    let hidden = |f: FieldView| is_internal_name(f.name);
    lemma_selection_keeps_distinct(fields, public);
    lemma_selection_keeps_distinct(fields, hidden);
    let schema = compile_spec(tokens)->Ok_0.schema;
    assert(schema.fields == fields.filter(public));
    assert(schema.internal_fields == fields.filter(hidden));
    assert forall|i: int| 0 <= i < schema.fields.len() implies !is_internal_name(
        (#[trigger] schema.fields[i]).name,
    ) && !schema.fields[i].internal by {
        let k = choose|k: int| 0 <= k < fields.len() && fields[k] == schema.fields[i];
        assert(fields[k].internal == is_internal_name(fields[k].name));
    }
    assert forall|j: int| 0 <= j < schema.internal_fields.len() implies is_internal_name(
        (#[trigger] schema.internal_fields[j]).name,
    ) && schema.internal_fields[j].internal by {
        let k = choose|k: int| 0 <= k < fields.len() && fields[k] == schema.internal_fields[j];
        assert(fields[k].internal == is_internal_name(fields[k].name));
    }
}

/// The schema that holds the one field `field`, in the list that its name
/// puts it in.
pub open spec fn schema_of_one(field: FieldView) -> SchemaView {
    if is_internal_name(field.name) {
        SchemaView { fields: Seq::empty(), internal_fields: seq![field] }
    } else {
        SchemaView { fields: seq![field], internal_fields: Seq::empty() }
    }
}

/// The selection of the public and of the internal fields among one field.
pub proof fn lemma_emit_one(field: FieldView)
    ensures
        emit_spec(seq![field]) == schema_of_one(field),
{
    reveal_with_fuel(Seq::filter, 2);
    let one = seq![field];
    assert(one.drop_last() =~= Seq::<FieldView>::empty());
    assert(one.last() == field);
    let public = |f: FieldView| !is_internal_name(f.name);
    let hidden = |f: FieldView| is_internal_name(f.name);
    assert(one.drop_last().filter(public) =~= Seq::<FieldView>::empty());
    assert(one.drop_last().filter(hidden) =~= Seq::<FieldView>::empty());
    assert(one.filter(public) =~= if is_internal_name(field.name) {
        Seq::<FieldView>::empty()
    } else {
        seq![field]
    });
    assert(one.filter(hidden) =~= if is_internal_name(field.name) {
        seq![field]
    } else {
        Seq::<FieldView>::empty()
    });
}

/// The template that is a marker and a word that can name a field compiles
/// to the schema of exactly one field: it has that name, is plain and of
/// the default type, and has neither guard nor documentation. Nothing is
/// echoed.
pub proof fn law_plain_binding_declares_one_field(marker: TokenView, word: TokenView)
    requires
        marker.is_punct('#'),
        word is Ident,
        shape_spec(word) == Shape::Name,
    ensures
        compile_spec(seq![marker, word]) == Ok::<CompiledView, SchemaError>(
            CompiledView {
                schema: schema_of_one(
                    FieldView {
                        name: word.text(),
                        kind: FieldKindView::Plain(default_type()),
                        guard: None,
                        internal: is_internal_name(word.text()),
                        doc: None,
                    },
                ),
                echo: Seq::empty(),
                repetitions: Seq::empty(),
            },
        ),
{
    let tokens = seq![marker, word];
    let field = FieldView {
        name: word.text(),
        kind: FieldKindView::Plain(default_type()),
        guard: None,
        internal: is_internal_name(word.text()),
        doc: None,
    };
    let start = WalkView::initial();
    let depth = MAX_DEPTH as nat;
    let later = Seq::<Seq<char>>::empty();
    assert(recognize_spec(tokens, 0) == Construct::PlainBinding);
    assert(var_spec(tokens, 0) == Ok::<VarView, SchemaError>(
        VarView::IdentVar { ident: word.text(), pos: word.position() },
    ));
    assert(!start.table.binds(word.text()));
    let after = WalkView { table: start.table.registered(field), ..start };
    assert(first_too_deep(tokens, 0, 0, depth) is None);
    assert(step_spec(tokens, 0, later, start, depth) == Ok::<(int, WalkView), SchemaError>(
        (2, after),
    ));
    assert(walk_spec(tokens, 2, later, after, depth) == Ok::<WalkView, SchemaError>(after));
    assert(walk_spec(tokens, 0, later, start, depth) == Ok::<WalkView, SchemaError>(after));
    assert(after.table.fields =~= seq![field]);
    lemma_emit_one(field);
}

/// Where a name has been declared, a second declaration of it in the same
/// scope is a duplicate, at the place of the second.
pub proof fn law_second_declaration_is_duplicate(
    st: WalkView,
    name: Seq<char>,
    kind: FieldKindView,
    guard: Option<GuardView>,
    first: Position,
    other_kind: FieldKindView,
    other_guard: Option<GuardView>,
    second: Position,
)
    requires
        declared_spec(st, name, kind, guard, first) is Ok,
    ensures
        declared_spec(
            declared_spec(st, name, kind, guard, first)->Ok_0,
            name,
            other_kind,
            other_guard,
            second,
        ) == Err::<WalkView, SchemaError>(SchemaError::new(ErrorKind::DuplicateField, second)),
{
    let after = declared_spec(st, name, kind, guard, first)->Ok_0;
    assert(after.table.fields[st.table.fields.len() as int].name == name);
}

/// The template that binds one name twice by `#name #name` does not
/// compile: the second binding is a duplicate, at the second name.
pub proof fn law_repeated_plain_binding_is_duplicate(
    marker: TokenView,
    word: TokenView,
    again: TokenView,
    second: TokenView,
)
    requires
        marker.is_punct('#'),
        again.is_punct('#'),
        word is Ident,
        second is Ident,
        shape_spec(word) == Shape::Name,
        second.text() == word.text(),
    ensures
        compile_spec(seq![marker, word, again, second]) == Err::<CompiledView, SchemaError>(
            SchemaError {
                kind: ErrorKind::DuplicateField,
                construct: Some(Construct::PlainBinding),
                pos: second.position(),
            },
        ),
{
    let tokens = seq![marker, word, again, second];
    let field = FieldView {
        name: word.text(),
        kind: FieldKindView::Plain(default_type()),
        guard: None,
        internal: is_internal_name(word.text()),
        doc: None,
    };
    let start = WalkView::initial();
    let depth = MAX_DEPTH as nat;
    let later = Seq::<Seq<char>>::empty();
    assert(shape_spec(second) == Shape::Name);
    assert(recognize_spec(tokens, 0) == Construct::PlainBinding);
    assert(recognize_spec(tokens, 2) == Construct::PlainBinding);
    assert(!start.table.binds(word.text()));
    let after = WalkView { table: start.table.registered(field), ..start };
    assert(first_too_deep(tokens, 0, 0, depth) is None);
    assert(first_too_deep(tokens, 2, 2, depth) is None);
    assert(step_spec(tokens, 0, later, start, depth) == Ok::<(int, WalkView), SchemaError>(
        (2, after),
    ));
    assert(after.table.fields[0].name == word.text());
    assert(after.table.binds(second.text()));
    let error = SchemaError {
        kind: ErrorKind::DuplicateField,
        construct: Some(Construct::PlainBinding),
        pos: second.position(),
    };
    assert(step_spec(tokens, 2, later, after, depth) == Err::<(int, WalkView), SchemaError>(
        error,
    ));
    assert(walk_spec(tokens, 2, later, after, depth) == Err::<WalkView, SchemaError>(error));
    assert(walk_spec(tokens, 0, later, start, depth) == Err::<WalkView, SchemaError>(error));
}

/// Where `at` is the first index at or behind `from` with a token of the
/// shape `shape`, [`find_shape`] finds it.
pub proof fn lemma_find_first(tokens: Seq<TokenView>, from: int, shape: Shape, at: int)
    requires
        0 <= from <= at < tokens.len(),
        forall|k: int| from <= k < at ==> shape_at_spec(tokens, k) != shape,
        shape_at_spec(tokens, at) == shape,
    ensures
        find_shape(tokens, from, shape) == at,
    decreases at - from,
{
    if from < at {
        lemma_find_first(tokens, from + 1, shape, at);
    }
}

/// Where no token at or behind `from` has the shape `shape`, [`find_shape`]
/// finds the end.
pub proof fn lemma_find_none(tokens: Seq<TokenView>, from: int, shape: Shape)
    requires
        0 <= from <= tokens.len(),
        forall|k: int| from <= k < tokens.len() ==> shape_at_spec(tokens, k) != shape,
    ensures
        find_shape(tokens, from, shape) == tokens.len(),
    decreases tokens.len() - from,
{
    if from < tokens.len() {
        lemma_find_none(tokens, from + 1, shape);
    }
}

/// The template that is a marker and a brace group with a well-written
/// typed binding compiles to the schema of exactly one field: it has the
/// declared name, is plain and of the declared type, and has neither
/// guard nor documentation.
pub proof fn law_typed_binding_declares_one_field(marker: TokenView, group: TokenView)
    requires
        marker.is_punct('#'),
        shape_spec(group) == Shape::Brace,
        typed_parts(group->children, false) is Ok,
        first_too_deep(seq![marker, group], 1, 2, MAX_DEPTH as nat) is None,
    ensures
        compile_spec(seq![marker, group]) == Ok::<CompiledView, SchemaError>(
            CompiledView {
                schema: schema_of_one(
                    FieldView {
                        name: typed_parts(group->children, false)->Ok_0.name,
                        kind: FieldKindView::Plain(
                            tokens_text(typed_parts(group->children, false)->Ok_0.ty),
                        ),
                        guard: None,
                        internal: is_internal_name(
                            typed_parts(group->children, false)->Ok_0.name,
                        ),
                        doc: None,
                    },
                ),
                echo: Seq::empty(),
                repetitions: Seq::empty(),
            },
        ),
{
    let tokens = seq![marker, group];
    let parts = typed_parts(group->children, false)->Ok_0;
    let field = FieldView {
        name: parts.name,
        kind: FieldKindView::Plain(tokens_text(parts.ty)),
        guard: None,
        internal: is_internal_name(parts.name),
        doc: None,
    };
    let start = WalkView::initial();
    let depth = MAX_DEPTH as nat;
    let later = Seq::<Seq<char>>::empty();
    assert(children_at(tokens, 1) == group->children);
    assert(recognize_spec(tokens, 0) == Construct::TypedBinding);
    assert(!start.table.binds(parts.name));
    let after = WalkView { table: start.table.registered(field), ..start };
    assert(step_spec(tokens, 0, later, start, depth) == Ok::<(int, WalkView), SchemaError>(
        (2, after),
    ));
    assert(walk_spec(tokens, 2, later, after, depth) == Ok::<WalkView, SchemaError>(after));
    assert(walk_spec(tokens, 0, later, start, depth) == Ok::<WalkView, SchemaError>(after));
    assert(after.table.fields =~= seq![field]);
    lemma_emit_one(field);
}

/// The template of one repetition: a marker, a round group, the tokens of
/// the separator, and `*`.
pub open spec fn repetition_template(
    marker: TokenView,
    group: TokenView,
    separator: Seq<TokenView>,
    star: TokenView,
) -> Seq<TokenView> {
    seq![marker, group] + separator + seq![star]
}

/// The template of one repetition whose group holds, at its top level, one
/// variable and no other marker, compiles to the schema of exactly one
/// field: it has the variable's name and is repeated, of the variable's
/// type. The repetition is noted with the tokens before the variable, the
/// variable, the tokens behind it, and the separator, each as it stands.
pub proof fn law_repetition_declares_one_repeated_field(
    marker: TokenView,
    group: TokenView,
    at: int,
    separator: Seq<TokenView>,
    star: TokenView,
)
    requires
        marker.is_punct('#'),
        star.is_punct('*'),
        shape_spec(group) == Shape::Paren,
        0 <= at < group->children.len(),
        forall|k: int|
            0 <= k < group->children.len() ==> ((#[trigger] group->children[k]).is_punct('#')
                <==> k == at),
        var_spec(group->children, at) is Ok,
        forall|k: int| 0 <= k < separator.len() ==> !(#[trigger] separator[k]).is_punct('*'),
        first_too_deep(
            repetition_template(marker, group, separator, star),
            1,
            2 + separator.len() as int,
            MAX_DEPTH as nat,
        ) is None,
    ensures
        ({
            let var = var_spec(group->children, at)->Ok_0;
            let variable = FieldView {
                name: var.ident(),
                kind: FieldKindView::Plain(var.typ()),
                guard: None,
                internal: is_internal_name(var.ident()),
                doc: None,
            };
            compile_spec(repetition_template(marker, group, separator, star)) == Ok::<
                CompiledView,
                SchemaError,
            >(
                CompiledView {
                    schema: schema_of_one(
                        FieldView { kind: FieldKindView::Repeated(var.typ()), ..variable },
                    ),
                    echo: Seq::empty(),
                    repetitions: seq![
                        RepetitionView {
                            prefix: group->children.take(at),
                            variable,
                            suffix: group->children.skip(at + 2),
                            separator,
                        },
                    ],
                },
            )
        }),
{
    let tokens = repetition_template(marker, group, separator, star);
    let body = group->children;
    let var = var_spec(body, at)->Ok_0;
    let variable = FieldView {
        name: var.ident(),
        kind: FieldKindView::Plain(var.typ()),
        guard: None,
        internal: is_internal_name(var.ident()),
        doc: None,
    };
    let field = FieldView { kind: FieldKindView::Repeated(var.typ()), ..variable };
    let start = WalkView::initial();
    let depth = MAX_DEPTH as nat;
    let later = Seq::<Seq<char>>::empty();
    let end: int = 2 + separator.len() as int;
    assert(tokens.len() == end + 1);
    assert(tokens[0] == marker && tokens[1] == group && tokens[end] == star);
    assert forall|k: int| 2 <= k < end implies shape_at_spec(tokens, k) != Shape::Star by {
        assert(tokens[k] == separator[k - 2]);
    }
    lemma_find_first(tokens, 2, Shape::Star, end);
    assert forall|k: int| 0 <= k < at implies shape_at_spec(body, k) != Shape::Marker by {
        assert(!body[k].is_punct('#'));
    }
    assert(body[at].is_punct('#'));
    lemma_find_first(body, 0, Shape::Marker, at);
    assert forall|k: int| at + 2 <= k < body.len() implies shape_at_spec(body, k)
        != Shape::Marker by {
        assert(!body[k].is_punct('#'));
    }
    assert(at + 2 <= body.len());
    lemma_find_none(body, at + 2, Shape::Marker);
    assert(children_at(tokens, 1) == body);
    assert(recognize_spec(tokens, 0) == Construct::Repetition);
    assert(repetition_end(tokens, 0) == end);
    assert(tokens.subrange(2, end) =~= separator);
    let rep = RepetitionView {
        prefix: body.take(at),
        variable,
        suffix: body.skip(at + 2),
        separator,
    };
    assert(!start.table.binds(var.ident()));
    let after = WalkView {
        table: start.table.registered(field),
        repetitions: start.repetitions.push(rep),
        ..start
    };
    assert(repetition_spec(tokens, 0, start) == Ok::<(int, WalkView), SchemaError>(
        (end + 1, after),
    ));
    assert(step_spec(tokens, 0, later, start, depth) == Ok::<(int, WalkView), SchemaError>(
        (end + 1, after),
    ));
    assert(walk_spec(tokens, end + 1, later, after, depth) == Ok::<WalkView, SchemaError>(after));
    assert(walk_spec(tokens, 0, later, start, depth) == Ok::<WalkView, SchemaError>(after));
    assert(after.table.fields =~= seq![field]);
    assert(after.repetitions =~= seq![rep]);
    lemma_emit_one(field);
}

/// The template of one repetition whose group holds a further marker
/// behind its variable does not compile: the error is at that marker.
pub proof fn law_second_binding_in_repetition_is_rejected(
    marker: TokenView,
    group: TokenView,
    at: int,
    other: int,
    separator: Seq<TokenView>,
    star: TokenView,
)
    requires
        marker.is_punct('#'),
        shape_spec(group) == Shape::Paren,
        0 <= at < other < group->children.len(),
        at + 2 <= other,
        forall|k: int|
            0 <= k < other ==> ((#[trigger] group->children[k]).is_punct('#') <==> k == at),
        group->children[other].is_punct('#'),
        var_spec(group->children, at) is Ok,
        first_too_deep(
            repetition_template(marker, group, separator, star),
            1,
            repetition_end(repetition_template(marker, group, separator, star), 0),
            MAX_DEPTH as nat,
        ) is None,
    ensures
        compile_spec(repetition_template(marker, group, separator, star)) == Err::<
            CompiledView,
            SchemaError,
        >(
            SchemaError {
                kind: ErrorKind::MultipleBindingInRepetition,
                construct: Some(Construct::Repetition),
                pos: group->children[other].position(),
            },
        ),
{
    let tokens = repetition_template(marker, group, separator, star);
    let body = group->children;
    let start = WalkView::initial();
    let depth = MAX_DEPTH as nat;
    let later = Seq::<Seq<char>>::empty();
    assert(tokens[0] == marker && tokens[1] == group);
    assert forall|k: int| 0 <= k < at implies shape_at_spec(body, k) != Shape::Marker by {
        assert(!body[k].is_punct('#'));
    }
    assert(body[at].is_punct('#'));
    lemma_find_first(body, 0, Shape::Marker, at);
    assert forall|k: int| at + 2 <= k < other implies shape_at_spec(body, k)
        != Shape::Marker by {
        assert(!body[k].is_punct('#'));
    }
    lemma_find_first(body, at + 2, Shape::Marker, other);
    assert(children_at(tokens, 1) == body);
    assert(recognize_spec(tokens, 0) == Construct::Repetition);
    let error = SchemaError::new(
        ErrorKind::MultipleBindingInRepetition,
        body[other].position(),
    );
    assert(repetition_spec(tokens, 0, start) == Err::<(int, WalkView), SchemaError>(error));
    assert(step_spec(tokens, 0, later, start, depth) == Err::<(int, WalkView), SchemaError>(
        error.tagged(Construct::Repetition),
    ));
    assert(walk_spec(tokens, 0, later, start, depth) == Err::<WalkView, SchemaError>(
        error.tagged(Construct::Repetition),
    ));
}

/// Where every name that is cited is in sight, no citation is out of sight.
pub proof fn lemma_all_seen(table: TableView, cited: Seq<CitationView>, from: int)
    requires
        0 <= from <= cited.len(),
        forall|k: int| from <= k < cited.len() ==> table.sees((#[trigger] cited[k]).name),
    ensures
        table.first_unseen(cited, from) is None,
    decreases cited.len() - from,
{
    if from < cited.len() {
        lemma_all_seen(table, cited, from + 1);
    }
}

/// The template `#?{a: T} #? if condition { #{b: U} }`, whose condition
/// cites no name but `a`, compiles without error to the schema of two
/// fields: `a`, optional and of the type `T`, and `b`, optional and of the
/// type `U`, under the condition as its guard. Each token has a position
/// of its own.
pub proof fn law_conditional_body_field_is_optional(tokens: Seq<TokenView>)
    requires
        tokens.len() >= 8,
        tokens[0].is_punct('#'),
        tokens[1].is_punct('?'),
        shape_spec(tokens[2]) == Shape::Brace,
        typed_parts(tokens[2]->children, true) is Ok,
        typed_parts(tokens[2]->children, true)->Ok_0.guard is None,
        tokens[3].is_punct('#'),
        tokens[4].is_punct('?'),
        shape_spec(tokens[5]) == Shape::If,
        forall|k: int|
            6 <= k < tokens.len() - 1 ==> shape_spec(#[trigger] tokens[k]) != Shape::Brace,
        may_be_parsed(tokens_text(tokens.subrange(6, tokens.len() - 1))),
        parses_as_expr(tokens_text(tokens.subrange(6, tokens.len() - 1))),
        forall|k: int|
            0 <= k < cited_names(tokens.subrange(6, tokens.len() - 1)).len() ==> (
            #[trigger] cited_names(tokens.subrange(6, tokens.len() - 1))[k]).name == typed_parts(
                tokens[2]->children,
                true,
            )->Ok_0.name,
        shape_spec(tokens.last()) == Shape::Brace,
        tokens.last()->children.len() == 2,
        tokens.last()->children[0].is_punct('#'),
        shape_spec(tokens.last()->children[1]) == Shape::Brace,
        typed_parts(tokens.last()->children[1]->children, false) is Ok,
        typed_parts(tokens.last()->children[1]->children, false)->Ok_0.name != typed_parts(
            tokens[2]->children,
            true,
        )->Ok_0.name,
        first_too_deep(tokens, 0, tokens.len() as int, MAX_DEPTH as nat) is None,
    ensures
        ({
            let a = typed_parts(tokens[2]->children, true)->Ok_0;
            let b = typed_parts(tokens.last()->children[1]->children, false)->Ok_0;
            compile_spec(tokens) == Ok::<CompiledView, SchemaError>(
                CompiledView {
                    schema: emit_spec(
                        seq![
                            FieldView {
                                name: a.name,
                                kind: FieldKindView::Optional(tokens_text(a.ty)),
                                guard: None,
                                internal: is_internal_name(a.name),
                                doc: None,
                            },
                            FieldView {
                                name: b.name,
                                kind: FieldKindView::Optional(tokens_text(b.ty)),
                                guard: Some(
                                    GuardView::When(
                                        tokens_text(tokens.subrange(6, tokens.len() - 1)),
                                    ),
                                ),
                                internal: is_internal_name(b.name),
                                doc: None,
                            },
                        ],
                    ),
                    echo: Seq::empty(),
                    repetitions: Seq::empty(),
                },
            )
        }),
{
    let at: int = tokens.len() - 1;
    let first = tokens[2];
    let body = tokens[at];
    let children = body->children;
    let inner = children[1];
    let condition = tokens.subrange(6, at);
    let a = typed_parts(first->children, true)->Ok_0;
    let b = typed_parts(inner->children, false)->Ok_0;
    let fa = FieldView {
        name: a.name,
        kind: FieldKindView::Optional(tokens_text(a.ty)),
        guard: None,
        internal: is_internal_name(a.name),
        doc: None,
    };
    let fb_plain = FieldView {
        name: b.name,
        kind: FieldKindView::Plain(tokens_text(b.ty)),
        guard: None,
        internal: is_internal_name(b.name),
        doc: None,
    };
    let fb = FieldView {
        kind: FieldKindView::Optional(tokens_text(b.ty)),
        guard: Some(GuardView::When(tokens_text(condition))),
        ..fb_plain
    };
    let start = WalkView::initial();
    let depth = MAX_DEPTH as nat;
    let later = Seq::<Seq<char>>::empty();
    assert(tokens.last() == body);
    assert forall|k: int| 0 <= k <= at implies first_too_deep(tokens, 0, k, depth) is None by {
        if first_too_deep(tokens, 0, k, depth) is Some {
            lemma_too_deep_stays(tokens, 0, k, at + 1, depth);
        }
    }
    lemma_range_within_depth(tokens, 2, 3, depth);
    lemma_range_within_depth(tokens, 6, at, depth);
    // The first binding.
    assert(children_at(tokens, 2) == first->children);
    assert(recognize_spec(tokens, 0) == Construct::OptionalTypedBinding);
    assert(!start.table.binds(a.name));
    let st_a = WalkView { table: start.table.registered(fa), ..start };
    assert(step_spec(tokens, 0, later, start, depth) == Ok::<(int, WalkView), SchemaError>(
        (3, st_a),
    ));
    // The conditional.
    assert(recognize_spec(tokens, 3) == Construct::ConditionalChain);
    assert forall|k: int| 6 <= k < at implies shape_at_spec(tokens, k) != Shape::Brace by {
        assert(shape_spec(tokens[k]) != Shape::Brace);
    }
    lemma_find_first(tokens, 6, Shape::Brace, at);
    assert(st_a.table.visible[0] == a.name);
    assert forall|k: int| 0 <= k < cited_names(condition).len() implies st_a.table.sees(
        (#[trigger] cited_names(condition)[k]).name,
    ) by {
        assert(st_a.table.visible[0] == cited_names(condition)[k].name);
    }
    lemma_all_seen(st_a.table, cited_names(condition), 0);
    // The body.
    let inner_later = later_names(later, tokens, at + 1, depth);
    let inner_start_state = inner_start(st_a);
    lemma_within_depth_at(tokens, at + 1, at, depth);
    lemma_range_within_depth(children, 1, 2, (depth - 1) as nat);
    assert(children_at(children, 1) == inner->children);
    assert(recognize_spec(children, 0) == Construct::TypedBinding);
    assert(st_a.table.fields =~= seq![fa]);
    assert(!inner_start_state.table.binds(b.name));
    let st_b = WalkView {
        table: inner_start_state.table.registered(fb_plain),
        ..inner_start_state
    };
    assert(step_spec(children, 0, inner_later, inner_start_state, (depth - 1) as nat) == Ok::<
        (int, WalkView),
        SchemaError,
    >((2, st_b)));
    assert(walk_spec(children, 2, inner_later, st_b, (depth - 1) as nat) == Ok::<
        WalkView,
        SchemaError,
    >(st_b));
    assert(walk_spec(children, 0, inner_later, inner_start_state, (depth - 1) as nat) == Ok::<
        WalkView,
        SchemaError,
    >(st_b));
    assert(scope_spec(tokens, at, later, st_a, depth) == Ok::<WalkView, SchemaError>(st_b));
    let nesting = NestingView::Guarded(GuardView::When(tokens_text(condition)));
    let st1 = inner_end(st_a, st_b, nesting);
    assert(st_b.table.fields =~= seq![fa, fb_plain]);
    assert(st1.table.fields =~= seq![fa, fb]);
    assert(chain_spec(tokens, 5, tokens[3].position(), None, later, st_a, depth) == Ok::<
        (int, WalkView),
        SchemaError,
    >((at + 1, st1)));
    assert(step_spec(tokens, 3, later, st_a, depth) == Ok::<(int, WalkView), SchemaError>(
        (at + 1, st1),
    ));
    assert(walk_spec(tokens, at + 1, later, st1, depth) == Ok::<WalkView, SchemaError>(st1));
    assert(walk_spec(tokens, 3, later, st_a, depth) == Ok::<WalkView, SchemaError>(st1));
    assert(walk_spec(tokens, 0, later, start, depth) == Ok::<WalkView, SchemaError>(st1));
}

/// Where no group of `tokens[..to]` is nested deeper than `depth`, none of
/// `tokens[from..to]` is.
pub proof fn lemma_range_within_depth(tokens: Seq<TokenView>, from: int, to: int, depth: nat)
    requires
        0 <= from <= to <= tokens.len(),
        first_too_deep(tokens, 0, to, depth) is None,
    ensures
        first_too_deep(tokens, from, to, depth) is None,
    decreases to,
{
    if from < to {
        if first_too_deep(tokens, 0, to - 1, depth) is Some {
            lemma_too_deep_stays(tokens, 0, to - 1, to, depth);
        }
        lemma_range_within_depth(tokens, from, to - 1, depth);
    }
}

/// A name that the construct at `tokens[k]` binds is among the names that
/// `tokens[from..to]` declares, for `k` in that range.
pub proof fn lemma_declared_is_found(tokens: Seq<TokenView>, from: int, to: int, depth: nat, k: int)
    requires
        0 <= from <= k < to <= tokens.len(),
        declared_at(tokens, k) is Some,
    ensures
        declared_in(tokens, from, to, depth).contains(declared_at(tokens, k)->Some_0),
    decreases to,
{
    let name = declared_at(tokens, k)->Some_0;
    let head = declared_in(tokens, from, to - 1, depth);
    let own: Seq<Seq<char>> = match declared_at(tokens, to - 1) {
        Some(n) => seq![n],
        None => Seq::empty(),
    };
    let below: Seq<Seq<char>> = match tokens[to - 1] {
        TokenView::Group { delimiter, children, pos } => if depth > 0 {
            declared_in(children, 0, children.len() as int, (depth - 1) as nat)
        } else {
            Seq::empty()
        },
        _ => Seq::empty(),
    };
    let all = declared_in(tokens, from, to, depth);
    assert(all == head + own + below);
    if k == to - 1 {
        assert(all[head.len() as int] == name);
    } else {
        lemma_declared_is_found(tokens, from, to - 1, depth, k);
        let i = choose|i: int| 0 <= i < head.len() && head[i] == name;
        assert(all[i] == name);
    }
}

/// A template that begins with a conditional whose condition first cites a
/// name that is bound only behind the conditional does not compile: the
/// citation is a forward reference, at its place.
pub proof fn law_guard_before_binding_is_forward_reference(tokens: Seq<TokenView>, k: int)
    requires
        tokens.len() > 3,
        tokens[0].is_punct('#'),
        tokens[1].is_punct('?'),
        shape_spec(tokens[2]) == Shape::If,
        3 < find_shape(tokens, 3, Shape::Brace) < tokens.len(),
        first_too_deep(tokens, 3, find_shape(tokens, 3, Shape::Brace), MAX_DEPTH as nat) is None,
        may_be_parsed(tokens_text(tokens.subrange(3, find_shape(tokens, 3, Shape::Brace)))),
        parses_as_expr(tokens_text(tokens.subrange(3, find_shape(tokens, 3, Shape::Brace)))),
        cited_names(tokens.subrange(3, find_shape(tokens, 3, Shape::Brace))).len() > 0,
        find_shape(tokens, 3, Shape::Brace) < k < tokens.len(),
        declared_at(tokens, k) == Some(
            cited_names(tokens.subrange(3, find_shape(tokens, 3, Shape::Brace)))[0].name,
        ),
    ensures
        compile_spec(tokens) == Err::<CompiledView, SchemaError>(
            SchemaError {
                kind: ErrorKind::ForwardReference,
                construct: Some(Construct::ConditionalChain),
                pos: cited_names(tokens.subrange(3, find_shape(tokens, 3, Shape::Brace)))[0].pos,
            },
        ),
{
    let body = find_shape(tokens, 3, Shape::Brace);
    let condition = tokens.subrange(3, body);
    let cited = cited_names(condition);
    let start = WalkView::initial();
    let depth = MAX_DEPTH as nat;
    let later = Seq::<Seq<char>>::empty();
    assert(recognize_spec(tokens, 0) == Construct::ConditionalChain);
    assert(first_too_deep(tokens, 0, 0, depth) is None);
    assert(!start.table.sees(cited[0].name));
    assert(start.table.first_unseen(cited, 0) == Some(cited[0]));
    lemma_declared_is_found(tokens, 2, tokens.len() as int, depth, k);
    let names = later_names(later, tokens, 2, depth);
    let found = declared_in(tokens, 2, tokens.len() as int, depth);
    assert(names =~= found);
    let error = SchemaError::new(ErrorKind::ForwardReference, cited[0].pos);
    assert(start.table.guard_checked(cited, names) == Err::<(), SchemaError>(error));
    assert(chain_spec(tokens, 2, tokens[0].position(), None, later, start, depth) == Err::<
        (int, WalkView),
        SchemaError,
    >(error));
    assert(step_spec(tokens, 0, later, start, depth) == Err::<(int, WalkView), SchemaError>(
        error.tagged(Construct::ConditionalChain),
    ));
    assert(walk_spec(tokens, 0, later, start, depth) == Err::<WalkView, SchemaError>(
        error.tagged(Construct::ConditionalChain),
    ));
}

} // verus!
