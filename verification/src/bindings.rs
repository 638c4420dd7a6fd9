//! The binding table: the fields of the active scope chain in the order of
//! their declaration, and the names that a guard may cite.

use vstd::prelude::*;
use crate::error::{ErrorKind, SchemaError};
use crate::names::{has_text, texts_view, Citation, CitationView, citations_view};
use crate::schema::{
    fields_view, is_internal_name, FieldDecl, FieldKind, FieldView, Guard, GuardView,
};
use crate::token::Position;

verus! {

/// How a scope's fields enter the scope around it.
#[derive(Debug, PartialEq, Eq)]
pub enum Nesting {
    /// A plain group: the fields enter as they are.
    Group,
    /// A conditional branch or an optional bracket group: the fields become
    /// optional, and one that has no guard of its own takes the scope's.
    Guarded(Guard),
    /// An all-required group: the fields become optional, and one that was
    /// not optional by itself takes the scope's guard.
    Required(Guard),
}

/// The mathematical value of a [`Nesting`].
pub enum NestingView {
    Group,
    Guarded(GuardView),
    Required(GuardView),
}

impl View for Nesting {
    type V = NestingView;

    open spec fn view(&self) -> NestingView {
        match self {
            Nesting::Group => NestingView::Group,
            Nesting::Guarded(g) => NestingView::Guarded(g@),
            Nesting::Required(g) => NestingView::Required(g@),
        }
    }
}

/// The field `field` as the scope around its own takes it in.
pub open spec fn absorbed(field: FieldView, nesting: NestingView) -> FieldView {
    match nesting {
        NestingView::Group => field,
        NestingView::Guarded(g) => FieldView {
            kind: field.kind.weakened(),
            guard: if field.guard is None {
                Some(g)
            } else {
                field.guard
            },
            ..field
        },
        NestingView::Required(g) => FieldView {
            kind: field.kind.weakened(),
            guard: if field.guard is None && !(field.kind is Optional) {
                Some(g)
            } else {
                field.guard
            },
            ..field
        },
    }
}

/// The fields of the scope chain and the names in sight.
///
/// `fields` holds every field that is bound in the scope at hand or in a
/// scope around it, those first, each scope's in the order of declaration;
/// what a finished inner scope has handed up stands among its parent's.
/// `visible` holds the names that a guard may cite: those declared in the
/// scope at hand or in one around it, and none that came up from within.
#[derive(Debug, PartialEq, Eq)]
pub struct BindingTable {
    pub fields: Vec<FieldDecl>,
    pub visible: Vec<String>,
}

/// The mathematical value of a [`BindingTable`].
pub struct TableView {
    pub fields: Seq<FieldView>,
    pub visible: Seq<Seq<char>>,
}

impl View for BindingTable {
    type V = TableView;

    open spec fn view(&self) -> TableView {
        TableView { fields: fields_view(self.fields@), visible: texts_view(self.visible@) }
    }
}

impl TableView {
    /// The table without a field.
    pub open spec fn empty() -> TableView {
        TableView { fields: Seq::empty(), visible: Seq::empty() }
    }

    /// Whether a field of this name is bound anywhere in the scope chain.
    pub open spec fn binds(self, name: Seq<char>) -> bool {
        exists|i: int| 0 <= i < self.fields.len() && (#[trigger] self.fields[i]).name == name
    }

    /// Whether a guard may cite this name.
    pub open spec fn sees(self, name: Seq<char>) -> bool {
        self.visible.contains(name)
    }

    /// The table with `field` declared in the scope at hand.
    pub open spec fn registered(self, field: FieldView) -> TableView {
        TableView { fields: self.fields.push(field), visible: self.visible.push(field.name) }
    }

    /// The table after the scope that began at the marks has been closed:
    /// its fields stay, in their order, as the scope around it takes them
    /// in, and the names declared in it are out of sight.
    pub open spec fn merged(
        self,
        fields_mark: int,
        visible_mark: int,
        nesting: NestingView,
    ) -> TableView {
        TableView {
            fields: self.fields.take(fields_mark) + self.fields.skip(fields_mark).map_values(
                |f: FieldView| absorbed(f, nesting),
            ),
            visible: self.visible.take(visible_mark),
        }
    }

    /// Whether the table is in order: no two fields have one name, a field
    /// is marked internal exactly where its name says so, and every name
    /// in sight is the name of a field.
    pub open spec fn well_formed(self) -> bool {
        &&& forall|i: int, j: int|
            0 <= i < j < self.fields.len() ==> (#[trigger] self.fields[i]).name != (
            #[trigger] self.fields[j]).name
        &&& forall|i: int|
            0 <= i < self.fields.len() ==> (#[trigger] self.fields[i]).internal
                == is_internal_name(self.fields[i].name)
        &&& forall|k: int| 0 <= k < self.visible.len() ==> self.binds(#[trigger] self.visible[k])
    }

    /// The first of `cited[from..]` whose name is not in sight.
    pub open spec fn first_unseen(self, cited: Seq<CitationView>, from: int) -> Option<CitationView>
        decreases cited.len() - from,
    {
        if from < 0 || from >= cited.len() {
            None
        } else if !self.sees(cited[from].name) {
            Some(cited[from])
        } else {
            self.first_unseen(cited, from + 1)
        }
    }

    /// What the check of a guard that cites `cited` comes to, where `later`
    /// holds the names that are bound later: the first cited name that is
    /// not in sight is an error at the place of the citation, a forward
    /// reference if the name is bound later, an undeclared one if not.
    pub open spec fn guard_checked(
        self,
        cited: Seq<CitationView>,
        later: Seq<Seq<char>>,
    ) -> Result<(), SchemaError> {
        match self.first_unseen(cited, 0) {
            None => Ok(()),
            Some(c) => Err(
                SchemaError {
                    kind: if later.contains(c.name) {
                        ErrorKind::ForwardReference
                    } else {
                        ErrorKind::UndeclaredGuardReference
                    }, construct: None,
                    pos: c.pos,
                },
            ),
        }
    }
}

/// A table in order stays in order when a field is declared whose name it
/// does not bind yet and that is marked internal as its name says.
pub proof fn lemma_registered_well_formed(table: TableView, field: FieldView)
    requires
        table.well_formed(),
        !table.binds(field.name),
        field.internal == is_internal_name(field.name),
    ensures
        table.registered(field).well_formed(),
{
    let next = table.registered(field);
    assert forall|k: int| 0 <= k < next.visible.len() implies next.binds(
        #[trigger] next.visible[k],
    ) by {
        if k < table.visible.len() {
            let i = choose|i: int|
                0 <= i < table.fields.len() && (#[trigger] table.fields[i]).name
                    == table.visible[k];
            assert(next.fields[i].name == next.visible[k]);
        } else {
            assert(next.fields[table.fields.len() as int].name == next.visible[k]);
        }
    }
}

/// A table in order stays in order when a scope is closed.
pub proof fn lemma_merged_well_formed(
    table: TableView,
    fields_mark: int,
    visible_mark: int,
    nesting: NestingView,
)
    requires
        table.well_formed(),
        0 <= fields_mark <= table.fields.len(),
        0 <= visible_mark <= table.visible.len(),
    ensures
        table.merged(fields_mark, visible_mark, nesting).well_formed(),
{
    let next = table.merged(fields_mark, visible_mark, nesting);
    assert forall|i: int| 0 <= i < next.fields.len() implies (#[trigger] next.fields[i]).name
        == table.fields[i].name && next.fields[i].internal == table.fields[i].internal by {
        if i >= fields_mark {
        }
    }
    assert forall|k: int| 0 <= k < next.visible.len() implies next.binds(
        #[trigger] next.visible[k],
    ) by {
        let i = choose|i: int|
            0 <= i < table.fields.len() && (#[trigger] table.fields[i]).name == table.visible[k];
        assert(next.fields[i].name == next.visible[k]);
    }
}

/// The field `field` as the scope around its own takes it in.
pub fn absorb(field: &FieldDecl, nesting: &Nesting) -> (out: FieldDecl)
    ensures
        out@ == absorbed(field@, nesting@),
{
    match nesting {
        Nesting::Group => field.duplicate(),
        Nesting::Guarded(g) => {
            let guard = match &field.guard {
                Some(own) => Some(own.duplicate()),
                None => Some(g.duplicate()),
            };
            FieldDecl {
                name: field.name.clone(),
                kind: field.kind.weakened(),
                guard,
                internal: field.internal,
                doc: match &field.doc {
                    Some(d) => Some(d.clone()),
                    None => None,
                },
            }
        },
        Nesting::Required(g) => {
            let optional = match &field.kind {
                FieldKind::Optional(_) => true,
                _ => false,
            };
            let guard = match &field.guard {
                Some(own) => Some(own.duplicate()),
                None => if optional {
                    None
                } else {
                    Some(g.duplicate())
                },
            };
            FieldDecl {
                name: field.name.clone(),
                kind: field.kind.weakened(),
                guard,
                internal: field.internal,
                doc: match &field.doc {
                    Some(d) => Some(d.clone()),
                    None => None,
                },
            }
        },
    }
}

impl BindingTable {
    /// The table without a field.
    pub fn new() -> (table: BindingTable)
        ensures
            table@ == TableView::empty(),
    {
        let table = BindingTable { fields: Vec::new(), visible: Vec::new() };
        assert(table@.fields =~= Seq::empty());
        assert(table@.visible =~= Seq::empty());
        table
    }

    /// Whether a field of this name is bound anywhere in the scope chain.
    pub fn binds(&self, name: &String) -> (bound: bool)
        ensures
            bound == self@.binds(name@),
    {
        let mut i: usize = 0;
        while i < self.fields.len()
            invariant
                i <= self.fields.len(),
                forall|k: int| 0 <= k < i ==> (#[trigger] self@.fields[k]).name != name@,
            decreases self.fields.len() - i,
        {
            if self.fields[i].name == *name {
                assert(self@.fields[i as int].name == name@);
                return true;
            }
            i += 1;
        }
        false
    }

    /// Declares `field` in the scope at hand. A name that is already bound
    /// anywhere in the scope chain is a duplicate: the table stays as it
    /// is, and the error carries `pos`.
    pub fn register(&mut self, field: FieldDecl, pos: Position) -> (done: Result<(), SchemaError>)
        ensures
            match done {
                Ok(_) => !old(self)@.binds(field@.name) && final(self)@ == old(self)@.registered(
                    field@,
                ),
                Err(e) => old(self)@.binds(field@.name) && final(self)@ == old(self)@ && e == (
                SchemaError::new(ErrorKind::DuplicateField, pos)),
            },
    {
        if self.binds(&field.name) {
            return Err(SchemaError::new(ErrorKind::DuplicateField, pos));
        }
        let ghost before = self@;
        let ghost value = field@;
        self.visible.push(field.name.clone());
        self.fields.push(field);
        assert(self@.fields =~= before.fields.push(value));
        assert(self@.visible =~= before.visible.push(value.name));
        Ok(())
    }

    /// Checks a guard that cites `cited`, where `later` holds the names that
    /// are bound later. Every cited name has to be in sight; the first that
    /// is not gives the error.
    pub fn validate_guard(&self, cited: &Vec<Citation>, later: &Vec<String>) -> (done: Result<
        (),
        SchemaError,
    >)
        ensures
            done == self@.guard_checked(citations_view(cited@), texts_view(later@)),
    {
        let ghost all = citations_view(cited@);
        let mut i: usize = 0;
        while i < cited.len()
            invariant
                i <= cited.len(),
                all == citations_view(cited@),
                self@.first_unseen(all, 0) == self@.first_unseen(all, i as int),
            decreases cited.len() - i,
        {
            if !has_text(&self.visible, &cited[i].name) {
                let kind = if has_text(later, &cited[i].name) {
                    ErrorKind::ForwardReference
                } else {
                    ErrorKind::UndeclaredGuardReference
                };
                return Err(SchemaError::new(kind, cited[i].pos));
            }
            i += 1;
        }
        Ok(())
    }

    /// Closes the scope that began when the table held `fields_mark` fields
    /// and `visible_mark` names in sight.
    pub fn merge(&mut self, fields_mark: usize, visible_mark: usize, nesting: &Nesting)
        requires
            fields_mark <= old(self).fields.len(),
            visible_mark <= old(self).visible.len(),
        ensures
            final(self)@ == old(self)@.merged(fields_mark as int, visible_mark as int, nesting@),
    {
        let ghost before = self@;
        let ghost goal = before.merged(fields_mark as int, visible_mark as int, nesting@);
        let tail = self.fields.split_off(fields_mark);
        self.visible.truncate(visible_mark);
        let mut i: usize = 0;
        while i < tail.len()
            invariant
                i <= tail.len(),
                fields_mark + tail.len() == before.fields.len(),
                fields_view(tail@) == before.fields.skip(fields_mark as int),
                self@.visible == goal.visible,
                goal == before.merged(fields_mark as int, visible_mark as int, nesting@),
                self@.fields.len() == fields_mark + i,
                forall|k: int| 0 <= k < fields_mark + i ==> self@.fields[k] == goal.fields[k],
            decreases tail.len() - i,
        {
            let field = absorb(&tail[i], nesting);
            self.fields.push(field);
            i += 1;
        }
        assert(self@.fields =~= goal.fields);
    }
}

} // verus!
