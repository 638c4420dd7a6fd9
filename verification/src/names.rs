//! The names that a run of tokens cites, and the names that it declares.

use vstd::prelude::*;
use crate::depth::{all_shallow, MAX_DEPTH};
use crate::recognizer::{
    children_at, recognize, recognize_spec, shape_at, shape_at_spec, shape_of, shape_spec,
    Construct, Shape,
};
use crate::token::{Position, Token, TokenView, tokens_view};

verus! {

/// A name that a guard cites, with the position of the citing word.
#[derive(Clone, Debug, PartialEq, Eq)]
pub struct Citation {
    pub name: String,
    pub pos: Position,
}

/// The mathematical value of a [`Citation`].
pub struct CitationView {
    pub name: Seq<char>,
    pub pos: Position,
}

impl View for Citation {
    type V = CitationView;

    open spec fn view(&self) -> CitationView {
        CitationView { name: self.name@, pos: self.pos }
    }
}

/// The values of a run of citations, in order.
pub open spec fn citations_view(cited: Seq<Citation>) -> Seq<CitationView> {
    cited.map_values(|c: Citation| c@)
}

/// The values of a run of texts, in order.
pub open spec fn texts_view(texts: Seq<String>) -> Seq<Seq<char>> {
    texts.map_values(|t: String| t@)
}

/// Whether `::` ends at `tokens[i]`: a `:` that is joined to the next token,
/// and a `:`.
pub open spec fn path_separator_ends_at(tokens: Seq<TokenView>, i: int) -> bool {
    &&& 1 <= i < tokens.len()
    &&& tokens[i].is_punct(':')
    &&& tokens[i - 1].is_punct(':')
    &&& tokens[i - 1].is_joint()
}

/// Whether the word at `tokens[i]` cites a field: it can name one, it is no
/// member and no later segment of a path (neither `.` nor `::` stands
/// before it), and it neither heads a path, nor names a field of a
/// literal, nor is called (neither `:` nor a round group follows).
pub open spec fn cites_at(tokens: Seq<TokenView>, i: int) -> bool {
    &&& 0 <= i < tokens.len()
    &&& shape_spec(tokens[i]) == Shape::Name
    &&& !(i > 0 && tokens[i - 1].is_punct('.'))
    &&& !path_separator_ends_at(tokens, i - 1)
    &&& !(i + 1 < tokens.len() && (tokens[i + 1].is_punct(':') || shape_spec(tokens[i + 1])
        == Shape::Paren))
}

/// The citations in `tokens[..n]`, groups entered, in the order of the text.
pub open spec fn cited_upto(tokens: Seq<TokenView>, n: int) -> Seq<CitationView>
    decreases tokens, n,
{
    if n <= 0 || n > tokens.len() {
        Seq::empty()
    } else {
        let k = n - 1;
        cited_upto(tokens, k) + (match tokens[k] {
            TokenView::Group { delimiter, children, pos } => cited_upto(
                children,
                children.len() as int,
            ),
            _ => if cites_at(tokens, k) {
                seq![CitationView { name: tokens[k].text(), pos: tokens[k].position() }]
            } else {
                Seq::empty()
            },
        })
    }
}

/// Every name that the expression `tokens` cites, in the order of the text.
pub open spec fn cited_names(tokens: Seq<TokenView>) -> Seq<CitationView> {
    cited_upto(tokens, tokens.len() as int)
}

/// Whether the tokens inside a brace group begin a typed binding: a name,
/// then `:` or `as`.
pub open spec fn typed_head(children: Seq<TokenView>) -> bool {
    shape_at_spec(children, 0) == Shape::Name && (shape_at_spec(children, 1) == Shape::Colon
        || shape_at_spec(children, 1) == Shape::As)
}

/// The name that the construct at `tokens[k]` binds by itself, where
/// `tokens[k]` is a marker that introduces a binding.
pub open spec fn declared_at(tokens: Seq<TokenView>, k: int) -> Option<Seq<char>> {
    if shape_at_spec(tokens, k) != Shape::Marker {
        None
    } else {
        match recognize_spec(tokens, k) {
            Construct::PlainBinding => Some(tokens[k + 1].text()),
            Construct::TypedBinding => Some(children_at(tokens, k + 1)[0].text()),
            Construct::OptionalPlainBinding => Some(tokens[k + 2].text()),
            Construct::OptionalTypedBinding => if typed_head(children_at(tokens, k + 2)) {
                Some(children_at(tokens, k + 2)[0].text())
            } else {
                None
            },
            _ => None,
        }
    }
}

/// The names that `tokens[from..to]` declares, in the order of the text.
/// Groups are entered as far as `depth` levels down.
pub open spec fn declared_in(tokens: Seq<TokenView>, from: int, to: int, depth: nat) -> Seq<
    Seq<char>,
>
    decreases tokens, to,
{
    if to <= from || from < 0 || to > tokens.len() {
        Seq::empty()
    } else {
        let k = to - 1;
        declared_in(tokens, from, k, depth) + (match declared_at(tokens, k) {
            Some(name) => seq![name],
            None => Seq::empty(),
        }) + (match tokens[k] {
            TokenView::Group { delimiter, children, pos } => if depth > 0 {
                declared_in(children, 0, children.len() as int, (depth - 1) as nat)
            } else {
                Seq::empty()
            },
            _ => Seq::empty(),
        })
    }
}

/// The names that are bound later than the construct at `tokens[i]` begins:
/// those that the enclosing sequences declare behind the place where this
/// one stands, and those that `tokens[i..]` declares as far as `depth`
/// levels down.
pub open spec fn later_names(
    outer: Seq<Seq<char>>,
    tokens: Seq<TokenView>,
    i: int,
    depth: nat,
) -> Seq<
    Seq<char>,
> {
    outer + declared_in(tokens, i, tokens.len() as int, depth)
}

/// Whether `texts` holds `text`.
pub fn has_text(texts: &Vec<String>, text: &String) -> (found: bool)
    ensures
        found == texts_view(texts@).contains(text@),
{
    let mut i: usize = 0;
    while i < texts.len()
        invariant
            i <= texts.len(),
            forall|k: int| 0 <= k < i ==> texts_view(texts@)[k] != text@,
        decreases texts.len() - i,
    {
        if texts[i] == *text {
            assert(texts_view(texts@)[i as int] == text@);
            return true;
        }
        i += 1;
    }
    false
}

/// Whether the word at `tokens[i]` cites a field.
pub fn cites(tokens: &Vec<Token>, i: usize) -> (yes: bool)
    requires
        i < tokens.len(),
    ensures
        yes == cites_at(tokens_view(tokens@), i as int),
{
    if shape_of(&tokens[i]) != Shape::Name {
        return false;
    }
    if i > 0 && tokens[i - 1].is_punct('.') {
        return false;
    }
    if i > 1 && tokens[i - 1].is_punct(':') && tokens[i - 2].is_punct(':') && tokens[i
        - 2].is_joint() {
        return false;
    }
    if i + 1 < tokens.len() && (tokens[i + 1].is_punct(':') || shape_of(&tokens[i + 1])
        == Shape::Paren) {
        return false;
    }
    true
}

/// Appends to `out` every name that the expression `tokens` cites.
fn gather_cited(tokens: &Vec<Token>, out: &mut Vec<Citation>)
    ensures
        citations_view(final(out)@) == citations_view(old(out)@) + cited_names(
            tokens_view(tokens@),
        ),
    decreases tokens,
{
    let ghost all = tokens_view(tokens@);
    let ghost start = citations_view(out@);
    let mut i: usize = 0;
    while i < tokens.len()
        invariant
            i <= tokens.len(),
            all == tokens_view(tokens@),
            citations_view(out@) == start + cited_upto(all, i as int),
        decreases tokens.len() - i,
    {
        let ghost before = citations_view(out@);
        match &tokens[i] {
            Token::Group { delimiter, children, pos } => {
                gather_cited(children, out);
            },
            _ => {
                if cites(tokens, i) {
                    let c = Citation { name: tokens[i].text(), pos: tokens[i].position() };
                    out.push(c);
                    assert(citations_view(out@) =~= before.push(c@));
                } else {
                }
            },
        }
        i += 1;
    }
}

/// Appends to `out` every name that the expression `tokens` cites. The
/// tokens are nested no deeper than the compiler follows.
pub fn collect_cited(tokens: &Vec<Token>, out: &mut Vec<Citation>)
    requires
        all_shallow(tokens_view(tokens@)),
    ensures
        citations_view(final(out)@) == citations_view(old(out)@) + cited_names(
            tokens_view(tokens@),
        ),
{
    gather_cited(tokens, out)
}

/// Every name that the expression `tokens` cites, in the order of the text.
/// The tokens are nested no deeper than the compiler follows.
pub fn cited(tokens: &Vec<Token>) -> (out: Vec<Citation>)
    requires
        all_shallow(tokens_view(tokens@)),
    ensures
        citations_view(out@) == cited_names(tokens_view(tokens@)),
{
    let mut out: Vec<Citation> = Vec::new();
    assert(citations_view(out@) =~= Seq::empty());
    gather_cited(tokens, &mut out);
    out
}

/// The name that the construct at `tokens[k]` binds by itself.
pub fn declared(tokens: &Vec<Token>, k: usize) -> (name: Option<String>)
    requires
        k < tokens.len(),
    ensures
        match name {
            Some(n) => declared_at(tokens_view(tokens@), k as int) == Some(n@),
            None => declared_at(tokens_view(tokens@), k as int) is None,
        },
{
    if shape_of(&tokens[k]) != Shape::Marker {
        return None;
    }
    let ghost all = tokens_view(tokens@);
    match recognize(tokens, k) {
        Construct::PlainBinding => Some(tokens[k + 1].text()),
        Construct::TypedBinding => match &tokens[k + 1] {
            Token::Group { delimiter, children, pos } => {
                assert(children_at(all, k + 1) == tokens_view(children@));
                Some(children[0].text())
            },
            _ => None,
        },
        Construct::OptionalPlainBinding => Some(tokens[k + 2].text()),
        Construct::OptionalTypedBinding => match &tokens[k + 2] {
            Token::Group { delimiter, children, pos } => {
                let head = shape_at(children, 0) == Shape::Name && (shape_at(children, 1)
                    == Shape::Colon || shape_at(children, 1) == Shape::As);
                if head {
                    Some(children[0].text())
                } else {
                    None
                }
            },
            _ => None,
        },
        _ => None,
    }
}

/// Appends to `out` the names that `tokens[from..]` declares as far as
/// `depth` levels down, which are no more than [`MAX_DEPTH`].
pub fn collect_declared(tokens: &Vec<Token>, from: usize, depth: usize, out: &mut Vec<String>)
    requires
        from <= tokens.len(),
        depth <= MAX_DEPTH,
    ensures
        texts_view(final(out)@) == texts_view(old(out)@) + declared_in(
            tokens_view(tokens@),
            from as int,
            tokens@.len() as int,
            depth as nat,
        ),
    decreases tokens,
{
    let ghost all = tokens_view(tokens@);
    let ghost start = texts_view(out@);
    let mut i: usize = from;
    while i < tokens.len()
        invariant
            from <= i <= tokens.len(),
            depth <= MAX_DEPTH,
            all == tokens_view(tokens@),
            texts_view(out@) == start + declared_in(all, from as int, i as int, depth as nat),
        decreases tokens.len() - i,
    {
        let ghost before = texts_view(out@);
        match declared(tokens, i) {
            Some(name) => {
                out.push(name);
                assert(texts_view(out@) =~= before.push(name@));
            },
            None => {},
        }
        match &tokens[i] {
            Token::Group { delimiter, children, pos } => {
                if depth > 0 {
                    collect_declared(children, 0, depth - 1, out);
                } else {
                }
            },
            _ => {
            },
        }
        i += 1;
    }
}

/// The names that are bound later than the construct at `tokens[i]` begins.
pub fn names_later(outer: &Vec<String>, tokens: &Vec<Token>, i: usize, depth: usize) -> (later: Vec<
    String,
>)
    requires
        i <= tokens.len(),
        depth <= MAX_DEPTH,
    ensures
        texts_view(later@) == later_names(
            texts_view(outer@),
            tokens_view(tokens@),
            i as int,
            depth as nat,
        ),
{
    let mut later: Vec<String> = Vec::new();
    let mut k: usize = 0;
    while k < outer.len()
        invariant
            k <= outer.len(),
            later@.len() == k,
            forall|j: int| 0 <= j < k ==> later@[j]@ == outer@[j]@,
        decreases outer.len() - k,
    {
        later.push(outer[k].clone());
        k += 1;
    }
    collect_declared(tokens, i, depth, &mut later);
    later
}

} // verus!
