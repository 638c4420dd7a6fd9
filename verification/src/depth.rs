//! The depth guard: how deep groups are nested, counted before anything
//! descends into them.

use vstd::prelude::*;
use vstd::string::StrSliceExecFns;
use crate::token::{Position, Token, TokenView, tokens_view};

verus! {

/// How deep groups may be nested in a template. The top level counts as
/// depth zero.
pub const MAX_DEPTH: usize = 64;

/// The position of the first group of `tokens[from..to]`, in the order of
/// the text, that is nested deeper than `budget` allows, where a group at
/// the top level of `tokens` needs a budget of one; nothing where each
/// group is within the budget.
pub open spec fn first_too_deep(
    tokens: Seq<TokenView>,
    from: int,
    to: int,
    budget: nat,
) -> Option<Position>
    decreases tokens, to,
{
    if to <= from || from < 0 || to > tokens.len() {
        None
    } else {
        match first_too_deep(tokens, from, to - 1, budget) {
            Some(p) => Some(p),
            None => match tokens[to - 1] {
                TokenView::Group { delimiter, children, pos } => if budget == 0 {
                    Some(pos)
                } else {
                    first_too_deep(children, 0, children.len() as int, (budget - 1) as nat)
                },
                _ => None,
            },
        }
    }
}

/// What is found in `tokens[from..to]` is found in `tokens[from..end]`, for
/// `end` behind `to`.
pub proof fn lemma_too_deep_stays(tokens: Seq<TokenView>, from: int, to: int, end: int, budget: nat)
    requires
        0 <= from <= to <= end <= tokens.len(),
        first_too_deep(tokens, from, to, budget) is Some,
    ensures
        first_too_deep(tokens, from, end, budget) == first_too_deep(tokens, from, to, budget),
    decreases end - to,
{
    if to < end {
        lemma_too_deep_stays(tokens, from, to, end - 1, budget);
    }
}

/// The position of the first group of `tokens[from..to]` that is nested
/// deeper than `budget` allows. The search itself never descends deeper
/// than `budget`, which is no more than [`MAX_DEPTH`].
pub fn too_deep(tokens: &Vec<Token>, from: usize, to: usize, budget: usize) -> (found: Option<
    Position,
>)
    requires
        from <= to <= tokens.len(),
        budget <= MAX_DEPTH,
    ensures
        found == first_too_deep(tokens_view(tokens@), from as int, to as int, budget as nat),
    decreases tokens,
{
    let ghost all = tokens_view(tokens@);
    let mut i: usize = from;
    while i < to
        invariant
            from <= i <= to <= tokens.len(),
            budget <= MAX_DEPTH,
            all == tokens_view(tokens@),
            first_too_deep(all, from as int, i as int, budget as nat) is None,
        decreases to - i,
    {
        match &tokens[i] {
            Token::Group { delimiter, children, pos } => {
                if budget == 0 {
                    proof {
                        lemma_too_deep_stays(all, from as int, i + 1, to as int, budget as nat);
                    }
                    return Some(*pos);
                }
                match too_deep(children, 0, children.len(), budget - 1) {
                    Some(p) => {
                        proof {
                            lemma_too_deep_stays(all, from as int, i + 1, to as int, budget as nat);
                        }
                        return Some(p);
                    },
                    None => {},
                }
            },
            _ => {},
        }
        i += 1;
    }
    None
}

/// Whether no group of `tokens[from..to]` is nested deeper than
/// [`MAX_DEPTH`].
pub open spec fn shallow(tokens: Seq<TokenView>, from: int, to: int) -> bool {
    first_too_deep(tokens, from, to, MAX_DEPTH as nat) is None
}

/// Whether no group of `tokens` is nested deeper than [`MAX_DEPTH`].
pub open spec fn all_shallow(tokens: Seq<TokenView>) -> bool {
    shallow(tokens, 0, tokens.len() as int)
}

/// Where no group of `tokens[from..to]` is nested too deep, none of a part
/// of them is.
pub proof fn lemma_part_within(
    tokens: Seq<TokenView>,
    from: int,
    to: int,
    a: int,
    b: int,
    budget: nat,
)
    requires
        0 <= from <= a <= b <= to <= tokens.len(),
        first_too_deep(tokens, from, to, budget) is None,
    ensures
        first_too_deep(tokens, a, b, budget) is None,
    decreases to - from + b - a,
{
    if b < to {
        if first_too_deep(tokens, from, to - 1, budget) is Some {
            lemma_too_deep_stays(tokens, from, to - 1, to, budget);
        }
        lemma_part_within(tokens, from, to - 1, a, b, budget);
    } else if a < b {
        if first_too_deep(tokens, from, to - 1, budget) is Some {
            lemma_too_deep_stays(tokens, from, to - 1, to, budget);
        }
        lemma_part_within(tokens, from, to - 1, a, b - 1, budget);
    }
}

/// Where no group of `tokens[from..to]` is nested too deep, none of those
/// tokens taken by themselves is.
pub proof fn lemma_taken_within(tokens: Seq<TokenView>, from: int, to: int, budget: nat)
    requires
        0 <= from <= to <= tokens.len(),
        first_too_deep(tokens, from, to, budget) is None,
    ensures
        first_too_deep(tokens.subrange(from, to), 0, to - from, budget) is None,
    decreases to - from,
{
    if from < to {
        if first_too_deep(tokens, from, to - 1, budget) is Some {
            lemma_too_deep_stays(tokens, from, to - 1, to, budget);
        }
        lemma_taken_within(tokens, from, to - 1, budget);
        let part = tokens.subrange(from, to);
        let head = tokens.subrange(from, to - 1);
        assert(part[to - from - 1] == tokens[to - 1]);
        lemma_same_within(part, head, to - from - 1, budget);
    }
}

/// Two runs of tokens that agree on their first `n` tokens agree on what
/// is nested too deep among those.
pub proof fn lemma_same_within(a: Seq<TokenView>, b: Seq<TokenView>, n: int, budget: nat)
    requires
        0 <= n <= a.len(),
        n <= b.len(),
        forall|k: int| 0 <= k < n ==> a[k] == b[k],
    ensures
        first_too_deep(a, 0, n, budget) == first_too_deep(b, 0, n, budget),
    decreases n,
{
    if n > 0 {
        lemma_same_within(a, b, n - 1, budget);
    }
}

/// What is nested no deeper than a budget is nested no deeper than a
/// larger one.
pub proof fn lemma_more_budget(
    tokens: Seq<TokenView>,
    from: int,
    to: int,
    budget: nat,
    more: nat,
)
    requires
        budget <= more,
        first_too_deep(tokens, from, to, budget) is None,
    ensures
        first_too_deep(tokens, from, to, more) is None,
    decreases tokens, to,
{
    if !(to <= from || from < 0 || to > tokens.len()) {
        lemma_more_budget(tokens, from, to - 1, budget, more);
        match tokens[to - 1] {
            TokenView::Group { delimiter, children, pos } => {
                lemma_more_budget(
                    children,
                    0,
                    children.len() as int,
                    (budget - 1) as nat,
                    (more - 1) as nat,
                );
            },
            _ => {},
        }
    }
}

/// Where no group of `tokens[from..to]` is nested deeper than `budget`, a
/// group among them has a level to go, and none inside it is nested deeper
/// than what is left then.
pub proof fn lemma_inside_within(
    tokens: Seq<TokenView>,
    from: int,
    to: int,
    k: int,
    budget: nat,
)
    requires
        0 <= from <= k < to <= tokens.len(),
        first_too_deep(tokens, from, to, budget) is None,
        tokens[k] is Group,
    ensures
        budget > 0,
        first_too_deep(
            tokens[k]->children,
            0,
            tokens[k]->children.len() as int,
            (budget - 1) as nat,
        ) is None,
    decreases to,
{
    if k < to - 1 {
        if first_too_deep(tokens, from, to - 1, budget) is Some {
            lemma_too_deep_stays(tokens, from, to - 1, to, budget);
        }
        lemma_inside_within(tokens, from, to - 1, k, budget);
    }
}

/// Where the group `tokens[k]` is nested no deeper than `budget`, which is
/// no more than [`MAX_DEPTH`], nothing inside it is nested deeper than
/// [`MAX_DEPTH`].
pub proof fn lemma_inside_shallow(tokens: Seq<TokenView>, k: int, budget: nat)
    requires
        0 <= k < tokens.len(),
        budget <= MAX_DEPTH,
        first_too_deep(tokens, k, k + 1, budget) is None,
        tokens[k] is Group,
    ensures
        all_shallow(tokens[k]->children),
{
    lemma_inside_within(tokens, k, k + 1, k, budget);
    lemma_more_budget(
        tokens[k]->children,
        0,
        tokens[k]->children.len() as int,
        (budget - 1) as nat,
        MAX_DEPTH as nat,
    );
}

/// A token that is no group is shallow, where it stands and by itself.
pub proof fn lemma_leaf_shallow(tokens: Seq<TokenView>, k: int)
    requires
        0 <= k < tokens.len(),
        !(tokens[k] is Group),
    ensures
        shallow(tokens, k, k + 1),
        all_shallow(seq![tokens[k]]),
{
    assert(first_too_deep(tokens, k, k, MAX_DEPTH as nat) is None);
    let one = seq![tokens[k]];
    assert(first_too_deep(one, 0, 0, MAX_DEPTH as nat) is None);
    assert(one[0] == tokens[k]);
}

/// A part of shallow tokens, taken by itself, is shallow.
pub proof fn lemma_part_shallow(tokens: Seq<TokenView>, from: int, to: int, a: int, b: int)
    requires
        0 <= from <= a <= b <= to <= tokens.len(),
        shallow(tokens, from, to),
    ensures
        shallow(tokens, a, b),
        all_shallow(tokens.subrange(a, b)),
{
    lemma_part_within(tokens, from, to, a, b, MAX_DEPTH as nat);
    lemma_taken_within(tokens, a, b, MAX_DEPTH as nat);
}

/// How many characters a text may hold to be put to the parser.
pub const MAX_TEXT: usize = 4096;

/// How much a type, a guard or a condition may weigh to be put to the
/// parser: see [`weight`]. The parsers for types and expressions descend
/// once for each unit of weight at worst, and each level costs them a good
/// part of what a thread's stack holds; the limit keeps the descent within
/// a fraction of the stack that a thread has by default.
pub const MAX_WEIGHT: usize = 48;

/// Whether `c` opens a group.
pub open spec fn is_opener(c: char) -> bool {
    c == '(' || c == '[' || c == '{'
}

/// Whether `c` is a character that nothing begins with: a blank, a mark
/// that closes a group, or one that only separates.
pub open spec fn is_passed(c: char) -> bool {
    c == ' ' || c == '\t' || c == '\n' || c == '\r' || c == ')' || c == ']' || c == '}' || c
        == ',' || c == ';'
}

/// Whether `c` is a letter or a digit of the basic alphabet, or `_`.
pub open spec fn is_word_char(c: char) -> bool {
    ('a' <= c && c <= 'z') || ('A' <= c && c <= 'Z') || ('0' <= c && c <= '9') || c == '_'
}

/// Whether the character at `text[i]` counts towards the weight: it is
/// none that nothing begins with, and it does not go on a word.
pub open spec fn weighs(text: Seq<char>, i: int) -> bool {
    &&& 0 <= i < text.len()
    &&& !is_passed(text[i])
    &&& !(is_word_char(text[i]) && i > 0 && is_word_char(text[i - 1]))
}

/// How many of the first `n` characters of `text` count towards the weight.
pub open spec fn weight_upto(text: Seq<char>, n: int) -> nat
    decreases n,
{
    if n <= 0 || n > text.len() {
        0
    } else {
        weight_upto(text, n - 1) + if weighs(text, n - 1) {
            1nat
        } else {
            0nat
        }
    }
}

/// The weight of a text: how many words it holds, and how many characters
/// beside them that are neither blanks nor closing or separating marks.
/// No text holds more tokens that something can begin with.
pub open spec fn weight(text: Seq<char>) -> nat {
    weight_upto(text, text.len() as int)
}

/// How many of the first `n` characters of `text` open a group.
pub open spec fn openers_upto(text: Seq<char>, n: int) -> nat
    decreases n,
{
    if n <= 0 || n > text.len() {
        0
    } else {
        openers_upto(text, n - 1) + if is_opener(text[n - 1]) {
            1nat
        } else {
            0nat
        }
    }
}

/// How many characters of `text` open a group. No text is nested deeper.
pub open spec fn openers(text: Seq<char>) -> nat {
    openers_upto(text, text.len() as int)
}

/// Whether `text` may be put to a parser that descends once for each group
/// at worst: it is no longer than [`MAX_TEXT`] and opens no more than
/// [`MAX_DEPTH`] groups.
pub open spec fn may_be_read(text: Seq<char>) -> bool {
    text.len() <= MAX_TEXT && openers(text) <= MAX_DEPTH
}

/// Whether `text` may be put to a parser that descends once for each token
/// at worst: it is no longer than [`MAX_TEXT`] and weighs no more than
/// [`MAX_WEIGHT`].
pub open spec fn may_be_parsed(text: Seq<char>) -> bool {
    text.len() <= MAX_TEXT && weight(text) <= MAX_WEIGHT
}

/// A longer part of a text weighs no less.
pub proof fn lemma_weight_grows(text: Seq<char>, n: int, m: int)
    requires
        0 <= n <= m <= text.len(),
    ensures
        weight_upto(text, n) <= weight_upto(text, m),
    decreases m - n,
{
    if n < m {
        lemma_weight_grows(text, n, m - 1);
    }
}

/// A longer part of a text opens no fewer groups.
pub proof fn lemma_openers_grow(text: Seq<char>, n: int, m: int)
    requires
        0 <= n <= m <= text.len(),
    ensures
        openers_upto(text, n) <= openers_upto(text, m),
    decreases m - n,
{
    if n < m {
        lemma_openers_grow(text, n, m - 1);
    }
}

/// Whether `c` opens a group.
pub fn opener(c: char) -> (yes: bool)
    ensures
        yes == is_opener(c),
{
    c == '(' || c == '[' || c == '{'
}

/// Whether `c` is a character that nothing begins with.
pub fn passed(c: char) -> (yes: bool)
    ensures
        yes == is_passed(c),
{
    c == ' ' || c == '\t' || c == '\n' || c == '\r' || c == ')' || c == ']' || c == '}' || c
        == ',' || c == ';'
}

/// Whether `c` is a letter or a digit of the basic alphabet, or `_`.
pub fn word_char(c: char) -> (yes: bool)
    ensures
        yes == is_word_char(c),
{
    ('a' <= c && c <= 'z') || ('A' <= c && c <= 'Z') || ('0' <= c && c <= '9') || c == '_'
}

/// Whether `text` may be put to a parser that descends once for each group
/// at worst.
pub fn readable(text: &str) -> (yes: bool)
    ensures
        yes == may_be_read(text@),
{
    let n = text.unicode_len();
    if n > MAX_TEXT {
        return false;
    }
    let mut count: usize = 0;
    let mut i: usize = 0;
    while i < n
        invariant
            i <= n,
            n == text@.len(),
            n <= MAX_TEXT,
            count == openers_upto(text@, i as int),
            count <= MAX_DEPTH,
        decreases n - i,
    {
        if opener(text.get_char(i)) {
            if count == MAX_DEPTH {
                proof {
                    lemma_openers_grow(text@, i + 1, n as int);
                }
                return false;
            }
            count += 1;
        }
        i += 1;
    }
    true
}

/// Whether `text` may be put to a parser that descends once for each token
/// at worst.
pub fn parsable(text: &str) -> (yes: bool)
    ensures
        yes == may_be_parsed(text@),
{
    let n = text.unicode_len();
    if n > MAX_TEXT {
        return false;
    }
    let mut count: usize = 0;
    let mut in_word = false;
    let mut i: usize = 0;
    while i < n
        invariant
            i <= n,
            n == text@.len(),
            n <= MAX_TEXT,
            count == weight_upto(text@, i as int),
            count <= MAX_WEIGHT,
            in_word == (i > 0 && is_word_char(text@[i - 1])),
        decreases n - i,
    {
        let c = text.get_char(i);
        let word = word_char(c);
        if !passed(c) && !(word && in_word) {
            if count == MAX_WEIGHT {
                proof {
                    lemma_weight_grows(text@, i + 1, n as int);
                }
                return false;
            }
            count += 1;
        }
        in_word = word;
        i += 1;
    }
    true
}

} // verus!
