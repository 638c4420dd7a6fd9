//! The token tree that templates are written in.

use vstd::prelude::*;
use crate::depth::{all_shallow, shallow};

verus! {

/// Where a token stands in the source, as the token source counts it.
#[derive(Clone, Copy, Debug, PartialEq, Eq, Structural)]
pub struct Position {
    pub offset: usize,
}

/// The bracket kind of a group.
#[derive(Clone, Copy, Debug, PartialEq, Eq, Structural)]
pub enum Delimiter {
    Parenthesis,
    Brace,
    Bracket,
    Invisible,
}

/// One node of a template's token tree.
#[derive(Debug, PartialEq, Eq)]
pub enum Token {
    Group { delimiter: Delimiter, children: Vec<Token>, pos: Position },
    Ident { text: String, pos: Position },
    Punct { ch: char, joint: bool, pos: Position },
    Literal { text: String, pos: Position },
}

/// The mathematical value of a [`Token`].
pub enum TokenView {
    Group { delimiter: Delimiter, children: Seq<TokenView>, pos: Position },
    Ident { text: Seq<char>, pos: Position },
    Punct { ch: char, joint: bool, pos: Position },
    Literal { text: Seq<char>, pos: Position },
}

/// The values of a run of tokens, in order.
pub open spec fn tokens_view(tokens: Seq<Token>) -> Seq<TokenView>
    decreases tokens,
{
    Seq::new(
        tokens.len(),
        |i: int|
            if 0 <= i < tokens.len() {
                tokens[i].view()
            } else {
                arbitrary()
            },
    )
}

impl View for Token {
    type V = TokenView;

    open spec fn view(&self) -> TokenView
        decreases self,
    {
        match self {
            Token::Group { delimiter, children, pos } => TokenView::Group {
                delimiter: *delimiter,
                children: tokens_view(children@),
                pos: *pos,
            },
            Token::Ident { text, pos } => TokenView::Ident { text: text@, pos: *pos },
            Token::Punct { ch, joint, pos } => TokenView::Punct {
                ch: *ch,
                joint: *joint,
                pos: *pos,
            },
            Token::Literal { text, pos } => TokenView::Literal { text: text@, pos: *pos },
        }
    }
}

impl TokenView {
    /// The position that the token carries.
    pub open spec fn position(self) -> Position {
        match self {
            TokenView::Group { delimiter, children, pos } => pos,
            TokenView::Ident { text, pos } => pos,
            TokenView::Punct { ch, joint, pos } => pos,
            TokenView::Literal { text, pos } => pos,
        }
    }

    /// The text of a word or of a literal; empty for every other token.
    pub open spec fn text(self) -> Seq<char> {
        match self {
            TokenView::Ident { text, pos } => text,
            TokenView::Literal { text, pos } => text,
            _ => Seq::empty(),
        }
    }

    /// Whether the token is the punctuation character `c`.
    pub open spec fn is_punct(self, c: char) -> bool {
        match self {
            TokenView::Punct { ch, joint, pos } => ch == c,
            _ => false,
        }
    }

    /// Whether the token is a punctuation character that is joined to the
    /// token behind it.
    pub open spec fn is_joint(self) -> bool {
        match self {
            TokenView::Punct { ch, joint, pos } => joint,
            _ => false,
        }
    }
}

impl Token {
    /// The position that the token carries.
    pub fn position(&self) -> (pos: Position)
        ensures
            pos == self@.position(),
    {
        match self {
            Token::Group { delimiter, children, pos } => *pos,
            Token::Ident { text, pos } => *pos,
            Token::Punct { ch, joint, pos } => *pos,
            Token::Literal { text, pos } => *pos,
        }
    }

    /// The text of a word or of a literal; empty for every other token.
    pub fn text(&self) -> (text: String)
        ensures
            text@ == self@.text(),
    {
        match self {
            Token::Ident { text, pos } => text.clone(),
            Token::Literal { text, pos } => text.clone(),
            _ => String::new(),
        }
    }

    /// Whether the token is the punctuation character `c`.
    pub fn is_punct(&self, c: char) -> (yes: bool)
        ensures
            yes == self@.is_punct(c),
    {
        match self {
            Token::Punct { ch, joint, pos } => *ch == c,
            _ => false,
        }
    }

    /// Whether the token is a punctuation character that is joined to the
    /// token behind it.
    pub fn is_joint(&self) -> (yes: bool)
        ensures
            yes == self@.is_joint(),
    {
        match self {
            Token::Punct { ch, joint, pos } => *joint,
            _ => false,
        }
    }
}

/// Copies a run of tokens, groups and all.
fn clone_tokens(tokens: &Vec<Token>) -> (out: Vec<Token>)
    ensures
        tokens_view(out@) == tokens_view(tokens@),
    decreases tokens,
{
    let mut out: Vec<Token> = Vec::new();
    let mut i: usize = 0;
    while i < tokens.len()
        invariant
            i <= tokens.len(),
            out@.len() == i,
            forall|k: int| 0 <= k < i ==> out@[k]@ == tokens@[k]@,
        decreases tokens.len() - i,
    {
        let t = clone_token(&tokens[i]);
        out.push(t);
        i += 1;
    }
    out
}

/// Copies `tokens[from..to]`.
fn clone_range(tokens: &Vec<Token>, from: usize, to: usize) -> (out: Vec<Token>)
    requires
        from <= to <= tokens.len(),
    ensures
        tokens_view(out@) == tokens_view(tokens@).subrange(from as int, to as int),
{
    let mut out: Vec<Token> = Vec::new();
    let mut i: usize = from;
    while i < to
        invariant
            from <= i <= to <= tokens.len(),
            out@.len() == i - from,
            forall|k: int| 0 <= k < i - from ==> out@[k]@ == tokens@[from + k]@,
        decreases to - i,
    {
        let t = clone_token(&tokens[i]);
        out.push(t);
        i += 1;
    }
    out
}

/// Copies one token, with everything below it.
fn clone_token(token: &Token) -> (out: Token)
    ensures
        out@ == token@,
    decreases token,
{
    match token {
        Token::Group { delimiter, children, pos } => Token::Group {
            delimiter: *delimiter,
            children: clone_tokens(children),
            pos: *pos,
        },
        Token::Ident { text, pos } => Token::Ident { text: text.clone(), pos: *pos },
        Token::Punct { ch, joint, pos } => Token::Punct { ch: *ch, joint: *joint, pos: *pos },
        Token::Literal { text, pos } => Token::Literal { text: text.clone(), pos: *pos },
    }
}

/// Copies a run of tokens, groups and all. The tokens are nested no deeper
/// than the compiler follows.
pub fn copy_tokens(tokens: &Vec<Token>) -> (out: Vec<Token>)
    requires
        all_shallow(tokens_view(tokens@)),
    ensures
        tokens_view(out@) == tokens_view(tokens@),
{
    clone_tokens(tokens)
}

/// Copies `tokens[from..to]`, which are nested no deeper than the compiler
/// follows.
pub fn copy_range(tokens: &Vec<Token>, from: usize, to: usize) -> (out: Vec<Token>)
    requires
        from <= to <= tokens.len(),
        shallow(tokens_view(tokens@), from as int, to as int),
    ensures
        tokens_view(out@) == tokens_view(tokens@).subrange(from as int, to as int),
{
    clone_range(tokens, from, to)
}

/// Copies one token, with everything below it, which is nested no deeper
/// than the compiler follows.
pub fn copy_token(token: &Token) -> (out: Token)
    requires
        all_shallow(seq![token@]),
    ensures
        out@ == token@,
{
    clone_token(token)
}

} // verus!
