//! The annotation recognizer: from a marker and the few tokens behind it, the
//! construct that begins there.

use vstd::prelude::*;
use crate::depth::{may_be_read, readable};
use crate::syntax::{is_ident, parses_as_ident};
use crate::token::{Delimiter, Token, TokenView, tokens_view};

verus! {

/// What the recognizer sees of one token.
#[derive(Clone, Copy, Debug, PartialEq, Eq, Structural)]
pub enum Shape {
    /// A word that can name a field: an identifier that is no keyword.
    Name,
    /// The keyword `if`.
    If,
    /// The keyword `else`.
    Else,
    /// The keyword `as`.
    As,
    /// Any other word.
    Word,
    /// The marker `#`.
    Marker,
    /// `?`
    Question,
    /// `:`
    Colon,
    /// `,`
    Comma,
    /// `*`
    Star,
    /// Any other punctuation character.
    Punct,
    /// A group in round brackets.
    Paren,
    /// A group in curly brackets.
    Brace,
    /// A group in square brackets.
    Bracket,
    /// A group without visible delimiters.
    Invisible,
    /// A literal.
    Literal,
    /// No token: the sequence has ended.
    End,
}

/// The construct that a marker introduces.
#[derive(Clone, Copy, Debug, PartialEq, Eq, Structural)]
pub enum Construct {
    /// `#name`
    PlainBinding,
    /// `#{name: Type}`
    TypedBinding,
    /// `#( .. ) separator *`
    Repetition,
    /// `#?name`
    OptionalPlainBinding,
    /// `#?{name: Type}` or `#?{name: Type, if: guard}`
    OptionalTypedBinding,
    /// `#?[ .. ]`
    OptionalBracketGroup,
    /// `#? if guard { .. } else ..`
    ConditionalChain,
    /// `#{ .. }`
    AllRequiredGroup,
    /// `#[doc = ".."]`, which is how a documentation comment arrives.
    Documentation,
    /// Nothing that the recognizer knows.
    Unknown,
}

/// The shape of a word: the three keywords that the grammar uses, then what
/// the identifier parser says of it.
pub open spec fn word_shape_of(text: Seq<char>, accepted: bool) -> Shape {
    if text == "if"@ {
        Shape::If
    } else if text == "else"@ {
        Shape::Else
    } else if text == "as"@ {
        Shape::As
    } else if accepted {
        Shape::Name
    } else {
        Shape::Word
    }
}

/// The shape of a punctuation character.
pub open spec fn punct_shape_of(ch: char) -> Shape {
    if ch == '#' {
        Shape::Marker
    } else if ch == '?' {
        Shape::Question
    } else if ch == ':' {
        Shape::Colon
    } else if ch == ',' {
        Shape::Comma
    } else if ch == '*' {
        Shape::Star
    } else {
        Shape::Punct
    }
}

/// The shape of a group.
pub open spec fn group_shape_of(delimiter: Delimiter) -> Shape {
    match delimiter {
        Delimiter::Parenthesis => Shape::Paren,
        Delimiter::Brace => Shape::Brace,
        Delimiter::Bracket => Shape::Bracket,
        Delimiter::Invisible => Shape::Invisible,
    }
}

/// The shape of a token. A word is put to the identifier parser, unless it
/// is a text that may not be read: such a word names no field.
pub open spec fn shape_spec(token: TokenView) -> Shape {
    match token {
        TokenView::Group { delimiter, children, pos } => group_shape_of(delimiter),
        TokenView::Ident { text, pos } => word_shape_of(
            text,
            may_be_read(text) && parses_as_ident(text),
        ),
        TokenView::Punct { ch, joint, pos } => punct_shape_of(ch),
        TokenView::Literal { text, pos } => Shape::Literal,
    }
}

/// The shape of `tokens[i]`, or [`Shape::End`] behind the last token.
pub open spec fn shape_at_spec(tokens: Seq<TokenView>, i: int) -> Shape {
    if 0 <= i < tokens.len() {
        shape_spec(tokens[i])
    } else {
        Shape::End
    }
}

/// The tokens inside `tokens[i]` where that is a group, else none.
pub open spec fn children_at(tokens: Seq<TokenView>, i: int) -> Seq<TokenView> {
    if 0 <= i < tokens.len() && tokens[i] is Group {
        tokens[i]->children
    } else {
        Seq::empty()
    }
}

/// The lookahead table. `first` and `second` are the shapes of the two
/// tokens behind the marker; `inner0` and `inner1` those of the first two
/// tokens inside the first one, where it is a group.
pub open spec fn classify_spec(
    first: Shape,
    second: Shape,
    inner0: Shape,
    inner1: Shape,
) -> Construct {
    match first {
        Shape::Name => Construct::PlainBinding,
        Shape::Brace => {
            if inner0 == Shape::Name && (inner1 == Shape::Colon || inner1 == Shape::As) {
                Construct::TypedBinding
            } else {
                Construct::AllRequiredGroup
            }
        },
        Shape::Paren => Construct::Repetition,
        Shape::Bracket => Construct::Documentation,
        Shape::Question => match second {
            Shape::Name => Construct::OptionalPlainBinding,
            Shape::Brace => Construct::OptionalTypedBinding,
            Shape::Bracket => Construct::OptionalBracketGroup,
            Shape::If => Construct::ConditionalChain,
            _ => Construct::Unknown,
        },
        _ => Construct::Unknown,
    }
}

/// The construct that the marker at `tokens[i]` introduces.
pub open spec fn recognize_spec(tokens: Seq<TokenView>, i: int) -> Construct {
    classify_spec(
        shape_at_spec(tokens, i + 1),
        shape_at_spec(tokens, i + 2),
        shape_at_spec(children_at(tokens, i + 1), 0),
        shape_at_spec(children_at(tokens, i + 1), 1),
    )
}

/// Whether `text` is the word `word`.
pub fn is_word(text: &String, word: &str) -> (same: bool)
    ensures
        same == (text@ == word@),
{
    let other = word.to_owned();
    *text == other
}

/// The shape of a word, given what the identifier parser said of it.
pub fn word_shape(text: &String, accepted: bool) -> (shape: Shape)
    ensures
        shape == word_shape_of(text@, accepted),
{
    if is_word(text, "if") {
        Shape::If
    } else if is_word(text, "else") {
        Shape::Else
    } else if is_word(text, "as") {
        Shape::As
    } else if accepted {
        Shape::Name
    } else {
        Shape::Word
    }
}

/// The shape of a punctuation character.
pub fn punct_shape(ch: char) -> (shape: Shape)
    ensures
        shape == punct_shape_of(ch),
{
    if ch == '#' {
        Shape::Marker
    } else if ch == '?' {
        Shape::Question
    } else if ch == ':' {
        Shape::Colon
    } else if ch == ',' {
        Shape::Comma
    } else if ch == '*' {
        Shape::Star
    } else {
        Shape::Punct
    }
}

/// The shape of a token. A word is put to the identifier parser.
pub fn shape_of(token: &Token) -> (shape: Shape)
    ensures
        shape == shape_spec(token@),
{
    match token {
        Token::Group { delimiter, children, pos } => match delimiter {
            Delimiter::Parenthesis => Shape::Paren,
            Delimiter::Brace => Shape::Brace,
            Delimiter::Bracket => Shape::Bracket,
            Delimiter::Invisible => Shape::Invisible,
        },
        Token::Ident { text, pos } => {
            let accepted = readable(text.as_str()) && is_ident(text.as_str());
            word_shape(text, accepted)
        },
        Token::Punct { ch, joint, pos } => punct_shape(*ch),
        Token::Literal { text, pos } => Shape::Literal,
    }
}

/// The shape of `tokens[i]`, or [`Shape::End`] behind the last token.
pub fn shape_at(tokens: &Vec<Token>, i: usize) -> (shape: Shape)
    ensures
        shape == shape_at_spec(tokens_view(tokens@), i as int),
{
    if i < tokens.len() {
        shape_of(&tokens[i])
    } else {
        Shape::End
    }
}

/// The lookahead table: the construct for the shapes behind a marker.
pub fn classify(first: Shape, second: Shape, inner0: Shape, inner1: Shape) -> (construct: Construct)
    ensures
        construct == classify_spec(first, second, inner0, inner1),
{
    match first {
        Shape::Name => Construct::PlainBinding,
        Shape::Brace => {
            if inner0 == Shape::Name && (inner1 == Shape::Colon || inner1 == Shape::As) {
                Construct::TypedBinding
            } else {
                Construct::AllRequiredGroup
            }
        },
        Shape::Paren => Construct::Repetition,
        Shape::Bracket => Construct::Documentation,
        Shape::Question => match second {
            Shape::Name => Construct::OptionalPlainBinding,
            Shape::Brace => Construct::OptionalTypedBinding,
            Shape::Bracket => Construct::OptionalBracketGroup,
            Shape::If => Construct::ConditionalChain,
            _ => Construct::Unknown,
        },
        _ => Construct::Unknown,
    }
}

/// The construct that the marker at `tokens[i]` introduces, from at most
/// four tokens: the marker, the two behind it, and the first two inside a
/// brace group that follows the marker directly.
pub fn recognize(tokens: &Vec<Token>, i: usize) -> (construct: Construct)
    requires
        i < tokens.len(),
    ensures
        construct == recognize_spec(tokens_view(tokens@), i as int),
{
    let first = shape_at(tokens, i + 1);
    let second = if i + 1 < tokens.len() {
        shape_at(tokens, i + 2)
    } else {
        Shape::End
    };
    let mut inner0 = Shape::End;
    let mut inner1 = Shape::End;
    if i + 1 < tokens.len() {
        match &tokens[i + 1] {
            Token::Group { delimiter, children, pos } => {
                inner0 = shape_at(children, 0);
                inner1 = shape_at(children, 1);
            },
            _ => {},
        }
    }
    classify(first, second, inner0, inner1)
}

} // verus!
