//! Tokens written out as text.

use vstd::prelude::*;
use vstd::string::StringExecFns;
use crate::depth::all_shallow;
use crate::token::{Delimiter, Token, TokenView, tokens_view};

verus! {

impl Delimiter {
    /// The character that opens or closes a group of this kind; a blank for
    /// the invisible kind.
    pub open spec fn char_of(self, open: bool) -> char {
        match (self, open) {
            (Delimiter::Parenthesis, true) => '(',
            (Delimiter::Parenthesis, false) => ')',
            (Delimiter::Brace, true) => '{',
            (Delimiter::Brace, false) => '}',
            (Delimiter::Bracket, true) => '[',
            (Delimiter::Bracket, false) => ']',
            (Delimiter::Invisible, _) => ' ',
        }
    }

    /// The character that opens or closes a group of this kind.
    pub fn to_char(&self, open: bool) -> (c: char)
        ensures
            c == self.char_of(open),
    {
        match (self, open) {
            (Delimiter::Parenthesis, true) => '(',
            (Delimiter::Parenthesis, false) => ')',
            (Delimiter::Brace, true) => '{',
            (Delimiter::Brace, false) => '}',
            (Delimiter::Bracket, true) => '[',
            (Delimiter::Bracket, false) => ']',
            (Delimiter::Invisible, _) => ' ',
        }
    }
}

/// Whether a blank separates `token` from the token that follows it: always,
/// except behind a punctuation character that is joined to the next one.
pub open spec fn spaced_after(token: TokenView) -> bool {
    !token.is_joint()
}

/// The text of one token: a word, a literal or a punctuation character as it
/// is, a group between its delimiters.
pub open spec fn token_text(token: TokenView) -> Seq<char>
    decreases token,
{
    match token {
        TokenView::Group { delimiter, children, pos } => seq![delimiter.char_of(true)]
            + tokens_text(children) + seq![delimiter.char_of(false)],
        TokenView::Ident { text, pos } => text,
        TokenView::Punct { ch, joint, pos } => seq![ch],
        TokenView::Literal { text, pos } => text,
    }
}

/// The text of a run of tokens: the tokens' texts in order, one blank between
/// neighbours wherever [`spaced_after`] asks for it.
pub open spec fn tokens_text(tokens: Seq<TokenView>) -> Seq<char>
    decreases tokens,
{
    if tokens.len() == 0 {
        Seq::empty()
    } else if tokens.len() == 1 {
        token_text(tokens[0])
    } else {
        let head = tokens.drop_last();
        tokens_text(head) + (if spaced_after(head.last()) {
            seq![' ']
        } else {
            Seq::empty()
        }) + token_text(tokens.last())
    }
}

/// `String::push` of std: the character is appended to the text.
#[verifier::external_body]
fn push_char(text: &mut String, c: char)
    ensures
        final(text)@ == old(text)@.push(c),
{
    text.push(c)
}

/// Appends the text of `token` to `out`.
fn write_token(token: &Token, out: &mut String)
    ensures
        final(out)@ == old(out)@ + token_text(token@),
    decreases token,
{
    match token {
        Token::Group { delimiter, children, pos } => {
            push_char(out, delimiter.to_char(true));
            write_tokens(children, 0, children.len(), out);
            push_char(out, delimiter.to_char(false));
            assert(tokens_view(children@).subrange(0, children@.len() as int) == tokens_view(
                children@,
            ));
        },
        Token::Ident { text, pos } => {
            out.append(text.as_str());
        },
        Token::Punct { ch, joint, pos } => {
            push_char(out, *ch);
        },
        Token::Literal { text, pos } => {
            out.append(text.as_str());
        },
    }
}

/// Appends the text of `tokens[from..to]` to `out`.
fn write_tokens(tokens: &Vec<Token>, from: usize, to: usize, out: &mut String)
    requires
        from <= to <= tokens.len(),
    ensures
        final(out)@ == old(out)@ + tokens_text(
            tokens_view(tokens@).subrange(from as int, to as int),
        ),
    decreases tokens,
{
    let ghost all = tokens_view(tokens@);
    let mut i: usize = from;
    while i < to
        invariant
            from <= i <= to <= tokens.len(),
            all == tokens_view(tokens@),
            out@ == old(out)@ + tokens_text(all.subrange(from as int, i as int)),
        decreases to - i,
    {
        let ghost before = all.subrange(from as int, i as int);
        let ghost after = all.subrange(from as int, i + 1);
        assert(after.drop_last() =~= before);
        if i > from {
            let spaced = !tokens[i - 1].is_joint();
            if spaced {
                push_char(out, ' ');
            }
        }
        write_token(&tokens[i], out);
        i += 1;
    }
}

/// The text of a run of tokens, which are nested no deeper than the
/// compiler follows.
pub fn render(tokens: &Vec<Token>) -> (text: String)
    requires
        all_shallow(tokens_view(tokens@)),
    ensures
        text@ == tokens_text(tokens_view(tokens@)),
{
    assert(tokens_view(tokens@).subrange(0, tokens@.len() as int) == tokens_view(tokens@));
    let mut text = String::new();
    write_tokens(tokens, 0, tokens.len(), &mut text);
    text
}

} // verus!
