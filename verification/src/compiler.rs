//! The compiler's entry points: the walk of a whole template, and the reading
//! of a definition's header.

use vstd::prelude::*;
use crate::depth::{
    first_too_deep, lemma_part_shallow, may_be_read, readable, shallow, too_deep, MAX_DEPTH,
};
use crate::error::{ErrorKind, SchemaError};
use crate::names::texts_view;
use crate::recognizer::{is_word, shape_at, shape_at_spec, Shape};
use crate::render::{render, tokens_text};
use crate::schema::{
    emit, emit_spec, repetitions_view, RepetitionSpec, RepetitionView, SchemaView, TemplateSchema,
};
use crate::syntax::{is_visibility, parses_as_visibility};
use crate::token::{copy_range, Position, Token, TokenView, tokens_view};
use crate::walker::{walk_spec, WalkView, Walker};

verus! {

/// What a template compiles to: the schema, the tokens that belong to no
/// annotation, and what each repetition matches.
#[derive(Debug, PartialEq, Eq)]
pub struct Compiled {
    pub schema: TemplateSchema,
    pub echo: Vec<Token>,
    pub repetitions: Vec<RepetitionSpec>,
}

/// The mathematical value of a [`Compiled`].
pub struct CompiledView {
    pub schema: SchemaView,
    pub echo: Seq<TokenView>,
    pub repetitions: Seq<RepetitionView>,
}

impl View for Compiled {
    type V = CompiledView;

    open spec fn view(&self) -> CompiledView {
        CompiledView {
            schema: self.schema@,
            echo: tokens_view(self.echo@),
            repetitions: repetitions_view(self.repetitions@),
        }
    }
}

/// What the template `tokens` compiles to. The template is walked from its
/// first token, with no field bound, no name bound around it, and
/// [`MAX_DEPTH`] levels of nesting to go. The first error of the walk is
/// the result; a walk that reaches the end gives the schema of the root
/// scope.
pub open spec fn compile_spec(tokens: Seq<TokenView>) -> Result<CompiledView, SchemaError> {
    match walk_spec(tokens, 0, Seq::empty(), WalkView::initial(), MAX_DEPTH as nat) {
        Err(e) => Err(e),
        Ok(st) => Ok(
            CompiledView {
                schema: emit_spec(st.table.fields),
                echo: st.echo,
                repetitions: st.repetitions,
            },
        ),
    }
}

/// Whether a compilation came to what the grammar gives.
pub open spec fn compile_matches(
    found: Result<Compiled, SchemaError>,
    given: Result<CompiledView, SchemaError>,
) -> bool {
    match found {
        Ok(c) => given == Ok::<CompiledView, SchemaError>(c@),
        Err(e) => given == Err::<CompiledView, SchemaError>(e),
    }
}

/// Compiles a template: walks `tokens` once and gives the schema, or the
/// first error. No part of a schema is given with an error.
pub fn walk_token_stream(tokens: &Vec<Token>) -> (done: Result<Compiled, SchemaError>)
    ensures
        compile_matches(done, compile_spec(tokens_view(tokens@))),
{
    let later: Vec<String> = Vec::new();
    assert(texts_view(later@) =~= Seq::empty());
    match Walker::parse(tokens, &later, Walker::new(), MAX_DEPTH) {
        Err(e) => Err(e),
        Ok(st) => {
            let Walker { echo, table, repetitions, doc } = st;
            Ok(Compiled { schema: emit(&table.fields), echo, repetitions })
        },
    }
}

/// The position to report where `tokens[i]` is missed: that of `tokens[i]`
/// where it is there after all, else that of the last token, else the
/// start.
pub open spec fn position_at(tokens: Seq<TokenView>, i: int) -> Position {
    if 0 <= i < tokens.len() {
        tokens[i].position()
    } else if tokens.len() > 0 {
        tokens.last().position()
    } else {
        Position { offset: 0 }
    }
}

/// The position to report where `tokens[i]` is missed.
pub fn position_of(tokens: &Vec<Token>, i: usize) -> (pos: Position)
    ensures
        pos == position_at(tokens_view(tokens@), i as int),
{
    if i < tokens.len() {
        tokens[i].position()
    } else if tokens.len() > 0 {
        tokens[tokens.len() - 1].position()
    } else {
        Position { offset: 0 }
    }
}

/// What stands before a template in a definition: the visibility and the
/// name of the type to define. `stream` is the template.
#[derive(Debug, PartialEq, Eq)]
pub struct QuoteParseArgs {
    pub viz: String,
    pub ident: String,
    pub stream: Vec<Token>,
}

/// The mathematical value of a [`QuoteParseArgs`].
pub struct ArgsView {
    pub viz: Seq<char>,
    pub ident: Seq<char>,
    pub stream: Seq<TokenView>,
}

impl View for QuoteParseArgs {
    type V = ArgsView;

    open spec fn view(&self) -> ArgsView {
        ArgsView { viz: self.viz@, ident: self.ident@, stream: tokens_view(self.stream@) }
    }
}

/// How many tokens the visibility at the head of `tokens` takes: the word
/// `pub` and a round group that follows it directly, or nothing.
pub open spec fn visibility_len(tokens: Seq<TokenView>) -> int {
    if tokens.len() > 0 && tokens[0] is Ident && tokens[0].text() == "pub"@ {
        if shape_at_spec(tokens, 1) == Shape::Paren {
            2
        } else {
            1
        }
    } else {
        0
    }
}

/// The head of a definition, given what the parser said of the text of its
/// visibility: the visibility, the name, a comma, and behind them the
/// template. Each part that is missed is an error of syntax at its place.
pub open spec fn args_accepted(
    tokens: Seq<TokenView>,
    visibility_ok: bool,
) -> Result<ArgsView, SchemaError> {
    let n = visibility_len(tokens);
    if !visibility_ok {
        Err(SchemaError::new(ErrorKind::Syntax, position_at(tokens, 0)))
    } else if shape_at_spec(tokens, n) != Shape::Name {
        Err(SchemaError::new(ErrorKind::Syntax, position_at(tokens, n)))
    } else if shape_at_spec(tokens, n + 1) != Shape::Comma {
        Err(SchemaError::new(ErrorKind::Syntax, position_at(tokens, n + 1)))
    } else {
        Ok(
            ArgsView {
                viz: tokens_text(tokens.take(n)),
                ident: tokens[n].text(),
                stream: tokens.skip(n + 2),
            },
        )
    }
}

/// The head of a definition. A visibility that is nested deeper than
/// [`MAX_DEPTH`] is an error at the group that is too deep, one whose text
/// may not be read is an error at the first token; else the visibility is
/// put to the parser.
pub open spec fn args_spec(tokens: Seq<TokenView>) -> Result<ArgsView, SchemaError> {
    match first_too_deep(tokens, 0, visibility_len(tokens), MAX_DEPTH as nat) {
        Some(pos) => Err(SchemaError::new(ErrorKind::DepthExceeded, pos)),
        None => if !may_be_read(tokens_text(tokens.take(visibility_len(tokens)))) {
            Err(SchemaError::new(ErrorKind::DepthExceeded, position_at(tokens, 0)))
        } else {
            args_accepted(
                tokens,
                parses_as_visibility(tokens_text(tokens.take(visibility_len(tokens)))),
            )
        },
    }
}

/// Whether the head that was read is what the grammar gives.
pub open spec fn args_match(
    found: Result<QuoteParseArgs, SchemaError>,
    given: Result<ArgsView, SchemaError>,
) -> bool {
    match found {
        Ok(a) => given == Ok::<ArgsView, SchemaError>(a@),
        Err(e) => given == Err::<ArgsView, SchemaError>(e),
    }
}

/// How many tokens the visibility at the head of `tokens` takes.
pub fn visibility_tokens(tokens: &Vec<Token>) -> (n: usize)
    ensures
        n == visibility_len(tokens_view(tokens@)),
        n <= tokens.len(),
{
    if tokens.len() == 0 {
        return 0;
    }
    let public = match &tokens[0] {
        Token::Ident { text, pos } => is_word(text, "pub"),
        _ => false,
    };
    if !public {
        0
    } else if shape_at(tokens, 1) == Shape::Paren {
        2
    } else {
        1
    }
}

impl QuoteParseArgs {
    /// The head of a definition, given what the parser said of the text of
    /// its visibility, which is nested no deeper than the compiler follows.
    pub fn accept(tokens: Vec<Token>, visibility_ok: bool) -> (args: Result<
        QuoteParseArgs,
        SchemaError,
    >)
        requires
            shallow(tokens_view(tokens@), 0, visibility_len(tokens_view(tokens@))),
        ensures
            args_match(args, args_accepted(tokens_view(tokens@), visibility_ok)),
    {
        let n = visibility_tokens(&tokens);
        proof {
            lemma_part_shallow(tokens_view(tokens@), 0, n as int, 0, n as int);
        }
        if !visibility_ok {
            return Err(SchemaError::new(ErrorKind::Syntax, position_of(&tokens, 0)));
        }
        if shape_at(&tokens, n) != Shape::Name {
            return Err(SchemaError::new(ErrorKind::Syntax, position_of(&tokens, n)));
        }
        if shape_at(&tokens, n + 1) != Shape::Comma {
            return Err(SchemaError::new(ErrorKind::Syntax, position_of(&tokens, n + 1)));
        }
        let head = copy_range(&tokens, 0, n);
        let ident = tokens[n].text();
        let ghost all = tokens_view(tokens@);
        let mut tokens = tokens;
        let stream = tokens.split_off(n + 2);
        assert(tokens_view(stream@) =~= all.skip(n + 2));
        Ok(QuoteParseArgs { viz: render(&head), ident, stream })
    }

    /// Reads the head of a definition: `pub Name, template..`.
    pub fn parse(tokens: Vec<Token>) -> (args: Result<QuoteParseArgs, SchemaError>)
        ensures
            args_match(args, args_spec(tokens_view(tokens@))),
    {
        let n = visibility_tokens(&tokens);
        match too_deep(&tokens, 0, n, MAX_DEPTH) {
            Some(pos) => {
                return Err(SchemaError::new(ErrorKind::DepthExceeded, pos));
            },
            None => {},
        }
        proof {
            lemma_part_shallow(tokens_view(tokens@), 0, n as int, 0, n as int);
        }
        let head = copy_range(&tokens, 0, n);
        let text = render(&head);
        if !readable(text.as_str()) {
            return Err(SchemaError::new(ErrorKind::DepthExceeded, position_of(&tokens, 0)));
        }
        let visibility_ok = is_visibility(text.as_str());
        QuoteParseArgs::accept(tokens, visibility_ok)
    }
}

/// A compiled definition: the type to define, and what its template
/// compiles to.
#[derive(Debug, PartialEq, Eq)]
pub struct Definition {
    pub viz: String,
    pub ident: String,
    pub compiled: Compiled,
}

/// The mathematical value of a [`Definition`].
pub struct DefinitionView {
    pub viz: Seq<char>,
    pub ident: Seq<char>,
    pub compiled: CompiledView,
}

impl View for Definition {
    type V = DefinitionView;

    open spec fn view(&self) -> DefinitionView {
        DefinitionView { viz: self.viz@, ident: self.ident@, compiled: self.compiled@ }
    }
}

/// What the definition with the head `args` comes to: its template is
/// compiled, and the head is kept.
pub open spec fn definition_of(args: ArgsView) -> Result<DefinitionView, SchemaError> {
    match compile_spec(args.stream) {
        Err(e) => Err(e),
        Ok(compiled) => Ok(DefinitionView { viz: args.viz, ident: args.ident, compiled }),
    }
}

/// What the definition `tokens` comes to: the head is read, then the
/// template compiled; the first error is the result.
pub open spec fn definition_spec(tokens: Seq<TokenView>) -> Result<DefinitionView, SchemaError> {
    match args_spec(tokens) {
        Err(e) => Err(e),
        Ok(args) => definition_of(args),
    }
}

/// Whether a definition came to what the grammar gives.
pub open spec fn definition_matches(
    found: Result<Definition, SchemaError>,
    given: Result<DefinitionView, SchemaError>,
) -> bool {
    match found {
        Ok(d) => given == Ok::<DefinitionView, SchemaError>(d@),
        Err(e) => given == Err::<DefinitionView, SchemaError>(e),
    }
}

/// Compiles a definition, `pub Name, template..`: reads the head, compiles
/// the template behind it, and gives both, or the first error.
pub fn quote_parse_internal(tokens: Vec<Token>) -> (done: Result<Definition, SchemaError>)
    ensures
        definition_matches(done, definition_spec(tokens_view(tokens@))),
{
    let args = match QuoteParseArgs::parse(tokens) {
        Err(e) => {
            return Err(e);
        },
        Ok(args) => args,
    };
    let QuoteParseArgs { viz, ident, stream } = args;
    match walk_token_stream(&stream) {
        Err(e) => Err(e),
        Ok(compiled) => Ok(Definition { viz, ident, compiled }),
    }
}

/// An error as it is shown: the sentence for its kind, and its place.
#[derive(Debug, PartialEq, Eq)]
pub struct Diagnostic {
    pub message: String,
    pub pos: Position,
}

/// Compiles a definition, `pub Name, template..`. Gives the definition, or
/// in its place the one error as it is to be shown: the sentence for its
/// kind at its position.
pub fn quote_parse(tokens: Vec<Token>) -> (done: Result<Definition, Diagnostic>)
    ensures
        match done {
            Ok(d) => definition_spec(tokens_view(tokens@)) == Ok::<DefinitionView, SchemaError>(
                d@,
            ),
            Err(shown) => {
                &&& definition_spec(tokens_view(tokens@)) is Err
                &&& shown.message@ == definition_spec(
                    tokens_view(tokens@),
                )->Err_0.kind.sentence()
                &&& shown.pos == definition_spec(tokens_view(tokens@))->Err_0.pos
            },
        },
{
    match quote_parse_internal(tokens) {
        Ok(definition) => Ok(definition),
        Err(e) => Err(Diagnostic { message: e.message(), pos: e.pos }),
    }
}

} // verus!
