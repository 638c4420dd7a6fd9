use quote_parse::recognizer::{
    classify, is_word, punct_shape, recognize, shape_at, shape_of, word_shape, Construct, Shape,
};
use quote_parse::token::{Delimiter, Position, Token};

fn at(offset: usize) -> Position {
    Position { offset }
}

fn word(text: &str, offset: usize) -> Token {
    Token::Ident { text: text.to_string(), pos: at(offset) }
}

fn punct(ch: char, offset: usize) -> Token {
    Token::Punct { ch, joint: false, pos: at(offset) }
}

fn literal(text: &str, offset: usize) -> Token {
    Token::Literal { text: text.to_string(), pos: at(offset) }
}

fn group(delimiter: Delimiter, children: Vec<Token>, offset: usize) -> Token {
    Token::Group { delimiter, children, pos: at(offset) }
}

const SHAPES: [Shape; 17] = [
    Shape::Name,
    Shape::If,
    Shape::Else,
    Shape::As,
    Shape::Word,
    Shape::Marker,
    Shape::Question,
    Shape::Colon,
    Shape::Comma,
    Shape::Star,
    Shape::Punct,
    Shape::Paren,
    Shape::Brace,
    Shape::Bracket,
    Shape::Invisible,
    Shape::Literal,
    Shape::End,
];

#[test]
fn words_have_their_shapes() {
    assert_eq!(shape_of(&word("field", 0)), Shape::Name);
    assert_eq!(shape_of(&word("_comma2", 0)), Shape::Name);
    assert_eq!(shape_of(&word("r#type", 0)), Shape::Name);
    assert_eq!(shape_of(&word("if", 0)), Shape::If);
    assert_eq!(shape_of(&word("else", 0)), Shape::Else);
    assert_eq!(shape_of(&word("as", 0)), Shape::As);
    assert_eq!(shape_of(&word("fn", 0)), Shape::Word);
    assert_eq!(shape_of(&word("pub", 0)), Shape::Word);
    assert_eq!(shape_of(&word("true", 0)), Shape::Word);
    assert_eq!(shape_of(&word("self", 0)), Shape::Word);
    assert_eq!(shape_of(&word("_", 0)), Shape::Word);
    assert_eq!(shape_of(&word("", 0)), Shape::Word);
    assert_eq!(shape_of(&word("two words", 0)), Shape::Word);
}

#[test]
fn word_shape_follows_the_parser_but_for_the_grammar_words() {
    for accepted in [true, false] {
        assert_eq!(word_shape(&"if".to_string(), accepted), Shape::If);
        assert_eq!(word_shape(&"else".to_string(), accepted), Shape::Else);
        assert_eq!(word_shape(&"as".to_string(), accepted), Shape::As);
    }
    assert_eq!(word_shape(&"x".to_string(), true), Shape::Name);
    assert_eq!(word_shape(&"x".to_string(), false), Shape::Word);
}

#[test]
fn is_word_compares_whole_texts() {
    assert!(is_word(&"doc".to_string(), "doc"));
    assert!(!is_word(&"docs".to_string(), "doc"));
    assert!(!is_word(&"do".to_string(), "doc"));
    assert!(!is_word(&"".to_string(), "doc"));
}

#[test]
fn punctuation_has_its_shapes() {
    assert_eq!(punct_shape('#'), Shape::Marker);
    assert_eq!(punct_shape('?'), Shape::Question);
    assert_eq!(punct_shape(':'), Shape::Colon);
    assert_eq!(punct_shape(','), Shape::Comma);
    assert_eq!(punct_shape('*'), Shape::Star);
    assert_eq!(punct_shape('+'), Shape::Punct);
    assert_eq!(punct_shape('.'), Shape::Punct);
    assert_eq!(shape_of(&punct('#', 0)), Shape::Marker);
    assert_eq!(shape_of(&Token::Punct { ch: '*', joint: true, pos: at(0) }), Shape::Star);
}

#[test]
fn groups_and_literals_have_their_shapes() {
    assert_eq!(shape_of(&group(Delimiter::Parenthesis, vec![], 0)), Shape::Paren);
    assert_eq!(shape_of(&group(Delimiter::Brace, vec![], 0)), Shape::Brace);
    assert_eq!(shape_of(&group(Delimiter::Bracket, vec![], 0)), Shape::Bracket);
    assert_eq!(shape_of(&group(Delimiter::Invisible, vec![], 0)), Shape::Invisible);
    assert_eq!(shape_of(&literal("1", 0)), Shape::Literal);
}

#[test]
fn shape_behind_the_last_token_is_end() {
    let tokens = vec![word("a", 0), punct(',', 1)];
    assert_eq!(shape_at(&tokens, 0), Shape::Name);
    assert_eq!(shape_at(&tokens, 1), Shape::Comma);
    assert_eq!(shape_at(&tokens, 2), Shape::End);
    assert_eq!(shape_at(&tokens, usize::MAX), Shape::End);
    assert_eq!(shape_at(&Vec::new(), 0), Shape::End);
}

#[test]
fn lookahead_table_names_each_construct() {
    let any = Shape::End;
    assert_eq!(classify(Shape::Name, any, any, any), Construct::PlainBinding);
    assert_eq!(classify(Shape::Brace, any, Shape::Name, Shape::Colon), Construct::TypedBinding);
    assert_eq!(classify(Shape::Brace, any, Shape::Name, Shape::As), Construct::TypedBinding);
    assert_eq!(classify(Shape::Brace, any, Shape::Name, Shape::Comma), Construct::AllRequiredGroup);
    assert_eq!(classify(Shape::Brace, any, Shape::Word, Shape::Colon), Construct::AllRequiredGroup);
    assert_eq!(classify(Shape::Brace, any, Shape::End, Shape::End), Construct::AllRequiredGroup);
    assert_eq!(classify(Shape::Paren, any, any, any), Construct::Repetition);
    assert_eq!(classify(Shape::Bracket, any, any, any), Construct::Documentation);
    assert_eq!(classify(Shape::Question, Shape::Name, any, any), Construct::OptionalPlainBinding);
    assert_eq!(classify(Shape::Question, Shape::Brace, any, any), Construct::OptionalTypedBinding);
    assert_eq!(classify(Shape::Question, Shape::Bracket, any, any), Construct::OptionalBracketGroup);
    assert_eq!(classify(Shape::Question, Shape::If, any, any), Construct::ConditionalChain);
}

#[test]
fn lookahead_table_knows_nothing_else() {
    let known_first = [Shape::Name, Shape::Brace, Shape::Paren, Shape::Bracket, Shape::Question];
    let known_second = [Shape::Name, Shape::Brace, Shape::Bracket, Shape::If];
    for first in SHAPES {
        for second in SHAPES {
            let construct = classify(first, second, Shape::End, Shape::End);
            if !known_first.contains(&first) {
                assert_eq!(construct, Construct::Unknown);
            }
            if first == Shape::Question && !known_second.contains(&second) {
                assert_eq!(construct, Construct::Unknown);
            }
            if first != Shape::Question {
                assert_eq!(construct, classify(first, Shape::End, Shape::End, Shape::End));
            }
        }
    }
}

#[test]
fn recognizer_reads_at_most_the_tokens_it_needs() {
    let plain = vec![punct('#', 0), word("x", 1), literal("5", 2)];
    assert_eq!(recognize(&plain, 0), Construct::PlainBinding);
    let typed = vec![
        punct('#', 0),
        group(Delimiter::Brace, vec![word("x", 2), punct(':', 3), word("T", 4)], 1),
    ];
    assert_eq!(recognize(&typed, 0), Construct::TypedBinding);
    let required = vec![
        punct('#', 0),
        group(Delimiter::Brace, vec![word("x", 2), punct('#', 3), word("y", 4)], 1),
    ];
    assert_eq!(recognize(&required, 0), Construct::AllRequiredGroup);
    let chain = vec![punct('#', 0), punct('?', 1), word("if", 2)];
    assert_eq!(recognize(&chain, 0), Construct::ConditionalChain);
    let keyword = vec![punct('#', 0), word("match", 1)];
    assert_eq!(recognize(&keyword, 0), Construct::Unknown);
    let alone = vec![word("a", 0), punct('#', 1)];
    assert_eq!(recognize(&alone, 1), Construct::Unknown);
    let doubled = vec![punct('#', 0), punct('#', 1), word("x", 2)];
    assert_eq!(recognize(&doubled, 0), Construct::Unknown);
    assert_eq!(recognize(&doubled, 1), Construct::PlainBinding);
    let optional_end = vec![punct('#', 0), punct('?', 1)];
    assert_eq!(recognize(&optional_end, 0), Construct::Unknown);
}
