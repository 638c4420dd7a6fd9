use proc_macro2::{Delimiter as StreamDelimiter, Spacing, TokenStream, TokenTree};
use quote_parse::compiler::{walk_token_stream, Compiled};
use quote_parse::depth::{MAX_DEPTH, MAX_WEIGHT};
use quote_parse::error::{ErrorKind, SchemaError};
use quote_parse::recognizer::Construct;
use quote_parse::render::render;
use quote_parse::schema::{FieldDecl, FieldKind, Guard};
use quote_parse::token::{copy_token, copy_tokens, Delimiter, Position, Token};

fn convert(stream: TokenStream, next: &mut usize) -> Vec<Token> {
    let mut out = Vec::new();
    for tree in stream {
        let pos = Position { offset: *next };
        *next += 1;
        match tree {
            TokenTree::Group(group) => {
                let delimiter = match group.delimiter() {
                    StreamDelimiter::Parenthesis => Delimiter::Parenthesis,
                    StreamDelimiter::Brace => Delimiter::Brace,
                    StreamDelimiter::Bracket => Delimiter::Bracket,
                    StreamDelimiter::None => Delimiter::Invisible,
                };
                let children = convert(group.stream(), next);
                out.push(Token::Group { delimiter, children, pos });
            }
            TokenTree::Ident(ident) => out.push(Token::Ident { text: ident.to_string(), pos }),
            TokenTree::Punct(punct) => out.push(Token::Punct {
                ch: punct.as_char(),
                joint: punct.spacing() == Spacing::Joint,
                pos,
            }),
            TokenTree::Literal(literal) => {
                out.push(Token::Literal { text: literal.to_string(), pos })
            }
        }
    }
    out
}

/// The tokens of `text`, numbered in the order of the text.
fn template(text: &str) -> Vec<Token> {
    let stream: TokenStream = text.parse().unwrap();
    let mut next = 0;
    convert(stream, &mut next)
}

fn compile(text: &str) -> Result<Compiled, SchemaError> {
    walk_token_stream(&template(text))
}

fn collect_words(tokens: &[Token], word: &str, out: &mut Vec<Position>) {
    for token in tokens {
        match token {
            Token::Ident { text, pos } if text == word => out.push(*pos),
            Token::Group { children, .. } => collect_words(children, word, out),
            _ => {}
        }
    }
}

fn collect_puncts(tokens: &[Token], mark: char, out: &mut Vec<Position>) {
    for token in tokens {
        match token {
            Token::Punct { ch, pos, .. } if *ch == mark => out.push(*pos),
            Token::Group { children, .. } => collect_puncts(children, mark, out),
            _ => {}
        }
    }
}

/// The position of the `nth` occurrence of the word `word` in `text`,
/// counted from zero.
fn word_at(text: &str, word: &str, nth: usize) -> Position {
    let mut found = Vec::new();
    collect_words(&template(text), word, &mut found);
    found[nth]
}

/// The position of the `nth` marker in `text`, counted from zero.
fn marker_at(text: &str, nth: usize) -> Position {
    let mut found = Vec::new();
    collect_puncts(&template(text), '#', &mut found);
    found[nth]
}

fn field(name: &str, kind: FieldKind) -> FieldDecl {
    FieldDecl { name: name.to_string(), kind, guard: None, internal: false, doc: None }
}

fn plain(ty: &str) -> FieldKind {
    FieldKind::Plain(ty.to_string())
}

fn optional(ty: &str) -> FieldKind {
    FieldKind::Optional(ty.to_string())
}

fn repeated(ty: &str) -> FieldKind {
    FieldKind::Repeated(ty.to_string())
}

fn when(field: FieldDecl, guard: &str) -> FieldDecl {
    FieldDecl { guard: Some(Guard::When(guard.to_string())), ..field }
}

fn present(field: FieldDecl, token: &str) -> FieldDecl {
    FieldDecl { guard: Some(Guard::Present(token.to_string())), ..field }
}

fn internal(field: FieldDecl) -> FieldDecl {
    FieldDecl { internal: true, ..field }
}

fn documented(field: FieldDecl, doc: &str) -> FieldDecl {
    FieldDecl { doc: Some(doc.to_string()), ..field }
}

fn fails(text: &str, kind: ErrorKind, pos: Position) {
    let error = compile(text).unwrap_err();
    assert_eq!((error.kind, error.pos), (kind, pos), "{}", text);
}

fn fails_in(text: &str, construct: Construct) {
    assert_eq!(compile(text).unwrap_err().construct, Some(construct), "{}", text);
}

const IDENT: &str = "syn :: Ident";

#[test]
fn template_without_markers_is_echoed_unchanged() {
    let tokens = template("struct Something { field1 : u32 , field2 : ( u32 , [ u8 ; 4 ] ) , }");
    let compiled = walk_token_stream(&tokens).unwrap();
    assert!(compiled.schema.fields.is_empty());
    assert!(compiled.schema.internal_fields.is_empty());
    assert!(compiled.repetitions.is_empty());
    assert_eq!(compiled.echo, tokens);
}

#[test]
fn empty_template_gives_empty_schema() {
    let compiled = compile("").unwrap();
    assert!(compiled.schema.fields.is_empty());
    assert!(compiled.schema.internal_fields.is_empty());
    assert!(compiled.echo.is_empty());
}

#[test]
fn plain_binding_declares_one_plain_field_of_default_type() {
    let compiled = compile("#ident").unwrap();
    assert_eq!(compiled.schema.fields, vec![field("ident", plain(IDENT))]);
    assert!(compiled.schema.internal_fields.is_empty());
    assert!(compiled.echo.is_empty());
}

#[test]
fn typed_binding_declares_plain_field_of_declared_type() {
    let compiled = compile("#{x : T}").unwrap();
    assert_eq!(compiled.schema.fields, vec![field("x", plain("T"))]);
}

#[test]
fn typed_binding_accepts_as_form() {
    let compiled = compile("#{x as Vec<T>}").unwrap();
    assert_eq!(compiled.schema.fields, vec![field("x", plain("Vec < T >"))]);
}

#[test]
fn typed_binding_with_written_default_type_equals_plain_binding() {
    let typed = compile("#{x : syn::Ident}").unwrap();
    let bare = compile("#x").unwrap();
    assert_eq!(typed.schema, bare.schema);
}

#[test]
fn typed_binding_with_bad_type_is_syntax_error() {
    fails("a #{x : 1 +}", ErrorKind::Syntax, marker_at("a #{x : 1 +}", 0));
    fails("#{x : }", ErrorKind::Syntax, Position { offset: 0 });
    fails("#{x : T, if: true}", ErrorKind::Syntax, Position { offset: 0 });
}

#[test]
fn bindings_between_other_tokens_leave_those_in_the_echo() {
    let compiled = compile("fn #name ( #args ) ;").unwrap();
    assert_eq!(
        compiled.schema.fields,
        vec![field("name", plain(IDENT)), field("args", plain(IDENT))]
    );
    assert_eq!(render(&compiled.echo), "fn () ;");
    match &compiled.echo[1] {
        Token::Group { delimiter, children, pos } => {
            assert_eq!(*delimiter, Delimiter::Parenthesis);
            assert!(children.is_empty());
            assert_eq!(*pos, Position { offset: 3 });
        }
        other => panic!("{:?}", other),
    }
}

#[test]
fn repetition_declares_one_repeated_field() {
    let compiled = compile("#( pre #{x:T} suf ) sep *").unwrap();
    assert_eq!(compiled.schema.fields, vec![field("x", repeated("T"))]);
    assert_eq!(compiled.repetitions.len(), 1);
    let rep = &compiled.repetitions[0];
    assert_eq!(render(&rep.prefix), "pre");
    assert_eq!(render(&rep.suffix), "suf");
    assert_eq!(render(&rep.separator), "sep");
    assert_eq!(rep.variable, field("x", plain("T")));
    assert!(compiled.echo.is_empty());
}

#[test]
fn repetition_keeps_its_tokens_unmodified() {
    let tokens = template("#( [ a ] #x ( b ) ) , ; * rest");
    let compiled = walk_token_stream(&tokens).unwrap();
    let rep = &compiled.repetitions[0];
    let body = match &tokens[1] {
        Token::Group { children, .. } => children,
        other => panic!("{:?}", other),
    };
    assert_eq!(rep.prefix, vec![copy_token(&body[0])]);
    assert_eq!(rep.suffix, vec![copy_token(&body[3])]);
    assert_eq!(rep.separator, vec![copy_token(&tokens[2]), copy_token(&tokens[3])]);
    assert_eq!(compiled.schema.fields, vec![field("x", repeated(IDENT))]);
    assert_eq!(render(&compiled.echo), "rest");
}

#[test]
fn repetition_without_separator_is_accepted() {
    let compiled = compile("#(#{item: Stmt})*").unwrap();
    assert_eq!(compiled.schema.fields, vec![field("item", repeated("Stmt"))]);
    assert!(compiled.repetitions[0].prefix.is_empty());
    assert!(compiled.repetitions[0].suffix.is_empty());
    assert!(compiled.repetitions[0].separator.is_empty());
}

#[test]
fn second_binding_in_repetition_is_rejected() {
    let text = "#( pre #{x:T} suf #y ) sep *";
    fails(text, ErrorKind::MultipleBindingInRepetition, marker_at(text, 2));
    let text = "#( #x #x ) *";
    fails(text, ErrorKind::MultipleBindingInRepetition, marker_at(text, 2));
}

#[test]
fn repetition_without_binding_or_star_is_syntax_error() {
    fails("#( pre suf ) , *", ErrorKind::Syntax, Position { offset: 0 });
    fails("a #( #x ) ,", ErrorKind::Syntax, Position { offset: 1 });
    fails("#( # 5 ) *", ErrorKind::Syntax, marker_at("#( # 5 ) *", 1));
    fails("#( #{x: } ) *", ErrorKind::Syntax, marker_at("#( #{x: } ) *", 1));
}

#[test]
fn optional_bindings_declare_optional_fields() {
    let compiled = compile("#?a #?{b: Path}").unwrap();
    assert_eq!(
        compiled.schema.fields,
        vec![field("a", optional(IDENT)), field("b", optional("Path"))]
    );
}

#[test]
fn optional_typed_binding_takes_its_guard() {
    let compiled = compile("#?{a: Token![,]} #?{b: Path, if: a.is_some()}").unwrap();
    assert_eq!(
        compiled.schema.fields,
        vec![
            field("a", optional("Token ! [,]")),
            when(field("b", optional("Path")), "a . is_some ()"),
        ]
    );
}

#[test]
fn optional_typed_binding_with_bad_guard_is_syntax_error() {
    fails("#?{b: Path, if: }", ErrorKind::Syntax, Position { offset: 0 });
    fails("#?{b: Path, if: + }", ErrorKind::Syntax, Position { offset: 0 });
    fails("#?{b Path}", ErrorKind::Syntax, Position { offset: 0 });
    fails("#?{b: }", ErrorKind::Syntax, Position { offset: 0 });
}

#[test]
fn conditional_body_fields_are_optional_under_the_guard() {
    let compiled = compile("#?{a:T} then #? if a.is_some() { #{b:U} }").unwrap();
    assert_eq!(
        compiled.schema.fields,
        vec![field("a", optional("T")), when(field("b", optional("U")), "a . is_some ()")]
    );
    assert_eq!(render(&compiled.echo), "then");
}

#[test]
fn guard_before_declaration_is_forward_reference() {
    let text = "#? if a.is_some() { #{b:U} } then #?{a:T}";
    fails(text, ErrorKind::ForwardReference, word_at(text, "a", 0));
}

#[test]
fn guard_on_name_declared_later_in_a_group_is_forward_reference() {
    let text = "#?{x: T, if: a.is_some()} ( #a )";
    fails(text, ErrorKind::ForwardReference, word_at(text, "a", 0));
    let text = "( #?{x: T, if: a.is_some()} ) #a";
    fails(text, ErrorKind::ForwardReference, word_at(text, "a", 0));
}

#[test]
fn guard_on_its_own_field_is_forward_reference() {
    let text = "#?{a: T, if: a.is_some()}";
    fails(text, ErrorKind::ForwardReference, word_at(text, "a", 1));
    let text = "#? if b.is_some() { #b }";
    fails(text, ErrorKind::ForwardReference, word_at(text, "b", 0));
}

#[test]
fn guard_on_unknown_name_is_undeclared_reference() {
    let text = "#?{a:T} #? if c.is_some() { #{b:U} }";
    fails(text, ErrorKind::UndeclaredGuardReference, word_at(text, "c", 0));
}

#[test]
fn guard_cannot_cite_field_of_nested_scope() {
    let text = "( #a ) #?{x: T, if: a.is_some()}";
    fails(text, ErrorKind::UndeclaredGuardReference, word_at(text, "a", 1));
    let text = "#?[ #a ] #?{x: T, if: a.is_some()}";
    fails(text, ErrorKind::UndeclaredGuardReference, word_at(text, "a", 1));
}

#[test]
fn guard_cannot_cite_field_of_sibling_branch() {
    let text = "#?c #? if c.is_some() { #a } else { #?{b: U, if: a.is_some()} }";
    fails(text, ErrorKind::UndeclaredGuardReference, word_at(text, "a", 1));
}

#[test]
fn guard_can_cite_field_of_enclosing_scope() {
    let compiled = compile("#?c ( #?{d: U, if: c.is_some()} [ #? if c.is_none() { #e } ] )").unwrap();
    assert_eq!(
        compiled.schema.fields,
        vec![
            field("c", optional(IDENT)),
            when(field("d", optional("U")), "c . is_some ()"),
            when(field("e", optional(IDENT)), "c . is_none ()"),
        ]
    );
}

#[test]
fn guard_names_are_checked_in_order_of_the_text() {
    let text = "#?a #?{x: T, if: a.is_some() && (b.len() > c::d(e))}";
    fails(text, ErrorKind::UndeclaredGuardReference, word_at(text, "b", 0));
    let text = "#?a #?b #?{x: T, if: a.is_some() && (b.len() > c::d(e))} #e";
    fails(text, ErrorKind::ForwardReference, word_at(text, "e", 0));
}

#[test]
fn guard_may_call_methods_paths_and_functions() {
    let compiled = compile("#?a #?{x: T, if: check(a) && a.is_some() && a == Kind::Of(1) && true}");
    assert_eq!(
        compiled.unwrap().schema.fields[1],
        when(
            field("x", optional("T")),
            "check (a) && a . is_some () && a == Kind :: Of (1) && true"
        )
    );
}

#[test]
fn guard_on_remaining_input_is_undeclared_reference() {
    let text = "#?{something: Path, if: input.peek(Path)}";
    fails(text, ErrorKind::UndeclaredGuardReference, word_at(text, "input", 0));
}

#[test]
fn else_branches_are_guarded_by_the_failed_conditions() {
    let compiled = compile(
        "#?a #?b #? if a.is_some() { #x } else if b.is_some() { #y } else if a == b { #w } else { #z }",
    )
    .unwrap();
    assert_eq!(
        compiled.schema.fields,
        vec![
            field("a", optional(IDENT)),
            field("b", optional(IDENT)),
            when(field("x", optional(IDENT)), "a . is_some ()"),
            when(field("y", optional(IDENT)), "!(a . is_some ()) && (b . is_some ())"),
            when(
                field("w", optional(IDENT)),
                "!(a . is_some ()) && !(b . is_some ()) && (a == b)"
            ),
            when(
                field("z", optional(IDENT)),
                "!(a . is_some ()) && !(b . is_some ()) && !(a == b)"
            ),
        ]
    );
    assert!(compiled.echo.is_empty());
}

#[test]
fn conditional_chain_goes_on_behind_its_last_body() {
    let compiled = compile("#?a #? if a.is_some() { #x } else { #y } tail #z").unwrap();
    assert_eq!(compiled.schema.fields.len(), 4);
    assert_eq!(compiled.schema.fields[3], field("z", plain(IDENT)));
    assert_eq!(render(&compiled.echo), "tail");
}

#[test]
fn field_keeps_its_own_guard_inside_a_branch() {
    let compiled =
        compile("#?a #?b #? if a.is_some() { #?{x: T, if: b.is_some()} #y }").unwrap();
    assert_eq!(
        compiled.schema.fields[2..],
        [
            when(field("x", optional("T")), "b . is_some ()"),
            when(field("y", optional(IDENT)), "a . is_some ()"),
        ]
    );
}

#[test]
fn malformed_conditional_chain_is_syntax_error() {
    fails("#?a #? if { #x }", ErrorKind::Syntax, marker_at("#?a #? if { #x }", 1));
    fails("#?a #? if a.is_some()", ErrorKind::Syntax, marker_at("#?a #? if a.is_some()", 1));
    fails("#?a #? if a + { #x }", ErrorKind::Syntax, marker_at("#?a #? if a + { #x }", 1));
    let text = "#?a #? if a.is_some() { #x } else 5";
    fails(text, ErrorKind::Syntax, marker_at(text, 1));
    let text = "x #?a #? if a.is_some() { #x } else";
    fails(text, ErrorKind::Syntax, marker_at(text, 1));
}

#[test]
fn error_inside_a_branch_body_is_reported_at_its_place() {
    let text = "#?a #? if a.is_some() { #x } else { # 5 }";
    fails(text, ErrorKind::Syntax, marker_at(text, 3));
}

#[test]
fn bracket_group_fields_are_optional_under_the_first_token() {
    let compiled = compile("fn #name #?[-> #{return_type: TypePath} #?{extra: T, if: name.is_some()}] ;").unwrap();
    assert_eq!(
        compiled.schema.fields,
        vec![
            field("name", plain(IDENT)),
            present(field("return_type", optional("TypePath")), "->"),
            when(field("extra", optional("T")), "name . is_some ()"),
        ]
    );
    assert_eq!(render(&compiled.echo), "fn ;");
}

#[test]
fn empty_bracket_group_declares_nothing() {
    let compiled = compile("a #?[] b").unwrap();
    assert!(compiled.schema.fields.is_empty());
    assert_eq!(render(&compiled.echo), "a b");
}

#[test]
fn all_required_group_guards_what_is_not_optional_by_itself() {
    let compiled = compile("#{ where #x #?y #(#z),* #?{w: T, if: x.is_some()} }").unwrap();
    assert_eq!(
        compiled.schema.fields,
        vec![
            present(field("x", optional(IDENT)), "where"),
            field("y", optional(IDENT)),
            present(field("z", optional(IDENT)), "where"),
            when(field("w", optional("T")), "x . is_some ()"),
        ]
    );
    assert_eq!(compiled.repetitions.len(), 1);
    assert_eq!(compiled.repetitions[0].variable, field("z", plain(IDENT)));
}

#[test]
fn plain_group_keeps_fields_as_declared() {
    let compiled = compile("( #a [ #{b: T} { #?c #(#d)* } ] )").unwrap();
    assert_eq!(
        compiled.schema.fields,
        vec![
            field("a", plain(IDENT)),
            field("b", plain("T")),
            field("c", optional(IDENT)),
            field("d", repeated(IDENT)),
        ]
    );
    assert_eq!(render(&compiled.echo), "([{}])");
}

#[test]
fn field_of_plain_group_inside_a_branch_is_optional() {
    let compiled = compile("#?a #? if a.is_some() { ( #x ) }").unwrap();
    assert_eq!(
        compiled.schema.fields[1],
        when(field("x", optional(IDENT)), "a . is_some ()")
    );
}

#[test]
fn inner_guard_wins_over_outer_guard() {
    let compiled = compile("#?a #?[ open #? if a.is_some() { #x } #y ]").unwrap();
    assert_eq!(
        compiled.schema.fields[1..],
        [
            when(field("x", optional(IDENT)), "a . is_some ()"),
            present(field("y", optional(IDENT)), "open"),
        ]
    );
}

#[test]
fn duplicate_name_is_rejected_at_second_occurrence() {
    fails("#x #x", ErrorKind::DuplicateField, word_at("#x #x", "x", 1));
    assert_eq!(word_at("#x #x", "x", 1), Position { offset: 3 });
}

#[test]
fn duplicate_name_is_rejected_across_scopes() {
    fails("#a ( #a )", ErrorKind::DuplicateField, word_at("#a ( #a )", "a", 1));
    fails("( #a ) #a", ErrorKind::DuplicateField, word_at("( #a ) #a", "a", 1));
    let text = "#?c #? if c.is_some() { #a } else { #a }";
    fails(text, ErrorKind::DuplicateField, word_at(text, "a", 1));
    fails("#a #(#{a: T}),*", ErrorKind::DuplicateField, word_at("#a #(#{a: T}),*", "a", 1));
    fails("#a #?a", ErrorKind::DuplicateField, word_at("#a #?a", "a", 1));
    fails("#a #?{a: T}", ErrorKind::DuplicateField, word_at("#a #?{a: T}", "a", 1));
}

#[test]
fn unknown_construct_is_syntax_error_at_the_marker() {
    fails("a b # 5", ErrorKind::Syntax, Position { offset: 2 });
    fails("#", ErrorKind::Syntax, Position { offset: 0 });
    fails("#? 5", ErrorKind::Syntax, Position { offset: 0 });
    fails("#?", ErrorKind::Syntax, Position { offset: 0 });
    fails("#fn", ErrorKind::Syntax, Position { offset: 0 });
    fails("#?else", ErrorKind::Syntax, Position { offset: 0 });
    fails("( x # , )", ErrorKind::Syntax, marker_at("( x # , )", 0));
    fails("#[derive(Debug)]", ErrorKind::Syntax, Position { offset: 0 });
}

#[test]
fn error_names_the_construct_in_which_it_arose() {
    fails_in("# 5", Construct::Unknown);
    fails_in("#x #x", Construct::PlainBinding);
    fails_in("#{x: 1 +}", Construct::TypedBinding);
    fails_in("#x #{x: T}", Construct::TypedBinding);
    fails_in("#(x)*", Construct::Repetition);
    fails_in("#(#x #y)*", Construct::Repetition);
    fails_in("#x #(#x)*", Construct::Repetition);
    fails_in("#x #?x", Construct::OptionalPlainBinding);
    fails_in("#?{x: T, if: y}", Construct::OptionalTypedBinding);
    fails_in("#?{x}", Construct::OptionalTypedBinding);
    fails_in("#? if y { }", Construct::ConditionalChain);
    fails_in("#? if { }", Construct::ConditionalChain);
    fails_in("#[derive(Debug)]", Construct::Documentation);
    fails_in("#?[ a # 5 ]", Construct::Unknown);
    fails_in("#{ a #x #x }", Construct::PlainBinding);
    fails_in("#?a #? if a.is_some() { #?{b: T, if: c} }", Construct::OptionalTypedBinding);
    fails_in("( [ #(x)* ] )", Construct::Repetition);
}

#[test]
fn first_error_in_walk_order_is_reported() {
    let text = "# 5 #x #x";
    fails(text, ErrorKind::Syntax, marker_at(text, 0));
    let text = "#x #x # 5";
    fails(text, ErrorKind::DuplicateField, word_at(text, "x", 1));
}

#[test]
fn documentation_goes_to_the_next_binding() {
    let compiled = compile(
        "#some_ident,\n/// docs about `path`\n#{path: Path},\n/// first \"line\"\n/// second line\n#?target #last",
    )
    .unwrap();
    assert_eq!(
        compiled.schema.fields,
        vec![
            field("some_ident", plain(IDENT)),
            documented(field("path", plain("Path")), " docs about `path`"),
            documented(field("target", optional(IDENT)), " first \"line\"\n second line"),
            field("last", plain(IDENT)),
        ]
    );
    assert_eq!(render(&compiled.echo), ", ,");
}

#[test]
fn documentation_goes_to_a_repetition_and_its_variable() {
    let compiled = compile("/// many\n#(#x),*").unwrap();
    assert_eq!(
        compiled.schema.fields,
        vec![documented(field("x", repeated(IDENT)), " many")]
    );
    assert_eq!(compiled.repetitions[0].variable, documented(field("x", plain(IDENT)), " many"));
}

#[test]
fn documentation_does_not_cross_scopes() {
    let compiled = compile("/// outer\n( #inner ) #next").unwrap();
    assert_eq!(
        compiled.schema.fields,
        vec![field("inner", plain(IDENT)), documented(field("next", plain(IDENT)), " outer")]
    );
}

#[test]
fn attribute_that_is_no_documentation_is_syntax_error() {
    fails("#[doc = 5] #x", ErrorKind::Syntax, Position { offset: 0 });
    fails("#[doc(hidden)] #x", ErrorKind::Syntax, Position { offset: 0 });
    fails("#[doc = \"a\" b] #x", ErrorKind::Syntax, Position { offset: 0 });
}

#[test]
fn names_with_underscore_go_to_the_internal_list() {
    let compiled = compile(
        "#{target: Path}#?{_comma2: Token![,]} #?{mm_path: Path, if: _comma2.is_some()} #?{_comma3: Token![,], if: mm_path.is_some()} #?{extra: LitStr, if: _comma3.is_some()}",
    )
    .unwrap();
    assert_eq!(
        compiled.schema.fields,
        vec![
            field("target", plain("Path")),
            when(field("mm_path", optional("Path")), "_comma2 . is_some ()"),
            when(field("extra", optional("LitStr")), "_comma3 . is_some ()"),
        ]
    );
    assert_eq!(
        compiled.schema.internal_fields,
        vec![
            internal(field("_comma2", optional("Token ! [,]"))),
            internal(when(field("_comma3", optional("Token ! [,]")), "mm_path . is_some ()")),
        ]
    );
}

#[test]
fn function_definition_template_compiles() {
    let text = "#{vis: Visibility} fn #ident(#args) #?[-> #{return_type: TypePath}] { #{stmts: Vec<Stmt>} }";
    let compiled = compile(text).unwrap();
    assert_eq!(
        compiled.schema.fields,
        vec![
            field("vis", plain("Visibility")),
            field("ident", plain(IDENT)),
            field("args", plain(IDENT)),
            present(field("return_type", optional("TypePath")), "->"),
            field("stmts", plain("Vec < Stmt >")),
        ]
    );
    assert_eq!(render(&compiled.echo), "fn () {}");
}

#[test]
fn same_template_compiles_to_same_schema() {
    let text = "#{vis: Visibility} fn #ident(#args) #?[-> #{return_type: TypePath}] { #(#{stmts: Stmt});* }";
    let first = compile(text);
    let second = compile(text);
    assert!(first.is_ok());
    assert_eq!(first, second);
    let text = "#a #? if b { #c }";
    assert_eq!(compile(text), compile(text));
    assert!(compile(text).is_err());
}

fn nested(depth: usize) -> Vec<Token> {
    let mut tokens = vec![Token::Ident { text: "x".to_string(), pos: Position { offset: depth } }];
    let mut level = depth;
    while level > 0 {
        level -= 1;
        tokens = vec![Token::Group {
            delimiter: Delimiter::Parenthesis,
            children: tokens,
            pos: Position { offset: level },
        }];
    }
    tokens
}

#[test]
fn nesting_up_to_the_limit_is_accepted() {
    let tokens = nested(MAX_DEPTH);
    let compiled = walk_token_stream(&tokens).unwrap();
    assert_eq!(compiled.echo, tokens);
}

#[test]
fn nesting_beyond_the_limit_is_rejected_at_the_first_group_too_deep() {
    assert_eq!(MAX_DEPTH, 64);
    let tokens = nested(MAX_DEPTH + 1);
    assert_eq!(
        walk_token_stream(&tokens).unwrap_err(),
        SchemaError {
            kind: ErrorKind::DepthExceeded,
            construct: None,
            pos: Position { offset: MAX_DEPTH },
        }
    );
    let mut tokens = template("a b");
    tokens.extend(nested(MAX_DEPTH + 3));
    tokens.extend(template("# 5"));
    assert_eq!(
        walk_token_stream(&tokens).unwrap_err(),
        SchemaError {
            kind: ErrorKind::DepthExceeded,
            construct: None,
            pos: Position { offset: MAX_DEPTH },
        }
    );
}

#[test]
fn error_before_a_group_too_deep_is_reported_first() {
    let mut tokens = template("# 5");
    tokens.extend(nested(MAX_DEPTH + 3));
    let error = walk_token_stream(&tokens).unwrap_err();
    assert_eq!((error.kind, error.pos), (ErrorKind::Syntax, Position { offset: 0 }));
}

/// `inner` wrapped in `levels` round groups.
fn wrapped(inner: Vec<Token>, levels: usize) -> Vec<Token> {
    let mut tokens = inner;
    for level in 0..levels {
        tokens = vec![Token::Group {
            delimiter: Delimiter::Parenthesis,
            children: tokens,
            pos: Position { offset: 1000 + level },
        }];
    }
    tokens
}

fn deep_error(tokens: &Vec<Token>) -> Option<(Option<Construct>, Position)> {
    match walk_token_stream(tokens) {
        Err(SchemaError { kind: ErrorKind::DepthExceeded, construct, pos }) => {
            Some((construct, pos))
        }
        Err(other) => panic!("{:?}", other),
        Ok(_) => None,
    }
}

#[test]
fn tokens_taken_whole_count_towards_the_depth() {
    let typed = |levels: usize| {
        let mut tokens = template("#{x: Vec<T>}");
        let inside = match tokens.pop() {
            Some(Token::Group { children, .. }) => children,
            other => panic!("{:?}", other),
        };
        let mut inner = template("x : ");
        inner.extend(wrapped(template("T"), levels));
        assert_eq!(inside.len(), 6);
        tokens.push(Token::Group {
            delimiter: Delimiter::Brace,
            children: inner,
            pos: Position { offset: 1 },
        });
        tokens
    };
    assert_eq!(deep_error(&typed(MAX_WEIGHT - 1)), None);
    assert_eq!(
        deep_error(&typed(MAX_WEIGHT)),
        Some((Some(Construct::TypedBinding), Position { offset: 0 }))
    );
    assert_eq!(
        deep_error(&typed(MAX_DEPTH - 1)),
        Some((Some(Construct::TypedBinding), Position { offset: 0 }))
    );
    assert_eq!(
        deep_error(&typed(MAX_DEPTH)),
        Some((Some(Construct::TypedBinding), Position { offset: 1000 }))
    );
    assert_eq!(deep_error(&wrapped(template("#{x: T}"), MAX_DEPTH - 1)), None);
    assert_eq!(
        deep_error(&wrapped(template("#{x: T}"), MAX_DEPTH)),
        Some((Some(Construct::TypedBinding), Position { offset: 1 }))
    );
    assert_eq!(deep_error(&wrapped(template("#x"), MAX_DEPTH)), None);
    assert_eq!(
        deep_error(&wrapped(template("#?{x: T}"), MAX_DEPTH)),
        Some((Some(Construct::OptionalTypedBinding), Position { offset: 2 }))
    );
    assert_eq!(
        deep_error(&wrapped(template("#(#x) , *"), MAX_DEPTH)),
        Some((Some(Construct::Repetition), Position { offset: 1 }))
    );
    assert_eq!(
        deep_error(&wrapped(template("#(#x) ( a ( b ) ) *"), MAX_DEPTH - 1)),
        Some((Some(Construct::Repetition), Position { offset: 6 }))
    );
    assert_eq!(deep_error(&wrapped(template("#(#x) ( a ( b ) ) *"), MAX_DEPTH - 2)), None);
    assert_eq!(
        deep_error(&wrapped(template("#?a #? if (a.is_some()) { }"), MAX_DEPTH)),
        Some((Some(Construct::ConditionalChain), Position { offset: 6 }))
    );
    assert_eq!(
        deep_error(&wrapped(template("#?a #? if a { }"), MAX_DEPTH)),
        Some((Some(Construct::ConditionalChain), Position { offset: 7 }))
    );
    assert_eq!(deep_error(&wrapped(template("#?a #? if (a) { ( ) }"), MAX_DEPTH - 2)), None);
    assert_eq!(
        deep_error(&wrapped(template("#?[ x ]"), MAX_DEPTH)),
        Some((Some(Construct::OptionalBracketGroup), Position { offset: 2 }))
    );
    assert_eq!(
        deep_error(&wrapped(template("#{ x }"), MAX_DEPTH)),
        Some((Some(Construct::AllRequiredGroup), Position { offset: 1 }))
    );
    assert_eq!(
        deep_error(&wrapped(template("/// doc\n#x"), MAX_DEPTH)),
        Some((Some(Construct::Documentation), Position { offset: 1 }))
    );
}

#[test]
fn type_guard_or_condition_that_weighs_too_much_is_too_deep() {
    let long = "! ".repeat(MAX_WEIGHT);
    let text = format!("#?a #? if {} a {{ #x }}", long);
    let error = compile(&text).unwrap_err();
    assert_eq!(
        (error.kind, error.construct, error.pos),
        (ErrorKind::DepthExceeded, Some(Construct::ConditionalChain), marker_at(&text, 1))
    );
    let text = format!("#?a #? if {} a {{ #x }}", "! ".repeat(MAX_WEIGHT - 1));
    assert_eq!(compile(&text).unwrap().schema.fields.len(), 2);
    let text = format!("#?a #?{{x: T, if: {} a}}", "! ".repeat(5000));
    let error = compile(&text).unwrap_err();
    assert_eq!(
        (error.kind, error.construct, error.pos),
        (ErrorKind::DepthExceeded, Some(Construct::OptionalTypedBinding), marker_at(&text, 1))
    );
    let text = format!("#{{x: {} T}}", "& ".repeat(5000));
    let error = compile(&text).unwrap_err();
    assert_eq!(
        (error.kind, error.construct, error.pos),
        (ErrorKind::DepthExceeded, Some(Construct::TypedBinding), Position { offset: 0 })
    );
    let text = format!("#(#{{x: {} T}}),*", "* const ".repeat(5000));
    let error = compile(&text).unwrap_err();
    assert_eq!(
        (error.kind, error.construct, error.pos),
        (ErrorKind::DepthExceeded, Some(Construct::Repetition), marker_at(&text, 1))
    );
}

#[test]
fn names_bound_too_deep_are_not_seen_as_bound_later() {
    let mut tokens = template("#?{x: T, if: a.is_some()}");
    tokens.extend(wrapped(template("#a"), MAX_DEPTH));
    let error = walk_token_stream(&tokens).unwrap_err();
    assert_eq!(error.kind, ErrorKind::ForwardReference);
    let mut tokens = template("#?{x: T, if: a.is_some()}");
    tokens.extend(wrapped(template("#a"), MAX_DEPTH + 1));
    let error = walk_token_stream(&tokens).unwrap_err();
    assert_eq!(error.kind, ErrorKind::UndeclaredGuardReference);
}

#[test]
fn copies_of_tokens_equal_the_tokens() {
    let tokens = template("a ( b [ c { d } ] ) 'e' \"f\" 1.5 -> 'g");
    assert_eq!(copy_tokens(&tokens), tokens);
    assert_eq!(copy_token(&tokens[1]), tokens[1]);
}

#[test]
fn tokens_are_written_out_with_blanks_between_them() {
    assert_eq!(render(&template("a.b(c, d)[0]{ x }")), "a . b (c , d) [0] {x}");
    assert_eq!(render(&template("a -> b :: c != d && !e")), "a -> b :: c != d && ! e");
    assert_eq!(render(&template("&'a str")), "&'a str");
    assert_eq!(render(&template("\"x y\" 'c' 1u8 r#\"z\"#")), "\"x y\" 'c' 1u8 r#\"z\"#");
    assert_eq!(render(&template("")), "");
    assert_eq!(render(&template("()")), "()");
    let invisible = vec![Token::Group {
        delimiter: Delimiter::Invisible,
        children: template("a + b"),
        pos: Position { offset: 0 },
    }];
    assert_eq!(render(&invisible), " a + b ");
}

#[test]
fn delimiters_have_their_characters() {
    assert_eq!(Delimiter::Parenthesis.to_char(true), '(');
    assert_eq!(Delimiter::Parenthesis.to_char(false), ')');
    assert_eq!(Delimiter::Brace.to_char(true), '{');
    assert_eq!(Delimiter::Brace.to_char(false), '}');
    assert_eq!(Delimiter::Bracket.to_char(true), '[');
    assert_eq!(Delimiter::Bracket.to_char(false), ']');
    assert_eq!(Delimiter::Invisible.to_char(true), ' ');
    assert_eq!(Delimiter::Invisible.to_char(false), ' ');
}
