use quote_parse::bindings::{absorb, BindingTable, Nesting};
use quote_parse::error::{ErrorKind, SchemaError};
use quote_parse::names::Citation;
use quote_parse::recognizer::Construct;
use quote_parse::schema::{emit, internal_name, FieldDecl, FieldKind, Guard, RepetitionSpec};
use quote_parse::token::Position;
use quote_parse::walker::{declare, documented, expand, guard_rejected, guard_taken, Walker};

fn at(offset: usize) -> Position {
    Position { offset }
}

fn plain(name: &str, ty: &str) -> FieldDecl {
    FieldDecl::new(name.to_string(), FieldKind::Plain(ty.to_string()))
}

fn cite(name: &str, offset: usize) -> Citation {
    Citation { name: name.to_string(), pos: at(offset) }
}

fn names(list: &[&str]) -> Vec<String> {
    let mut out = Vec::new();
    for name in list {
        out.push(name.to_string());
    }
    out
}

#[test]
fn new_field_has_neither_guard_nor_documentation() {
    let field = plain("a", "T");
    assert_eq!(
        field,
        FieldDecl {
            name: "a".to_string(),
            kind: FieldKind::Plain("T".to_string()),
            guard: None,
            internal: false,
            doc: None,
        }
    );
    assert!(plain("_a", "T").internal);
    assert_eq!(field.duplicate(), field);
}

#[test]
fn internal_names_begin_with_an_underscore() {
    assert!(internal_name(&"_comma".to_string()));
    assert!(internal_name(&"_".to_string()));
    assert!(!internal_name(&"comma_".to_string()));
    assert!(!internal_name(&"".to_string()));
    assert!(!internal_name(&"é_".to_string()));
}

#[test]
fn kinds_weaken_to_optional_of_the_same_type() {
    let plain = FieldKind::Plain("A".to_string());
    let repeated = FieldKind::Repeated("B".to_string());
    let optional = FieldKind::Optional("C".to_string());
    assert_eq!(plain.weakened(), FieldKind::Optional("A".to_string()));
    assert_eq!(repeated.weakened(), FieldKind::Optional("B".to_string()));
    assert_eq!(optional.weakened(), FieldKind::Optional("C".to_string()));
    assert_eq!(plain.type_text(), "A");
    assert_eq!(repeated.type_text(), "B");
    assert_eq!(optional.type_text(), "C");
    assert_eq!(repeated.duplicate(), repeated);
    assert_eq!(Guard::When("g".to_string()).duplicate(), Guard::When("g".to_string()));
    assert_eq!(Guard::Present("t".to_string()).duplicate(), Guard::Present("t".to_string()));
}

#[test]
fn register_appends_and_rejects_duplicates() {
    let mut table = BindingTable::new();
    assert!(table.fields.is_empty());
    assert!(table.visible.is_empty());
    assert!(!table.binds(&"a".to_string()));
    assert_eq!(table.register(plain("a", "T"), at(1)), Ok(()));
    assert_eq!(table.register(plain("b", "U"), at(3)), Ok(()));
    assert!(table.binds(&"a".to_string()));
    assert!(!table.binds(&"c".to_string()));
    assert_eq!(
        table.register(plain("a", "V"), at(7)),
        Err(SchemaError { kind: ErrorKind::DuplicateField, construct: None, pos: at(7) })
    );
    assert_eq!(table.fields, vec![plain("a", "T"), plain("b", "U")]);
    assert_eq!(table.visible, names(&["a", "b"]));
}

#[test]
fn validate_guard_reports_the_first_name_out_of_sight() {
    let mut table = BindingTable::new();
    table.register(plain("a", "T"), at(0)).unwrap();
    table.register(plain("b", "T"), at(1)).unwrap();
    let later = names(&["late"]);
    assert_eq!(table.validate_guard(&vec![], &later), Ok(()));
    assert_eq!(table.validate_guard(&vec![cite("a", 5), cite("b", 6), cite("a", 7)], &later), Ok(()));
    assert_eq!(
        table.validate_guard(&vec![cite("a", 5), cite("nope", 6), cite("late", 7)], &later),
        Err(SchemaError { kind: ErrorKind::UndeclaredGuardReference, construct: None, pos: at(6) })
    );
    assert_eq!(
        table.validate_guard(&vec![cite("late", 5), cite("nope", 6)], &later),
        Err(SchemaError { kind: ErrorKind::ForwardReference, construct: None, pos: at(5) })
    );
}

#[test]
fn merge_takes_inner_fields_in_as_the_nesting_says() {
    let build = || {
        let mut table = BindingTable::new();
        table.register(plain("outer", "T"), at(0)).unwrap();
        table.register(plain("a", "A"), at(1)).unwrap();
        let mut guarded = FieldDecl::new("b".to_string(), FieldKind::Optional("B".to_string()));
        guarded.guard = Some(Guard::When("own".to_string()));
        table.register(guarded, at(2)).unwrap();
        table.register(FieldDecl::new("c".to_string(), FieldKind::Optional("C".to_string())), at(3)).unwrap();
        table.register(FieldDecl::new("d".to_string(), FieldKind::Repeated("D".to_string())), at(4)).unwrap();
        table
    };
    let own = Some(Guard::When("own".to_string()));
    let scope = Guard::Present("tok".to_string());
    let field = |name: &str, ty: &str, guard: Option<Guard>| FieldDecl {
        guard,
        ..FieldDecl::new(name.to_string(), FieldKind::Optional(ty.to_string()))
    };

    let mut table = build();
    table.merge(1, 1, &Nesting::Group);
    assert_eq!(table.fields, build().fields);
    assert_eq!(table.visible, names(&["outer"]));

    let mut table = build();
    table.merge(1, 1, &Nesting::Guarded(scope.duplicate()));
    assert_eq!(
        table.fields,
        vec![
            plain("outer", "T"),
            field("a", "A", Some(scope.duplicate())),
            field("b", "B", own.clone()),
            field("c", "C", Some(scope.duplicate())),
            field("d", "D", Some(scope.duplicate())),
        ]
    );
    assert_eq!(table.visible, names(&["outer"]));

    let mut table = build();
    table.merge(1, 1, &Nesting::Required(scope.duplicate()));
    assert_eq!(
        table.fields,
        vec![
            plain("outer", "T"),
            field("a", "A", Some(scope.duplicate())),
            field("b", "B", own.clone()),
            field("c", "C", None),
            field("d", "D", Some(scope.duplicate())),
        ]
    );

    let mut table = build();
    table.merge(5, 5, &Nesting::Guarded(scope.duplicate()));
    assert_eq!(table.fields, build().fields);
    assert_eq!(table.visible, build().visible);

    let mut table = build();
    table.merge(0, 0, &Nesting::Guarded(scope.duplicate()));
    assert_eq!(table.fields[0], field("outer", "T", Some(scope.duplicate())));
    assert!(table.visible.is_empty());
}

#[test]
fn absorb_leaves_name_type_and_documentation() {
    let mut field = plain("_a", "A");
    field.doc = Some("about a".to_string());
    let taken = absorb(&field, &Nesting::Guarded(Guard::When("g".to_string())));
    assert_eq!(
        taken,
        FieldDecl {
            name: "_a".to_string(),
            kind: FieldKind::Optional("A".to_string()),
            guard: Some(Guard::When("g".to_string())),
            internal: true,
            doc: Some("about a".to_string()),
        }
    );
    assert_eq!(absorb(&field, &Nesting::Group), field);
}

#[test]
fn emit_splits_public_and_internal_fields_in_order() {
    let fields =
        vec![plain("a", "A"), plain("_b", "B"), plain("c", "C"), plain("_d", "D"), plain("e", "E")];
    let schema = emit(&fields);
    assert_eq!(schema.fields, vec![plain("a", "A"), plain("c", "C"), plain("e", "E")]);
    assert_eq!(schema.internal_fields, vec![plain("_b", "B"), plain("_d", "D")]);
    let none = emit(&Vec::new());
    assert!(none.fields.is_empty() && none.internal_fields.is_empty());
}

#[test]
fn expand_gives_the_repeated_field_of_the_variable() {
    let mut variable = plain("_items", "Stmt");
    variable.doc = Some("the items".to_string());
    let rep = RepetitionSpec {
        prefix: Vec::new(),
        variable,
        suffix: Vec::new(),
        separator: Vec::new(),
    };
    assert_eq!(
        expand(&rep),
        FieldDecl {
            name: "_items".to_string(),
            kind: FieldKind::Repeated("Stmt".to_string()),
            guard: None,
            internal: true,
            doc: Some("the items".to_string()),
        }
    );
}

#[test]
fn declare_hands_the_waiting_documentation_to_the_field() {
    let mut walker = Walker::new();
    walker.doc = Some("about x".to_string());
    let walker =
        declare(walker, "x".to_string(), FieldKind::Plain("T".to_string()), None, at(4)).unwrap();
    assert_eq!(walker.doc, None);
    assert_eq!(walker.table.fields[0].doc, Some("about x".to_string()));
    assert_eq!(walker.table.visible, names(&["x"]));
    let again = declare(walker, "x".to_string(), FieldKind::Plain("T".to_string()), None, at(9));
    assert_eq!(again.unwrap_err(), SchemaError { kind: ErrorKind::DuplicateField, construct: None, pos: at(9) });
}

#[test]
fn documentation_lines_are_joined_by_newlines() {
    assert_eq!(documented(None, Some("a".to_string()), at(0)), Ok("a".to_string()));
    assert_eq!(
        documented(Some("a".to_string()), Some("b".to_string()), at(0)),
        Ok("a\nb".to_string())
    );
    assert_eq!(
        documented(Some("a".to_string()), None, at(3)),
        Err(SchemaError { kind: ErrorKind::Syntax, construct: None, pos: at(3) })
    );
    assert_eq!(
        documented(None, None, at(5)),
        Err(SchemaError { kind: ErrorKind::Syntax, construct: None, pos: at(5) })
    );
}

#[test]
fn branch_guards_are_built_from_the_conditions() {
    let a = "a".to_string();
    let b = "b".to_string();
    assert_eq!(guard_taken(&None, &a), "a");
    assert_eq!(guard_rejected(&None, &a), "!(a)");
    let rejected = Some(guard_rejected(&None, &a));
    assert_eq!(guard_taken(&rejected, &b), "!(a) && (b)");
    assert_eq!(guard_rejected(&rejected, &b), "!(a) && !(b)");
}

#[test]
fn errors_have_their_sentences() {
    let message = |kind| SchemaError::new(kind, at(0)).message();
    assert_eq!(message(ErrorKind::Syntax), "Expected `ident`, `{`, `(`, `?` or `[doc]` after `#`.");
    assert_eq!(message(ErrorKind::DuplicateField), "A field of this name is already declared.");
    assert_eq!(
        message(ErrorKind::UndeclaredGuardReference),
        "The guard refers to a field that is not declared."
    );
    assert_eq!(
        message(ErrorKind::ForwardReference),
        "The guard refers to a field that is declared only later."
    );
    assert_eq!(
        message(ErrorKind::MultipleBindingInRepetition),
        "Only one interpolation variable is allowed per repetition."
    );
    assert_eq!(message(ErrorKind::DepthExceeded), "The template is nested too deeply.");
    let bare = SchemaError::new(ErrorKind::Syntax, at(3));
    assert_eq!(bare, SchemaError { kind: ErrorKind::Syntax, construct: None, pos: at(3) });
    let tagged = bare.within(Construct::Repetition);
    assert_eq!(
        tagged,
        SchemaError { kind: ErrorKind::Syntax, construct: Some(Construct::Repetition), pos: at(3) }
    );
    assert_eq!(tagged.within(Construct::PlainBinding), tagged);
}
