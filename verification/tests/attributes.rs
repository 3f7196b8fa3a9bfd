use serde_seeded::attributes::{
    Error, FieldAttributes, ParseErrorKind, SerializeAttributes, TypeAttributes,
};
use serde_seeded::item::{Attribute, Meta, ParamKind};
use serde_seeded::token::{Delimiter, Spacing, Span, TokenTree};

fn ident(s: &str, at: u64) -> TokenTree {
    TokenTree::Ident(s.to_string(), Span::At(at))
}

fn comma(at: u64) -> TokenTree {
    TokenTree::Punct(',', Spacing::Alone, Span::At(at))
}

fn punct(c: char, spacing: Spacing) -> TokenTree {
    TokenTree::Punct(c, spacing, Span::CallSite)
}

fn lit(s: &str, at: u64) -> TokenTree {
    TokenTree::Literal(s.to_string(), Span::At(at))
}

fn parens(inner: Vec<TokenTree>, at: u64) -> TokenTree {
    TokenTree::Group(Delimiter::Parenthesis, inner, Span::At(at))
}

fn seeded(tokens: Vec<TokenTree>) -> Attribute {
    Attribute { path: "seeded".to_string(), meta: Meta::List(tokens), span: Span::At(1000) }
}

fn path(segments: &[&str]) -> Vec<TokenTree> {
    let mut out = Vec::new();
    for (i, s) in segments.iter().enumerate() {
        if i > 0 {
            out.push(punct(':', Spacing::Joint));
            out.push(punct(':', Spacing::Alone));
        }
        out.push(ident(s, 0));
    }
    out
}

fn parse_error(e: Error) -> (Span, ParseErrorKind) {
    match e {
        Error::Parse(p) => (p.span, p.kind),
        other => panic!("not a parse error: {:?}", other),
    }
}

#[test]
fn field_without_attributes_has_nothing_set() {
    let a = FieldAttributes::parse_attributes(&vec![]).unwrap();
    assert!(!a.skip);
    assert!(!a.default);
    assert_eq!(a.with, None);
    assert_eq!(a.skip_serializing_if, None);
    assert_eq!(a.rename, None);
}

#[test]
fn field_flags_are_read() {
    let attrs = vec![seeded(vec![ident("skip", 1), comma(2), ident("default", 3)])];
    let a = FieldAttributes::parse_attributes(&attrs).unwrap();
    assert!(a.skip);
    assert!(a.default);
}

#[test]
fn field_list_may_end_with_a_comma() {
    let attrs = vec![seeded(vec![ident("skip", 1), comma(2)])];
    let a = FieldAttributes::parse_attributes(&attrs).unwrap();
    assert!(a.skip);
    assert!(!a.default);
}

#[test]
fn field_paths_are_read() {
    let attrs = vec![seeded(vec![
        ident("with", 1),
        parens(path(&["my", "module"]), 2),
        comma(3),
        ident("skip_serializing_if", 4),
        parens(path(&["Option", "is_none"]), 5),
    ])];
    let a = FieldAttributes::parse_attributes(&attrs).unwrap();
    assert_eq!(a.with.as_deref(), Some("my :: module "));
    assert_eq!(a.skip_serializing_if.as_deref(), Some("Option :: is_none "));
}

#[test]
fn rename_gives_the_string_the_literal_denotes() {
    let attrs = vec![seeded(vec![ident("rename", 1), parens(vec![lit("\"a\\\"b\\n\"", 2)], 3)])];
    let a = FieldAttributes::parse_attributes(&attrs).unwrap();
    assert_eq!(a.rename.as_deref(), Some("a\"b\n"));
}

#[test]
fn rename_takes_a_raw_string() {
    let attrs = vec![seeded(vec![ident("rename", 1), parens(vec![lit("r#\"x\"y\"#", 2)], 3)])];
    let a = FieldAttributes::parse_attributes(&attrs).unwrap();
    assert_eq!(a.rename.as_deref(), Some("x\"y"));
}

#[test]
fn later_attributes_merge_into_earlier_ones() {
    let attrs = vec![
        seeded(vec![ident("skip", 1), comma(2), ident("rename", 3), parens(vec![lit("\"one\"", 4)], 5)]),
        Attribute { path: "doc".to_string(), meta: Meta::NameValue, span: Span::At(7) },
        seeded(vec![ident("default", 1), comma(2), ident("rename", 3), parens(vec![lit("\"two\"", 4)], 5)]),
    ];
    let a = FieldAttributes::parse_attributes(&attrs).unwrap();
    assert!(a.skip);
    assert!(a.default);
    assert_eq!(a.rename.as_deref(), Some("two"));
}

#[test]
fn merge_with_keeps_an_earlier_value_where_no_later_one_is() {
    let mut a = FieldAttributes::new();
    a.with = Some("a".to_string());
    a.rename = Some("first".to_string());
    let mut b = FieldAttributes::new();
    b.skip = true;
    b.skip_serializing_if = Some("p".to_string());
    a.merge_with(b);
    assert!(a.skip);
    assert!(!a.default);
    assert_eq!(a.with.as_deref(), Some("a"));
    assert_eq!(a.skip_serializing_if.as_deref(), Some("p"));
    assert_eq!(a.rename.as_deref(), Some("first"));
}

#[test]
fn an_attribute_without_a_list_is_refused() {
    let attrs = vec![Attribute { path: "seeded".to_string(), meta: Meta::Path, span: Span::At(42) }];
    match FieldAttributes::parse_attributes(&attrs) {
        Err(Error::ExpectedMetaList(span)) => assert_eq!(span, Span::At(42)),
        other => panic!("unexpected: {:?}", other),
    }
    let attrs = vec![Attribute { path: "seeded".to_string(), meta: Meta::NameValue, span: Span::At(43) }];
    match TypeAttributes::parse_attributes(&attrs) {
        Err(Error::ExpectedMetaList(span)) => assert_eq!(span, Span::At(43)),
        other => panic!("unexpected: {:?}", other),
    }
}

#[test]
fn an_unknown_key_is_refused_at_the_key() {
    let attrs = vec![seeded(vec![ident("skip", 1), comma(2), ident("bogus", 3)])];
    let (span, kind) = parse_error(FieldAttributes::parse_attributes(&attrs).unwrap_err());
    assert_eq!(span, Span::At(3));
    assert!(matches!(kind, ParseErrorKind::UnexpectedIdent));
    let attrs = vec![seeded(vec![ident("skip", 9)])];
    let (span, kind) = parse_error(TypeAttributes::parse_attributes(&attrs).unwrap_err());
    assert_eq!(span, Span::At(9));
    assert!(matches!(kind, ParseErrorKind::UnexpectedIdent));
}

#[test]
fn an_entry_must_begin_with_a_key() {
    let attrs = vec![seeded(vec![lit("\"skip\"", 5)])];
    let (span, kind) = parse_error(FieldAttributes::parse_attributes(&attrs).unwrap_err());
    assert_eq!(span, Span::At(5));
    assert!(matches!(kind, ParseErrorKind::ExpectedIdent));
    let attrs = vec![seeded(vec![ident("skip", 1), comma(2), comma(3)])];
    let (span, kind) = parse_error(FieldAttributes::parse_attributes(&attrs).unwrap_err());
    assert_eq!(span, Span::At(3));
    assert!(matches!(kind, ParseErrorKind::ExpectedIdent));
}

#[test]
fn entries_are_separated_by_commas() {
    let attrs = vec![seeded(vec![ident("skip", 1), ident("default", 2)])];
    let (span, kind) = parse_error(FieldAttributes::parse_attributes(&attrs).unwrap_err());
    assert_eq!(span, Span::At(2));
    assert!(matches!(kind, ParseErrorKind::ExpectedComma));
}

#[test]
fn a_flag_takes_no_argument() {
    let attrs = vec![seeded(vec![ident("skip", 1), parens(vec![], 2)])];
    let (span, kind) = parse_error(FieldAttributes::parse_attributes(&attrs).unwrap_err());
    assert_eq!(span, Span::At(2));
    assert!(matches!(kind, ParseErrorKind::ExpectedComma));
}

#[test]
fn a_key_with_an_argument_needs_parentheses() {
    let attrs = vec![seeded(vec![ident("with", 1), comma(2)])];
    let (span, kind) = parse_error(FieldAttributes::parse_attributes(&attrs).unwrap_err());
    assert_eq!(span, Span::At(2));
    assert!(matches!(kind, ParseErrorKind::ExpectedParentheses));
    let attrs = vec![seeded(vec![ident("rename", 1)])];
    let (span, kind) = parse_error(FieldAttributes::parse_attributes(&attrs).unwrap_err());
    assert_eq!(span, Span::CallSite);
    assert!(matches!(kind, ParseErrorKind::ExpectedParentheses));
    let brackets = TokenTree::Group(Delimiter::Bracket, vec![], Span::At(6));
    let attrs = vec![seeded(vec![ident("with", 1), brackets])];
    let (span, kind) = parse_error(FieldAttributes::parse_attributes(&attrs).unwrap_err());
    assert_eq!(span, Span::At(6));
    assert!(matches!(kind, ParseErrorKind::ExpectedParentheses));
}

#[test]
fn an_argument_that_is_no_path_is_refused_at_the_argument() {
    let attrs = vec![seeded(vec![ident("with", 1), parens(vec![lit("1", 2)], 3)])];
    let (span, kind) = parse_error(FieldAttributes::parse_attributes(&attrs).unwrap_err());
    assert_eq!(span, Span::At(3));
    assert!(matches!(kind, ParseErrorKind::Syntax(_)));
    let attrs = vec![seeded(vec![ident("with", 1), parens(vec![ident("a", 2), ident("b", 3)], 4)])];
    let (span, kind) = parse_error(FieldAttributes::parse_attributes(&attrs).unwrap_err());
    assert_eq!(span, Span::At(4));
    assert!(matches!(kind, ParseErrorKind::Syntax(_)));
}

#[test]
fn an_argument_that_is_no_string_is_refused() {
    let attrs = vec![seeded(vec![ident("rename", 1), parens(vec![ident("name", 2)], 3)])];
    let (span, kind) = parse_error(FieldAttributes::parse_attributes(&attrs).unwrap_err());
    assert_eq!(span, Span::At(3));
    match kind {
        ParseErrorKind::Syntax(m) => assert_eq!(m, "expected string literal"),
        other => panic!("unexpected: {:?}", other),
    }
}

#[test]
fn error_messages() {
    assert_eq!(
        Error::ExpectedMetaList(Span::CallSite).to_string(),
        "expected an attribute of the form `#[seeded(...)]`"
    );
    assert_eq!(Error::MissingSeed.to_string(), "missing seed type");
    let attrs = vec![seeded(vec![ident("bogus", 3)])];
    let e = FieldAttributes::parse_attributes(&attrs).unwrap_err();
    assert_eq!(e.to_string(), "unexpected ident");
    assert_eq!(e.span(), Span::At(3));
    let attrs = vec![seeded(vec![ident("skip", 1), ident("skip", 2)])];
    assert_eq!(FieldAttributes::parse_attributes(&attrs).unwrap_err().to_string(), "expected `,`");
    let attrs = vec![seeded(vec![ident("with", 1)])];
    assert_eq!(
        FieldAttributes::parse_attributes(&attrs).unwrap_err().to_string(),
        "expected parentheses"
    );
    let attrs = vec![seeded(vec![comma(1)])];
    assert_eq!(
        FieldAttributes::parse_attributes(&attrs).unwrap_err().to_string(),
        "expected identifier"
    );
    let attrs = vec![seeded(vec![ident("rename", 1), parens(vec![ident("name", 2)], 3)])];
    assert_eq!(
        FieldAttributes::parse_attributes(&attrs).unwrap_err().to_string(),
        "expected string literal"
    );
    assert_eq!(Error::MissingSeed.span(), Span::CallSite);
    assert_eq!(Error::ExpectedMetaList(Span::At(4)).span(), Span::At(4));
}

#[test]
fn field_name_is_the_rename_or_the_identifier() {
    let mut a = FieldAttributes::new();
    assert_eq!(a.name("foo"), "foo");
    assert_eq!(a.name("r#type"), "type");
    assert_eq!(a.name("r"), "r");
    assert_eq!(a.name("r#"), "");
    assert_eq!(a.name("rx#y"), "rx#y");
    a.rename = Some("bar".to_string());
    assert_eq!(a.name("foo"), "bar");
    assert_eq!(a.name("r#type"), "bar");
}

#[test]
fn type_name_is_the_rename_or_the_identifier() {
    let mut a = TypeAttributes::new();
    assert_eq!(a.name("Foo"), "Foo");
    assert_eq!(a.name("r#Foo"), "r#Foo");
    a.rename = Some("Bar".to_string());
    assert_eq!(a.name("Foo"), "Bar");
}

fn seed_of(name: &str) -> Vec<TokenTree> {
    vec![ident("seed", 10), parens(vec![ident(name, 11)], 12)]
}

#[test]
fn type_attributes_are_read() {
    let attrs = vec![seeded(vec![
        ident("ser", 1),
        parens(seed_of("A"), 2),
        comma(3),
        ident("de", 4),
        parens(seed_of("B"), 5),
        comma(6),
        ident("serde", 7),
        parens(seed_of("C"), 8),
        comma(9),
        ident("transparent", 10),
        comma(11),
        ident("rename", 12),
        parens(vec![lit("\"Name\"", 13)], 14),
    ])];
    let a = TypeAttributes::parse_attributes(&attrs).unwrap();
    assert_eq!(a.ser.len(), 2);
    assert_eq!(a.ser[0].seed.as_deref(), Some("A "));
    assert_eq!(a.ser[1].seed.as_deref(), Some("C "));
    assert_eq!(a.de.len(), 2);
    assert_eq!(a.de[0].seed.as_deref(), Some("B "));
    assert_eq!(a.de[1].seed.as_deref(), Some("C "));
    assert!(a.transparent);
    assert_eq!(a.rename.as_deref(), Some("Name"));
}

#[test]
fn type_attributes_merge_in_order() {
    let attrs = vec![
        seeded(vec![ident("ser", 1), parens(seed_of("A"), 2), comma(3), ident("rename", 4), parens(vec![lit("\"X\"", 5)], 6)]),
        seeded(vec![ident("ser", 1), parens(seed_of("B"), 2), comma(3), ident("transparent", 4)]),
        seeded(vec![ident("de", 1), parens(seed_of("C"), 2)]),
    ];
    let a = TypeAttributes::parse_attributes(&attrs).unwrap();
    assert_eq!(a.ser.len(), 2);
    assert_eq!(a.ser[0].seed.as_deref(), Some("A "));
    assert_eq!(a.ser[1].seed.as_deref(), Some("B "));
    assert_eq!(a.de.len(), 1);
    assert!(a.transparent);
    assert_eq!(a.rename.as_deref(), Some("X"));
}

#[test]
fn type_merge_with_appends_and_replaces() {
    let mut a = TypeAttributes::new();
    a.rename = Some("A".to_string());
    let mut s = SerializeAttributes::new();
    s.seed = Some("S".to_string());
    a.ser.push(s);
    let mut b = TypeAttributes::new();
    b.transparent = true;
    let mut t = SerializeAttributes::new();
    t.seed = Some("T".to_string());
    b.ser.push(t.clone());
    b.de.push(t);
    a.merge_with(b);
    assert_eq!(a.ser.len(), 2);
    assert_eq!(a.ser[0].seed.as_deref(), Some("S"));
    assert_eq!(a.ser[1].seed.as_deref(), Some("T"));
    assert_eq!(a.de.len(), 1);
    assert!(a.transparent);
    assert_eq!(a.rename.as_deref(), Some("A"));
}

#[test]
fn a_seed_specification_is_read() {
    let tokens = vec![
        ident("seed", 1),
        parens(vec![ident("Seed", 0), punct('<', Spacing::Alone), ident("T", 0), punct('>', Spacing::Alone)], 2),
        comma(3),
        ident("params", 4),
        parens(
            vec![
                ident("T", 0),
                punct(':', Spacing::Alone),
                ident("Clone", 0),
                comma(0),
                punct('\'', Spacing::Joint),
                ident("a", 0),
                comma(0),
                ident("const", 0),
                ident("N", 0),
                punct(':', Spacing::Alone),
                ident("usize", 0),
            ],
            5,
        ),
        comma(6),
        ident("bounds", 7),
        parens(vec![ident("T", 0), punct(':', Spacing::Alone), ident("Copy", 0)], 8),
        comma(9),
        ident("override_bounds", 10),
        parens(
            vec![
                ident("U", 0),
                punct(':', Spacing::Alone),
                ident("Default", 0),
                comma(0),
                punct('\'', Spacing::Joint),
                ident("a", 0),
                punct(':', Spacing::Alone),
                punct('\'', Spacing::Joint),
                ident("b", 0),
            ],
            11,
        ),
    ];
    let a = SerializeAttributes::parse(&tokens, Span::CallSite).unwrap();
    assert_eq!(a.seed.as_deref(), Some("Seed < T > "));
    assert_eq!(a.params.len(), 3);
    assert_eq!(a.params[0].kind, ParamKind::Type);
    assert_eq!(a.params[0].ident, "T");
    assert_eq!(a.params[0].bounds, "Clone");
    assert_eq!(a.params[0].attrs, "");
    assert_eq!(a.params[1].kind, ParamKind::Lifetime);
    assert_eq!(a.params[1].ident, "'a");
    assert_eq!(a.params[1].bounds, "");
    assert_eq!(a.params[2].kind, ParamKind::Const);
    assert_eq!(a.params[2].ident, "N");
    assert_eq!(a.params[2].bounds, "usize");
    assert_eq!(a.bounds.len(), 1);
    assert_eq!(a.bounds[0].subject, "T");
    assert_eq!(a.bounds[0].text.replace(' ', ""), "T:Copy");
    assert_eq!(a.override_bounds.len(), 2);
    assert_eq!(a.override_bounds[0].subject, "U");
    assert_eq!(a.override_bounds[1].subject, "'a");
    assert_eq!(a.override_bounds[1].text.replace(' ', ""), "'a:'b");
}

#[test]
fn a_default_of_a_parameter_is_left_behind() {
    let tokens = vec![
        ident("params", 4),
        parens(
            vec![ident("T", 0), punct(':', Spacing::Alone), ident("Clone", 0), punct('=', Spacing::Alone), ident("u8", 0)],
            5,
        ),
    ];
    let a = SerializeAttributes::parse(&tokens, Span::CallSite).unwrap();
    assert_eq!(a.params.len(), 1);
    assert_eq!(a.params[0].ident, "T");
    assert_eq!(a.params[0].bounds, "Clone");
}

#[test]
fn lists_of_a_seed_specification_grow_and_the_seed_is_replaced() {
    let tokens = vec![
        ident("seed", 1),
        parens(vec![ident("A", 0)], 2),
        comma(3),
        ident("bounds", 4),
        parens(vec![ident("T", 0), punct(':', Spacing::Alone), ident("Copy", 0)], 5),
        comma(6),
        ident("seed", 7),
        parens(vec![ident("B", 0)], 8),
        comma(9),
        ident("bounds", 10),
        parens(vec![ident("U", 0), punct(':', Spacing::Alone), ident("Copy", 0)], 11),
        comma(12),
        ident("params", 13),
        parens(vec![ident("X", 0)], 14),
        comma(15),
        ident("params", 16),
        parens(vec![ident("Y", 0)], 17),
    ];
    let a = SerializeAttributes::parse(&tokens, Span::CallSite).unwrap();
    assert_eq!(a.seed.as_deref(), Some("B "));
    assert_eq!(a.bounds.len(), 2);
    assert_eq!(a.bounds[0].subject, "T");
    assert_eq!(a.bounds[1].subject, "U");
    assert_eq!(a.params.len(), 2);
    assert_eq!(a.params[0].ident, "X");
    assert_eq!(a.params[1].ident, "Y");
}

#[test]
fn errors_inside_a_seed_specification() {
    let attrs = vec![seeded(vec![ident("ser", 1), parens(vec![ident("sead", 2)], 3)])];
    let (span, kind) = parse_error(TypeAttributes::parse_attributes(&attrs).unwrap_err());
    assert_eq!(span, Span::At(2));
    assert!(matches!(kind, ParseErrorKind::UnexpectedIdent));
    let attrs = vec![seeded(vec![ident("ser", 1), parens(vec![ident("seed", 2)], 3)])];
    let (span, kind) = parse_error(TypeAttributes::parse_attributes(&attrs).unwrap_err());
    assert_eq!(span, Span::At(3));
    assert!(matches!(kind, ParseErrorKind::ExpectedParentheses));
    let attrs = vec![seeded(vec![ident("ser", 1), parens(vec![ident("seed", 2), parens(vec![comma(4)], 5)], 3)])];
    let (span, kind) = parse_error(TypeAttributes::parse_attributes(&attrs).unwrap_err());
    assert_eq!(span, Span::At(5));
    assert!(matches!(kind, ParseErrorKind::Syntax(_)));
    let attrs = vec![seeded(vec![ident("ser", 1), parens(vec![ident("params", 2), parens(vec![lit("1", 4)], 5)], 3)])];
    let (span, kind) = parse_error(TypeAttributes::parse_attributes(&attrs).unwrap_err());
    assert_eq!(span, Span::At(5));
    assert!(matches!(kind, ParseErrorKind::Syntax(_)));
    let attrs = vec![seeded(vec![ident("ser", 1), parens(vec![ident("bounds", 2), parens(vec![lit("1", 4)], 5)], 3)])];
    let (span, kind) = parse_error(TypeAttributes::parse_attributes(&attrs).unwrap_err());
    assert_eq!(span, Span::At(5));
    assert!(matches!(kind, ParseErrorKind::Syntax(_)));
    let attrs = vec![seeded(vec![ident("ser", 1)])];
    let (span, kind) = parse_error(TypeAttributes::parse_attributes(&attrs).unwrap_err());
    assert_eq!(span, Span::CallSite);
    assert!(matches!(kind, ParseErrorKind::ExpectedParentheses));
}

#[test]
fn a_seed_specification_must_name_a_seed() {
    let a = SerializeAttributes::parse(&vec![], Span::CallSite).unwrap();
    assert!(matches!(a.require_seed(), Err(Error::MissingSeed)));
    let a = SerializeAttributes::parse(&seed_of("Seed"), Span::CallSite).unwrap();
    assert_eq!(a.require_seed().unwrap(), "Seed ");
}
