use serde_seeded::attributes::{
    ask, ask_attributes, Error, FieldAttributes, ParseErrorKind, Reply, SerializeAttributes,
    TypeAttributes,
};
use serde_seeded::fields::{ask_fields, ask_input, Replies, SerializedFields};
use serde_seeded::item::{
    Attribute, Data, DataStruct, DeriveInput, Fields, GenericParam, Generics, Meta, NamedField,
    ParamAttribute, ParamKind, WherePredicate,
};
use serde_seeded::token::{Delimiter, Spacing, Span, TokenTree};

fn ident(s: &str, at: u64) -> TokenTree {
    TokenTree::Ident(s.to_string(), Span::At(at))
}

fn comma(at: u64) -> TokenTree {
    TokenTree::Punct(',', Spacing::Alone, Span::At(at))
}

fn parens(inner: Vec<TokenTree>, at: u64) -> TokenTree {
    TokenTree::Group(Delimiter::Parenthesis, inner, Span::At(at))
}

fn seeded(tokens: Vec<TokenTree>) -> Attribute {
    Attribute { path: "seeded".to_string(), meta: Meta::List(tokens), span: Span::At(1000) }
}

fn param(name: &str) -> GenericParam {
    GenericParam::new(ParamKind::Type, &[], name.to_string(), String::new())
}

fn with_x() -> Vec<TokenTree> {
    vec![ident("with", 1), parens(vec![ident("x", 2)], 3)]
}

#[test]
fn a_path_is_taken_as_the_parser_answered() {
    let tokens = with_x();
    let replies = vec![Reply::Nothing, Reply::Syntax(Ok(()))];
    let a = FieldAttributes::parse_with(&tokens, &replies, Span::CallSite).unwrap();
    assert_eq!(a.with.as_deref(), Some("x "));
    let replies = vec![Reply::Nothing, Reply::Syntax(Err("no path".to_string()))];
    let e = FieldAttributes::parse_with(&tokens, &replies, Span::CallSite).unwrap_err();
    assert_eq!(e.span, Span::At(3));
    match e.kind {
        ParseErrorKind::Syntax(m) => assert_eq!(m, "no path"),
        other => panic!("unexpected: {:?}", other),
    }
}

#[test]
fn an_argument_without_its_answer_counts_as_missing() {
    let tokens = with_x();
    for replies in [
        vec![],
        vec![Reply::Nothing],
        vec![Reply::Nothing, Reply::Nothing],
        vec![Reply::Nothing, Reply::Literal(Ok("x".to_string()))],
        vec![Reply::Syntax(Ok(())), Reply::Entries(vec![])],
    ] {
        let e = FieldAttributes::parse_with(&tokens, &replies, Span::CallSite).unwrap_err();
        assert_eq!(e.span, Span::At(3));
        assert!(matches!(e.kind, ParseErrorKind::ExpectedParentheses));
    }
}

#[test]
fn what_takes_no_argument_needs_no_answer() {
    let tokens = vec![ident("skip", 1), comma(2), ident("default", 3)];
    let a = FieldAttributes::parse_with(&tokens, &vec![], Span::CallSite).unwrap();
    assert!(a.skip && a.default);
    let replies = vec![Reply::Syntax(Err("x".to_string())), Reply::Nothing, Reply::Nothing];
    let a = FieldAttributes::parse_with(&tokens, &replies, Span::CallSite).unwrap();
    assert!(a.skip && a.default);
}

#[test]
fn a_name_is_what_the_parser_read_from_the_literal() {
    let tokens = vec![ident("rename", 1), parens(vec![ident("anything", 2)], 3)];
    let replies = vec![Reply::Nothing, Reply::Literal(Ok("wire".to_string()))];
    let a = FieldAttributes::parse_with(&tokens, &replies, Span::CallSite).unwrap();
    assert_eq!(a.rename.as_deref(), Some("wire"));
    let a = TypeAttributes::parse_with(&tokens, &replies, Span::CallSite).unwrap();
    assert_eq!(a.rename.as_deref(), Some("wire"));
    let replies = vec![Reply::Nothing, Reply::Literal(Err("no literal".to_string()))];
    let e = TypeAttributes::parse_with(&tokens, &replies, Span::CallSite).unwrap_err();
    assert_eq!(e.span, Span::At(3));
    assert!(matches!(e.kind, ParseErrorKind::Syntax(m) if m == "no literal"));
}

#[test]
fn parameters_are_taken_up_to_the_first_that_is_refused() {
    let tokens = vec![ident("params", 1), parens(vec![ident("whatever", 2)], 3)];
    let replies = vec![Reply::Nothing, Reply::Params(Ok(vec![Ok(param("A")), Ok(param("B"))]))];
    let a = SerializeAttributes::parse_with(&tokens, &replies, Span::CallSite).unwrap();
    assert_eq!(a.params.len(), 2);
    assert_eq!(a.params[0].ident, "A");
    assert_eq!(a.params[1].ident, "B");
    let replies = vec![
        Reply::Nothing,
        Reply::Params(Ok(vec![
            Ok(param("A")),
            Err("first".to_string()),
            Ok(param("C")),
            Err("second".to_string()),
        ])),
    ];
    let e = SerializeAttributes::parse_with(&tokens, &replies, Span::CallSite).unwrap_err();
    assert_eq!(e.span, Span::At(3));
    assert!(matches!(e.kind, ParseErrorKind::Syntax(m) if m == "first"));
    let replies = vec![Reply::Nothing, Reply::Params(Err("no list".to_string()))];
    let e = SerializeAttributes::parse_with(&tokens, &replies, Span::CallSite).unwrap_err();
    assert!(matches!(e.kind, ParseErrorKind::Syntax(m) if m == "no list"));
    let replies = vec![Reply::Nothing, Reply::Params(Ok(vec![]))];
    let a = SerializeAttributes::parse_with(&tokens, &replies, Span::CallSite).unwrap();
    assert_eq!(a.params.len(), 0);
}

#[test]
fn predicates_are_taken_as_the_parser_answered() {
    let tokens = vec![
        ident("bounds", 1),
        parens(vec![], 2),
        comma(3),
        ident("override_bounds", 4),
        parens(vec![], 5),
        comma(6),
        ident("seed", 7),
        parens(vec![ident("S", 8)], 9),
    ];
    let p = |s: &str| WherePredicate { subject: s.to_string(), text: format!("{}: X", s) };
    let replies = vec![
        Reply::Nothing,
        Reply::Predicates(Ok(vec![p("A"), p("B")])),
        Reply::Nothing,
        Reply::Nothing,
        Reply::Predicates(Ok(vec![p("C")])),
        Reply::Nothing,
        Reply::Nothing,
        Reply::Syntax(Ok(())),
    ];
    let a = SerializeAttributes::parse_with(&tokens, &replies, Span::CallSite).unwrap();
    assert_eq!(a.bounds.len(), 2);
    assert_eq!(a.bounds[1].text, "B: X");
    assert_eq!(a.override_bounds.len(), 1);
    assert_eq!(a.override_bounds[0].subject, "C");
    assert_eq!(a.seed.as_deref(), Some("S "));
}

#[test]
fn a_seed_specification_is_read_with_its_own_answers() {
    let tokens = vec![ident("ser", 1), parens(vec![ident("seed", 2), parens(vec![ident("S", 3)], 4)], 5)];
    let replies =
        vec![Reply::Nothing, Reply::Entries(vec![Reply::Nothing, Reply::Syntax(Ok(()))])];
    let a = TypeAttributes::parse_with(&tokens, &replies, Span::CallSite).unwrap();
    assert_eq!(a.ser.len(), 1);
    assert_eq!(a.ser[0].seed.as_deref(), Some("S "));
    let replies = vec![
        Reply::Nothing,
        Reply::Entries(vec![Reply::Nothing, Reply::Syntax(Err("no type".to_string()))]),
    ];
    let e = TypeAttributes::parse_with(&tokens, &replies, Span::CallSite).unwrap_err();
    assert_eq!(e.span, Span::At(4));
    assert!(matches!(e.kind, ParseErrorKind::Syntax(m) if m == "no type"));
    let replies = vec![Reply::Nothing, Reply::Entries(vec![])];
    let e = TypeAttributes::parse_with(&tokens, &replies, Span::CallSite).unwrap_err();
    assert_eq!(e.span, Span::At(4));
    assert!(matches!(e.kind, ParseErrorKind::ExpectedParentheses));
    let replies = vec![Reply::Nothing, Reply::Syntax(Ok(()))];
    let e = TypeAttributes::parse_with(&tokens, &replies, Span::CallSite).unwrap_err();
    assert_eq!(e.span, Span::At(5));
    assert!(matches!(e.kind, ParseErrorKind::ExpectedParentheses));
}

#[test]
fn attributes_are_read_each_with_its_answers() {
    let attrs = vec![
        seeded(with_x()),
        Attribute { path: "doc".to_string(), meta: Meta::NameValue, span: Span::At(7) },
        seeded(vec![ident("rename", 1), parens(vec![], 2)]),
    ];
    let replies = vec![
        vec![Reply::Nothing, Reply::Syntax(Ok(()))],
        vec![],
        vec![Reply::Nothing, Reply::Literal(Ok("n".to_string()))],
    ];
    let a = FieldAttributes::parse_attributes_with(&attrs, &replies).unwrap();
    assert_eq!(a.with.as_deref(), Some("x "));
    assert_eq!(a.rename.as_deref(), Some("n"));
    let short = vec![vec![Reply::Nothing, Reply::Syntax(Ok(()))]];
    match FieldAttributes::parse_attributes_with(&attrs, &short) {
        Err(Error::Parse(e)) => {
            assert_eq!(e.span, Span::At(2));
            assert!(matches!(e.kind, ParseErrorKind::ExpectedParentheses));
        }
        other => panic!("unexpected: {:?}", other),
    }
}

#[test]
fn the_parser_is_asked_what_the_key_asks() {
    let tokens = vec![
        ident("with", 0),
        parens(vec![ident("m", 0)], 0),
        comma(0),
        ident("rename", 0),
        parens(vec![TokenTree::Literal("\"n\"".to_string(), Span::CallSite)], 0),
        comma(0),
        ident("skip", 0),
        parens(vec![], 0),
        comma(0),
        ident("ser", 0),
        parens(
            vec![
                ident("seed", 0),
                parens(vec![ident("S", 0)], 0),
                comma(0),
                ident("params", 0),
                parens(vec![ident("T", 0)], 0),
                comma(0),
                ident("bounds", 0),
                parens(vec![], 0),
            ],
            0,
        ),
        parens(vec![], 0),
        TokenTree::Group(Delimiter::Bracket, vec![], Span::CallSite),
    ];
    let replies = ask(&tokens);
    assert_eq!(replies.len(), tokens.len());
    assert!(matches!(replies[0], Reply::Nothing));
    assert!(matches!(replies[1], Reply::Syntax(Ok(()))));
    assert!(matches!(replies[2], Reply::Nothing));
    assert!(matches!(&replies[4], Reply::Literal(Ok(n)) if n == "n"));
    assert!(matches!(replies[7], Reply::Nothing));
    match &replies[10] {
        Reply::Entries(inner) => {
            assert_eq!(inner.len(), 8);
            assert!(matches!(inner[1], Reply::Syntax(Ok(()))));
            assert!(matches!(&inner[4], Reply::Params(Ok(p)) if p.len() == 1 && p[0].is_ok()));
            assert!(matches!(&inner[7], Reply::Predicates(Ok(p)) if p.is_empty()));
        }
        other => panic!("unexpected: {:?}", other),
    }
    assert!(matches!(replies[11], Reply::Nothing));
    assert!(matches!(replies[12], Reply::Nothing));
    let replies = ask(&vec![ident("with", 0), parens(vec![comma(0)], 0)]);
    assert!(matches!(replies[1], Reply::Syntax(Err(_))));
}

#[test]
fn only_seeded_attributes_are_asked_about() {
    let attrs = vec![
        Attribute { path: "other".to_string(), meta: Meta::List(with_x()), span: Span::CallSite },
        seeded(with_x()),
        Attribute { path: "seeded".to_string(), meta: Meta::Path, span: Span::CallSite },
    ];
    let replies = ask_attributes(&attrs);
    assert_eq!(replies.len(), 3);
    assert_eq!(replies[0].len(), 0);
    assert_eq!(replies[1].len(), 2);
    assert_eq!(replies[2].len(), 0);
}

#[test]
fn a_declaration_is_asked_about_field_by_field() {
    let field = |name: &str, attrs: Vec<Attribute>| NamedField {
        attrs,
        ident: name.to_string(),
        ty: "T".to_string(),
        span: Span::CallSite,
    };
    let fields = Fields::Named(vec![field("a", vec![]), field("b", vec![seeded(with_x())])]);
    let replies = ask_fields(&fields);
    assert_eq!(replies.len(), 2);
    assert_eq!(replies[0].len(), 0);
    assert_eq!(replies[1].len(), 1);
    assert_eq!(replies[1][0].len(), 2);
    let input = DeriveInput {
        attrs: vec![seeded(vec![ident("transparent", 0)])],
        ident: "T".to_string(),
        generics: Generics { params: vec![], where_clause: vec![] },
        data: Data::Struct(DataStruct { fields }),
        span: Span::CallSite,
    };
    let replies = ask_input(&input);
    assert_eq!(replies.attrs.len(), 1);
    assert_eq!(replies.fields.len(), 1);
    assert_eq!(replies.fields[0].len(), 2);
}

#[test]
fn a_shape_is_read_with_the_answers_about_each_field() {
    let field = |name: &str, attrs: Vec<Attribute>| NamedField {
        attrs,
        ident: name.to_string(),
        ty: "T".to_string(),
        span: Span::CallSite,
    };
    let fields = Fields::Named(vec![field("a", vec![]), field("b", vec![seeded(with_x())])]);
    let replies = vec![vec![], vec![vec![Reply::Nothing, Reply::Syntax(Ok(()))]]];
    match SerializedFields::new_with(&fields, &replies).unwrap() {
        SerializedFields::Named(v) => assert_eq!(v[1].attrs.with.as_deref(), Some("x ")),
        other => panic!("unexpected: {:?}", other),
    }
    let replies = vec![vec![], vec![vec![Reply::Nothing, Reply::Syntax(Err("no".to_string()))]]];
    assert!(matches!(SerializedFields::new_with(&fields, &replies), Err(Error::Parse(_))));
}

#[test]
fn an_implementation_is_written_with_the_answers_given() {
    let input = DeriveInput {
        attrs: vec![seeded(vec![
            ident("ser", 1),
            parens(vec![ident("seed", 2), parens(vec![ident("Q", 3)], 4)], 5),
            comma(6),
            ident("de", 7),
            parens(vec![ident("seed", 8), parens(vec![ident("Q", 9)], 10)], 11),
        ])],
        ident: "T".to_string(),
        generics: Generics { params: vec![], where_clause: vec![] },
        data: Data::Struct(DataStruct { fields: Fields::Unit }),
        span: Span::CallSite,
    };
    let fine = || Reply::Entries(vec![Reply::Nothing, Reply::Syntax(Ok(()))]);
    let replies = Replies {
        attrs: vec![vec![Reply::Nothing, fine(), Reply::Nothing, Reply::Nothing, fine()]],
        fields: vec![vec![]],
    };
    let out = serde_seeded::ser::derive_with(&input, &replies).unwrap();
    assert!(out.contains("::serde_seeded::SerializeSeeded<Q > for T"));
    let out = serde_seeded::de::derive_with(&input, &replies).unwrap();
    assert!(out.contains("::serde_seeded::DeserializeSeeded<'de, Q > for T"));
    let refused = Reply::Entries(vec![Reply::Nothing, Reply::Syntax(Err("no type".to_string()))]);
    let replies = Replies {
        attrs: vec![vec![Reply::Nothing, refused, Reply::Nothing, Reply::Nothing, fine()]],
        fields: vec![vec![]],
    };
    match serde_seeded::ser::derive_with(&input, &replies) {
        Err(e) => {
            assert_eq!(e.to_string(), "no type");
            assert_eq!(e.span(), Span::At(4));
        }
        other => panic!("unexpected: {:?}", other),
    }
}

#[test]
fn outer_attributes_stand_before_a_parameter() {
    let attrs = vec![
        ParamAttribute { outer: true, text: "#[a]".to_string() },
        ParamAttribute { outer: false, text: "#![b]".to_string() },
        ParamAttribute { outer: true, text: "#[c]".to_string() },
    ];
    let p = GenericParam::new(ParamKind::Const, &attrs, "N".to_string(), "usize".to_string());
    assert_eq!(p.kind, ParamKind::Const);
    assert_eq!(p.attrs, "#[a] #[c] ");
    assert_eq!(p.ident, "N");
    assert_eq!(p.bounds, "usize");
    let p = GenericParam::new(ParamKind::Type, &[], "T".to_string(), String::new());
    assert_eq!(p.attrs, "");
}

#[test]
fn attributes_on_a_parameter_are_kept() {
    let tokens = vec![
        ident("params", 1),
        parens(
            vec![
                TokenTree::Punct('#', Spacing::Alone, Span::CallSite),
                TokenTree::Group(Delimiter::Bracket, vec![ident("x", 0)], Span::CallSite),
                ident("T", 0),
            ],
            2,
        ),
    ];
    let a = SerializeAttributes::parse(&tokens, Span::CallSite).unwrap();
    assert_eq!(a.params.len(), 1);
    assert_eq!(a.params[0].ident, "T");
    assert_eq!(a.params[0].attrs.replace(' ', ""), "#[x]");
    assert!(a.params[0].attrs.ends_with(' '));
}
