use serde_seeded::attributes::{Error, FieldAttributes, ParseErrorKind};
use serde_seeded::fields::{
    count_unskipped, find_unskipped, skips_of_named, skips_of_unnamed, SerializedFields,
    SerializedNamedField,
};
use serde_seeded::item::{Attribute, Fields, Meta, NamedField, UnnamedField};
use serde_seeded::token::{Delimiter, Spacing, Span, TokenTree};

fn ident(s: &str, at: u64) -> TokenTree {
    TokenTree::Ident(s.to_string(), Span::At(at))
}

fn seeded(tokens: Vec<TokenTree>) -> Attribute {
    Attribute { path: "seeded".to_string(), meta: Meta::List(tokens), span: Span::CallSite }
}

fn rename(to: &str) -> Attribute {
    seeded(vec![
        ident("rename", 0),
        TokenTree::Group(
            Delimiter::Parenthesis,
            vec![TokenTree::Literal(format!("\"{}\"", to), Span::CallSite)],
            Span::CallSite,
        ),
    ])
}

fn named(name: &str, ty: &str, attrs: Vec<Attribute>, at: u64) -> NamedField {
    NamedField { attrs, ident: name.to_string(), ty: ty.to_string(), span: Span::At(at) }
}

fn unnamed(ty: &str, attrs: Vec<Attribute>) -> UnnamedField {
    UnnamedField { attrs, ty: ty.to_string() }
}

#[test]
fn an_empty_list_has_no_payload() {
    assert!(matches!(SerializedFields::new(&Fields::Unit), Ok(SerializedFields::Unit)));
    assert!(matches!(SerializedFields::new(&Fields::Unnamed(vec![])), Ok(SerializedFields::Unit)));
    assert!(matches!(SerializedFields::new(&Fields::Named(vec![])), Ok(SerializedFields::Unit)));
}

#[test]
fn fields_without_names_are_positional() {
    let fields = Fields::Unnamed(vec![
        unnamed("A", vec![]),
        unnamed("B", vec![seeded(vec![ident("skip", 0)])]),
        unnamed("Vec<C>", vec![]),
    ]);
    match SerializedFields::new(&fields).unwrap() {
        SerializedFields::Unnamed(v) => {
            assert_eq!(v.len(), 3);
            assert_eq!((v[0].index, v[0].id.as_str(), v[0].ty.as_str()), (0, "arg_0", "A"));
            assert_eq!((v[1].index, v[1].id.as_str(), v[1].ty.as_str()), (1, "arg_1", "B"));
            assert_eq!((v[2].index, v[2].id.as_str(), v[2].ty.as_str()), (2, "arg_2", "Vec<C>"));
            assert!(!v[0].attrs.skip);
            assert!(v[1].attrs.skip);
            assert!(!v[2].attrs.skip);
        }
        other => panic!("unexpected: {:?}", other),
    }
}

#[test]
fn positions_are_written_in_decimal() {
    let fields = Fields::Unnamed((0..12).map(|_| unnamed("A", vec![])).collect());
    match SerializedFields::new(&fields).unwrap() {
        SerializedFields::Unnamed(v) => {
            assert_eq!(v[9].id, "arg_9");
            assert_eq!(v[10].id, "arg_10");
            assert_eq!(v[11].id, "arg_11");
            assert_eq!(v[11].index, 11);
        }
        other => panic!("unexpected: {:?}", other),
    }
}

#[test]
fn fields_with_names_are_named() {
    let fields = Fields::Named(vec![
        named("foo", "A", vec![], 1),
        named("r#type", "B", vec![], 2),
        named("bar", "C", vec![rename("baz")], 3),
    ]);
    match SerializedFields::new(&fields).unwrap() {
        SerializedFields::Named(v) => {
            assert_eq!(v.len(), 3);
            assert_eq!((v[0].id.as_str(), v[0].ty.as_str(), v[0].span), ("foo", "A", Span::At(1)));
            assert_eq!((v[1].id.as_str(), v[1].ty.as_str(), v[1].span), ("r#type", "B", Span::At(2)));
            assert_eq!((v[2].id.as_str(), v[2].ty.as_str(), v[2].span), ("bar", "C", Span::At(3)));
            assert_eq!(v[0].name(), "foo");
            assert_eq!(v[1].name(), "type");
            assert_eq!(v[2].name(), "baz");
        }
        other => panic!("unexpected: {:?}", other),
    }
}

#[test]
fn the_first_field_with_bad_attributes_gives_the_error() {
    let fields = Fields::Named(vec![
        named("a", "A", vec![], 1),
        named("b", "B", vec![seeded(vec![ident("first", 7)])], 2),
        named("c", "C", vec![seeded(vec![ident("second", 8)])], 3),
    ]);
    match SerializedFields::new(&fields) {
        Err(Error::Parse(e)) => {
            assert_eq!(e.span, Span::At(7));
            assert!(matches!(e.kind, ParseErrorKind::UnexpectedIdent));
        }
        other => panic!("unexpected: {:?}", other),
    }
    let fields = Fields::Unnamed(vec![
        unnamed("A", vec![Attribute { path: "seeded".to_string(), meta: Meta::Path, span: Span::At(5) }]),
        unnamed("B", vec![seeded(vec![ident("second", 8)])]),
    ]);
    assert!(matches!(SerializedFields::new(&fields), Err(Error::ExpectedMetaList(Span::At(5)))));
}

#[test]
fn other_attributes_are_passed_over() {
    let doc = Attribute {
        path: "doc".to_string(),
        meta: Meta::List(vec![TokenTree::Punct('?', Spacing::Alone, Span::CallSite)]),
        span: Span::CallSite,
    };
    let fields = Fields::Named(vec![named("a", "A", vec![doc], 1)]);
    assert!(matches!(SerializedFields::new(&fields), Ok(SerializedFields::Named(_))));
}

fn field(id: &str, skip: bool) -> SerializedNamedField {
    let mut attrs = FieldAttributes::new();
    attrs.skip = skip;
    SerializedNamedField { attrs, id: id.to_string(), ty: "T".to_string(), span: Span::CallSite }
}

#[test]
fn fields_that_are_not_skipped_are_counted_and_found() {
    let fields = vec![field("a", true), field("b", false), field("c", true), field("d", false)];
    let skips = skips_of_named(&fields);
    assert_eq!(skips, vec![true, false, true, false]);
    assert_eq!(count_unskipped(&skips), 2);
    assert_eq!(find_unskipped(&skips), Some(1));
    assert_eq!(count_unskipped(&[]), 0);
    assert_eq!(find_unskipped(&[]), None);
    assert_eq!(count_unskipped(&[true, true]), 0);
    assert_eq!(find_unskipped(&[true, true]), None);
    assert_eq!(find_unskipped(&[false, false]), Some(0));
    match SerializedFields::new(&Fields::Unnamed(vec![
        unnamed("A", vec![seeded(vec![ident("skip", 0)])]),
        unnamed("B", vec![]),
    ]))
    .unwrap()
    {
        SerializedFields::Unnamed(v) => assert_eq!(skips_of_unnamed(&v), vec![true, false]),
        other => panic!("unexpected: {:?}", other),
    }
}
