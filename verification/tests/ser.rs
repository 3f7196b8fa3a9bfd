use serde_seeded::attributes;
use serde_seeded::attributes::{FieldAttributes, SerializeAttributes, TypeAttributes};
use serde_seeded::fields::SerializedFields;
use serde_seeded::item::{
    Attribute, Data, DataEnum, DataStruct, DataUnion, DeriveInput, Fields, GenericParam, Generics,
    Meta, NamedField, ParamKind, UnnamedField, Variant, WherePredicate,
};
use serde_seeded::ser;
use serde_seeded::ser::{Error, SerializedVariant};
use serde_seeded::token::{Delimiter, Spacing, Span, TokenTree};

fn ident(s: &str) -> TokenTree {
    TokenTree::Ident(s.to_string(), Span::CallSite)
}

fn comma() -> TokenTree {
    TokenTree::Punct(',', Spacing::Alone, Span::CallSite)
}

fn parens(inner: Vec<TokenTree>) -> TokenTree {
    TokenTree::Group(Delimiter::Parenthesis, inner, Span::CallSite)
}

fn seeded(tokens: Vec<TokenTree>) -> Attribute {
    Attribute { path: "seeded".to_string(), meta: Meta::List(tokens), span: Span::CallSite }
}

fn ser_seed(name: &str) -> Attribute {
    seeded(vec![ident("ser"), parens(vec![ident("seed"), parens(vec![ident(name)])])])
}

fn named(name: &str, ty: &str, attrs: Vec<Attribute>) -> NamedField {
    NamedField { attrs, ident: name.to_string(), ty: ty.to_string(), span: Span::CallSite }
}

fn unnamed(ty: &str, attrs: Vec<Attribute>) -> UnnamedField {
    UnnamedField { attrs, ty: ty.to_string() }
}

fn no_generics() -> Generics {
    Generics { params: vec![], where_clause: vec![] }
}

fn type_param(name: &str) -> GenericParam {
    GenericParam {
        kind: ParamKind::Type,
        attrs: String::new(),
        ident: name.to_string(),
        bounds: String::new(),
    }
}

fn spec(seed: &str) -> SerializeAttributes {
    let mut s = SerializeAttributes::new();
    s.seed = Some(seed.to_string());
    s
}

fn body(fields: Fields, variant: Option<SerializedVariant>) -> String {
    let shape = SerializedFields::new(&fields).unwrap();
    ser::fields::derive("T", &no_generics(), &TypeAttributes::new(), &spec("Seed"), variant, &shape)
        .unwrap()
}

fn input(attrs: Vec<Attribute>, ident: &str, generics: Generics, data: Data) -> DeriveInput {
    DeriveInput { attrs, ident: ident.to_string(), generics, data, span: Span::At(77) }
}

const HEAD: &str = "impl  ::serde_seeded::SerializeSeeded<Seed > for T   { fn serialize_seeded<__S>(&self, seed: &Seed , serializer: __S) -> Result<__S::Ok, __S::Error> where __S: ::serde::Serializer { ";
const TAIL: &str = " } } ";

#[test]
fn ser_unit_struct_body() {
    assert_eq!(body(Fields::Unit, None), "serializer.serialize_unit_struct(\"T\")");
    assert_eq!(body(Fields::Unnamed(vec![]), None), "serializer.serialize_unit_struct(\"T\")");
    assert_eq!(body(Fields::Named(vec![]), None), "serializer.serialize_unit_struct(\"T\")");
}

#[test]
fn ser_unit_variant_body() {
    let name = "V".to_string();
    let v = SerializedVariant { index: 3, ident: &name };
    assert_eq!(body(Fields::Unit, Some(v)), "serializer.serialize_unit_variant(\"T\", 3u32, \"V\")");
}

#[test]
fn ser_newtype_struct_body() {
    assert_eq!(
        body(Fields::Unnamed(vec![unnamed("u32", vec![])]), None),
        "serializer.serialize_newtype_struct(\"T\", &::serde_seeded::ser::Seeded::new(seed, &self.0))"
    );
}

#[test]
fn ser_newtype_variant_body() {
    let name = "V".to_string();
    let v = SerializedVariant { index: 0, ident: &name };
    assert_eq!(
        body(Fields::Unnamed(vec![unnamed("u32", vec![])]), Some(v)),
        "serializer.serialize_newtype_variant(\"T\", 0u32, \"V\", &::serde_seeded::ser::Seeded::new(seed, arg_0))"
    );
}

#[test]
fn ser_the_one_field_that_is_left_travels_as_a_newtype() {
    let fields = Fields::Unnamed(vec![
        unnamed("A", vec![seeded(vec![ident("skip")])]),
        unnamed("B", vec![]),
        unnamed("C", vec![seeded(vec![ident("skip")])]),
    ]);
    assert_eq!(
        body(fields, None),
        "serializer.serialize_newtype_struct(\"T\", &::serde_seeded::ser::Seeded::new(seed, &self.1))"
    );
}

#[test]
fn ser_positional_fields_that_are_all_skipped_travel_as_a_unit() {
    let fields = Fields::Unnamed(vec![
        unnamed("A", vec![seeded(vec![ident("skip")])]),
        unnamed("B", vec![seeded(vec![ident("skip")])]),
    ]);
    assert_eq!(body(fields, None), "serializer.serialize_unit_struct(\"T\")");
}

#[test]
fn ser_tuple_struct_body() {
    let fields = Fields::Unnamed(vec![unnamed("A", vec![]), unnamed("B", vec![])]);
    assert_eq!(
        body(fields, None),
        "let mut s = serializer.serialize_tuple_struct(\"T\", 2usize)?; \
         ::serde::ser::SerializeTupleStruct::serialize_field(&mut s, &::serde_seeded::ser::Seeded::new(seed, &self.0))?; \
         ::serde::ser::SerializeTupleStruct::serialize_field(&mut s, &::serde_seeded::ser::Seeded::new(seed, &self.1))?; \
         ::serde::ser::SerializeTupleStruct::end(s)"
    );
}

#[test]
fn ser_a_skipped_field_of_a_tuple_takes_no_slot() {
    let fields = Fields::Unnamed(vec![
        unnamed("A", vec![]),
        unnamed("B", vec![seeded(vec![ident("skip")])]),
        unnamed("C", vec![]),
    ]);
    assert_eq!(
        body(fields, None),
        "let mut s = serializer.serialize_tuple_struct(\"T\", 2usize)?; \
         ::serde::ser::SerializeTupleStruct::serialize_field(&mut s, &::serde_seeded::ser::Seeded::new(seed, &self.0))?; \
         ::serde::ser::SerializeTupleStruct::serialize_field(&mut s, &::serde_seeded::ser::Seeded::new(seed, &self.2))?; \
         ::serde::ser::SerializeTupleStruct::end(s)"
    );
}

#[test]
fn ser_tuple_variant_body() {
    let name = "V".to_string();
    let v = SerializedVariant { index: 2, ident: &name };
    let fields = Fields::Unnamed(vec![unnamed("A", vec![]), unnamed("B", vec![])]);
    assert_eq!(
        body(fields, Some(v)),
        "let mut s = serializer.serialize_tuple_variant(\"T\", 2u32, \"V\", 2usize)?; \
         ::serde::ser::SerializeTupleVariant::serialize_field(&mut s, &::serde_seeded::ser::Seeded::new(seed, arg_0))?; \
         ::serde::ser::SerializeTupleVariant::serialize_field(&mut s, &::serde_seeded::ser::Seeded::new(seed, arg_1))?; \
         ::serde::ser::SerializeTupleVariant::end(s)"
    );
}

#[test]
fn ser_struct_body() {
    let fields = Fields::Named(vec![named("foo", "bool", vec![]), named("bar", "u32", vec![])]);
    assert_eq!(
        body(fields, None),
        "let mut s = serializer.serialize_struct(\"T\", 0 + 1 + 1)?; \
         ::serde::ser::SerializeStruct::serialize_field(&mut s, \"foo\", &::serde_seeded::ser::Seeded::new(seed, &self.foo))?; \
         ::serde::ser::SerializeStruct::serialize_field(&mut s, \"bar\", &::serde_seeded::ser::Seeded::new(seed, &self.bar))?; \
         ::serde::ser::SerializeStruct::end(s)"
    );
}

#[test]
fn ser_a_skipped_named_field_is_neither_counted_nor_written() {
    let fields = Fields::Named(vec![
        named("foo", "bool", vec![seeded(vec![ident("skip")])]),
        named("bar", "u32", vec![]),
    ]);
    assert_eq!(
        body(fields, None),
        "let mut s = serializer.serialize_struct(\"T\", 0 + 1)?; \
         ::serde::ser::SerializeStruct::serialize_field(&mut s, \"bar\", &::serde_seeded::ser::Seeded::new(seed, &self.bar))?; \
         ::serde::ser::SerializeStruct::end(s)"
    );
}

#[test]
fn ser_named_fields_that_are_all_skipped_travel_as_an_empty_struct() {
    let fields = Fields::Named(vec![named("foo", "bool", vec![seeded(vec![ident("skip")])])]);
    assert_eq!(
        body(fields, None),
        "let mut s = serializer.serialize_struct(\"T\", 0)?; ::serde::ser::SerializeStruct::end(s)"
    );
}

#[test]
fn ser_a_field_with_a_predicate_is_left_out_where_it_holds() {
    let fields = Fields::Named(vec![named(
        "bar",
        "Option<u32>",
        vec![seeded(vec![
            ident("skip_serializing_if"),
            parens(vec![ident("is_none")]),
            comma(),
            ident("rename"),
            parens(vec![TokenTree::Literal("\"b\"".to_string(), Span::CallSite)]),
        ])],
    )]);
    assert_eq!(
        body(fields, None),
        "let mut s = serializer.serialize_struct(\"T\", 0 + if is_none (&self.bar) { 0 } else { 1 })?; \
         if is_none (&self.bar) { ::serde::ser::SerializeStruct::skip_field(&mut s, \"b\")?; } else { \
         ::serde::ser::SerializeStruct::serialize_field(&mut s, \"b\", &::serde_seeded::ser::Seeded::new(seed, &self.bar))?; } \
         ::serde::ser::SerializeStruct::end(s)"
    );
}

#[test]
fn ser_struct_variant_body() {
    let name = "V".to_string();
    let v = SerializedVariant { index: 1, ident: &name };
    let fields = Fields::Named(vec![
        named("foo", "u32", vec![]),
        named("bar", "Option<bool>", vec![seeded(vec![ident("skip_serializing_if"), parens(vec![ident("p")])])]),
    ]);
    assert_eq!(
        body(fields, Some(v)),
        "let mut s = serializer.serialize_struct_variant(\"T\", 1u32, \"V\", 0 + 1 + if p (bar) { 0 } else { 1 })?; \
         ::serde::ser::SerializeStructVariant::serialize_field(&mut s, \"foo\", &::serde_seeded::ser::Seeded::new(seed, foo))?; \
         if p (bar) { ::serde::ser::SerializeStructVariant::skip_field(&mut s, \"bar\")?; } else { \
         ::serde::ser::SerializeStructVariant::serialize_field(&mut s, \"bar\", &::serde_seeded::ser::Seeded::new(seed, bar))?; } \
         ::serde::ser::SerializeStructVariant::end(s)"
    );
}

#[test]
fn ser_the_wire_name_of_the_type_can_be_set() {
    let mut attrs = TypeAttributes::new();
    attrs.rename = Some("Other".to_string());
    let out = ser::fields::derive(
        "T",
        &no_generics(),
        &attrs,
        &spec("Seed"),
        None,
        &SerializedFields::Unit,
    )
    .unwrap();
    assert_eq!(out, "serializer.serialize_unit_struct(\"Other\")");
}

#[test]
fn ser_value_serializer_pairs_the_value_with_the_seed() {
    let out = ser::value_serializer(
        "T",
        &no_generics(),
        &spec("Seed"),
        &FieldAttributes::new(),
        "u32",
        "&self.x".to_string(),
    )
    .unwrap();
    assert_eq!(out, "::serde_seeded::ser::Seeded::new(seed, &self.x)");
}

#[test]
fn ser_value_serializer_wraps_a_value_with_a_module() {
    let mut attrs = FieldAttributes::new();
    attrs.with = Some("m".to_string());
    let generics = Generics { params: vec![type_param("A")], where_clause: vec![] };
    let mut s = spec("Seed");
    s.params.push(type_param("X"));
    let out = ser::value_serializer("T", &generics, &s, &attrs, "u32", "&self.x".to_string()).unwrap();
    assert_eq!(
        out,
        "{ struct SerializeWith <'value, A, >  { value: &'value u32, p: ::core::marker::PhantomData<T <A, >> } \
         impl <'value, A, X, > ::serde_seeded::SerializeSeeded<Seed> for SerializeWith <'value, A, >  { \
         fn serialize_seeded<__S>(&self, seed: &Seed, serializer: __S) -> Result<__S::Ok, __S::Error> where __S: ::serde::Serializer { \
         m :: serialize_seeded(self.value, seed, serializer) } } \
         ::serde_seeded::ser::Seeded::new(seed, SerializeWith { value: &self.x, p: ::core::marker::PhantomData::<T <A, >> }) }"
    );
    assert!(syn::parse_str::<syn::Expr>(&out).is_ok());
}

#[test]
fn ser_a_module_needs_a_seed_type() {
    let mut attrs = FieldAttributes::new();
    attrs.with = Some("m".to_string());
    let r = ser::value_serializer(
        "T",
        &no_generics(),
        &SerializeAttributes::new(),
        &attrs,
        "u32",
        "x".to_string(),
    );
    assert!(matches!(r, Err(Error::Attribute(attributes::Error::MissingSeed))));
    let fields = Fields::Named(vec![named(
        "foo",
        "u32",
        vec![seeded(vec![ident("with"), parens(vec![ident("m")])])],
    )]);
    let shape = SerializedFields::new(&fields).unwrap();
    let r = ser::fields::derive(
        "T",
        &no_generics(),
        &TypeAttributes::new(),
        &SerializeAttributes::new(),
        None,
        &shape,
    );
    assert!(matches!(r, Err(Error::Attribute(attributes::Error::MissingSeed))));
    let fields = Fields::Named(vec![named(
        "foo",
        "u32",
        vec![seeded(vec![ident("with"), parens(vec![ident("m")]), comma(), ident("skip")])],
    )]);
    let shape = SerializedFields::new(&fields).unwrap();
    let r = ser::fields::derive(
        "T",
        &no_generics(),
        &TypeAttributes::new(),
        &SerializeAttributes::new(),
        None,
        &shape,
    );
    assert!(r.is_ok());
}

#[test]
fn ser_derive_writes_one_implementation_for_each_seed() {
    let out = ser::derive(input(
        vec![ser_seed("Seed")],
        "T",
        no_generics(),
        Data::Struct(DataStruct { fields: Fields::Unit }),
    ))
    .unwrap();
    assert_eq!(out, format!("{}{}{}", HEAD, "serializer.serialize_unit_struct(\"T\")", TAIL));
    let out = ser::derive(input(
        vec![ser_seed("A"), ser_seed("B")],
        "T",
        no_generics(),
        Data::Struct(DataStruct { fields: Fields::Unit }),
    ))
    .unwrap();
    let file = syn::parse_str::<syn::File>(&out).unwrap();
    assert_eq!(file.items.len(), 2);
    assert!(out.contains("SerializeSeeded<A >"));
    assert!(out.contains("SerializeSeeded<B >"));
    assert!(out.find("SerializeSeeded<A >").unwrap() < out.find("SerializeSeeded<B >").unwrap());
}

#[test]
fn ser_derive_without_a_seed_specification_writes_nothing() {
    let out = ser::derive(input(
        vec![],
        "T",
        no_generics(),
        Data::Union(DataUnion { union_token: Span::At(1) }),
    ))
    .unwrap();
    assert_eq!(out, "");
    let de_only = seeded(vec![ident("de"), parens(vec![ident("seed"), parens(vec![ident("S")])])]);
    let out = ser::derive(input(
        vec![de_only],
        "T",
        no_generics(),
        Data::Struct(DataStruct { fields: Fields::Unit }),
    ))
    .unwrap();
    assert_eq!(out, "");
}

#[test]
fn ser_derive_bounds_every_type_parameter() {
    let generics = Generics {
        params: vec![
            type_param("A"),
            GenericParam {
                kind: ParamKind::Lifetime,
                attrs: String::new(),
                ident: "'x".to_string(),
                bounds: String::new(),
            },
            type_param("B"),
        ],
        where_clause: vec![WherePredicate { subject: "A".to_string(), text: "A: Clone".to_string() }],
    };
    let out = ser::derive(input(
        vec![ser_seed("Seed")],
        "T",
        generics,
        Data::Struct(DataStruct { fields: Fields::Unit }),
    ))
    .unwrap();
    assert_eq!(
        out,
        "impl <'x, A, B, > ::serde_seeded::SerializeSeeded<Seed > for T <'x, A, B, > \
         where A: Clone, A: ::serde_seeded::SerializeSeeded<Seed >, B: ::serde_seeded::SerializeSeeded<Seed >,  \
         { fn serialize_seeded<__S>(&self, seed: &Seed , serializer: __S) -> Result<__S::Ok, __S::Error> where __S: ::serde::Serializer { \
         serializer.serialize_unit_struct(\"T\") } } "
    );
    assert!(syn::parse_str::<syn::File>(&out).is_ok());
}

#[test]
fn ser_derive_for_an_enum_matches_on_the_arms() {
    let data = Data::Enum(DataEnum {
        enum_token: Span::At(5),
        variants: vec![
            Variant { ident: "Unit".to_string(), fields: Fields::Unit },
            Variant { ident: "Newtype".to_string(), fields: Fields::Unnamed(vec![unnamed("u32", vec![])]) },
            Variant {
                ident: "Tuple".to_string(),
                fields: Fields::Unnamed(vec![unnamed("u32", vec![]), unnamed("bool", vec![])]),
            },
            Variant {
                ident: "Struct".to_string(),
                fields: Fields::Named(vec![named("foo", "u32", vec![]), named("bar", "bool", vec![])]),
            },
        ],
    });
    let out = ser::derive(input(vec![ser_seed("Seed")], "T", no_generics(), data)).unwrap();
    let expected_body = "match self { \
        Self::Unit  => { serializer.serialize_unit_variant(\"T\", 0u32, \"Unit\") }, \
        Self::Newtype (arg_0, ) => { serializer.serialize_newtype_variant(\"T\", 1u32, \"Newtype\", &::serde_seeded::ser::Seeded::new(seed, arg_0)) }, \
        Self::Tuple (arg_0, arg_1, ) => { let mut s = serializer.serialize_tuple_variant(\"T\", 2u32, \"Tuple\", 2usize)?; \
        ::serde::ser::SerializeTupleVariant::serialize_field(&mut s, &::serde_seeded::ser::Seeded::new(seed, arg_0))?; \
        ::serde::ser::SerializeTupleVariant::serialize_field(&mut s, &::serde_seeded::ser::Seeded::new(seed, arg_1))?; \
        ::serde::ser::SerializeTupleVariant::end(s) }, \
        Self::Struct { foo, bar, } => { let mut s = serializer.serialize_struct_variant(\"T\", 3u32, \"Struct\", 0 + 1 + 1)?; \
        ::serde::ser::SerializeStructVariant::serialize_field(&mut s, \"foo\", &::serde_seeded::ser::Seeded::new(seed, foo))?; \
        ::serde::ser::SerializeStructVariant::serialize_field(&mut s, \"bar\", &::serde_seeded::ser::Seeded::new(seed, bar))?; \
        ::serde::ser::SerializeStructVariant::end(s) }, }";
    assert_eq!(out, format!("{}{}{}", HEAD, expected_body, TAIL));
    assert!(syn::parse_str::<syn::File>(&out).is_ok());
}

#[test]
fn ser_a_transparent_struct_forwards_to_its_field() {
    let transparent = seeded(vec![ident("transparent")]);
    let data = Data::Struct(DataStruct {
        fields: Fields::Named(vec![
            named("a", "A", vec![seeded(vec![ident("skip")])]),
            named("b", "B", vec![]),
        ]),
    });
    let out = ser::derive(input(vec![ser_seed("Seed"), transparent], "T", no_generics(), data)).unwrap();
    assert_eq!(
        out,
        format!(
            "{}{}{}",
            HEAD, "::serde_seeded::SerializeSeeded::serialize_seeded(&self.b, seed, serializer)", TAIL
        )
    );
    let transparent = seeded(vec![ident("transparent")]);
    let data = Data::Struct(DataStruct { fields: Fields::Unnamed(vec![unnamed("A", vec![])]) });
    let out = ser::derive(input(vec![ser_seed("Seed"), transparent], "T", no_generics(), data)).unwrap();
    assert_eq!(
        out,
        format!(
            "{}{}{}",
            HEAD, "::serde_seeded::SerializeSeeded::serialize_seeded(&self.0, seed, serializer)", TAIL
        )
    );
}

#[test]
fn ser_what_cannot_be_derived_is_refused() {
    let transparent = || seeded(vec![ident("transparent")]);
    let r = ser::derive(input(
        vec![ser_seed("Seed"), transparent()],
        "T",
        no_generics(),
        Data::Struct(DataStruct { fields: Fields::Unit }),
    ));
    match r {
        Err(e @ Error::TransparentUnit(_)) => {
            assert_eq!(e.span(), Span::At(77));
            assert_eq!(e.to_string(), "cannot serialize unit struct transparently");
        }
        other => panic!("unexpected: {:?}", other),
    }
    let r = ser::derive(input(
        vec![ser_seed("Seed"), transparent()],
        "T",
        no_generics(),
        Data::Struct(DataStruct { fields: Fields::Named(vec![]) }),
    ));
    assert!(matches!(r, Err(Error::TransparentUnit(Span::At(77)))));
    let r = ser::derive(input(
        vec![ser_seed("Seed"), transparent()],
        "T",
        no_generics(),
        Data::Enum(DataEnum { enum_token: Span::At(5), variants: vec![] }),
    ));
    match r {
        Err(e @ Error::TransparentEnum(_)) => {
            assert_eq!(e.span(), Span::At(5));
            assert_eq!(e.to_string(), "`enum` cannot be transparent");
        }
        other => panic!("unexpected: {:?}", other),
    }
    let r = ser::derive(input(
        vec![ser_seed("Seed")],
        "T",
        no_generics(),
        Data::Union(DataUnion { union_token: Span::At(6) }),
    ));
    match r {
        Err(e @ Error::Union(_)) => {
            assert_eq!(e.span(), Span::At(6));
            assert_eq!(e.to_string(), "unsupported `union` type");
        }
        other => panic!("unexpected: {:?}", other),
    }
    let r = ser::derive(input(
        vec![ser_seed("Seed"), transparent()],
        "T",
        no_generics(),
        Data::Union(DataUnion { union_token: Span::At(6) }),
    ));
    assert!(matches!(r, Err(Error::Union(Span::At(6)))));
    let r = ser::derive(input(
        vec![seeded(vec![ident("ser"), parens(vec![])])],
        "T",
        no_generics(),
        Data::Struct(DataStruct { fields: Fields::Unit }),
    ));
    match r {
        Err(e @ Error::Attribute(attributes::Error::MissingSeed)) => {
            assert_eq!(e.span(), Span::CallSite);
            assert_eq!(e.to_string(), "missing seed type");
        }
        other => panic!("unexpected: {:?}", other),
    }
    let r = ser::derive(input(
        vec![seeded(vec![ident("nope")])],
        "T",
        no_generics(),
        Data::Struct(DataStruct { fields: Fields::Unit }),
    ));
    assert!(matches!(r, Err(Error::Attribute(attributes::Error::Parse(_)))));
    let r = ser::derive(input(
        vec![ser_seed("Seed")],
        "T",
        no_generics(),
        Data::Struct(DataStruct {
            fields: Fields::Named(vec![named("a", "A", vec![seeded(vec![ident("nope")])])]),
        }),
    ));
    assert!(matches!(r, Err(Error::Attribute(attributes::Error::Parse(_)))));
}

#[test]
fn ser_additional_predicates_pass_over_what_is_overridden() {
    let generics = Generics {
        params: vec![
            type_param("A"),
            type_param("B"),
            GenericParam {
                kind: ParamKind::Const,
                attrs: String::new(),
                ident: "N".to_string(),
                bounds: "usize".to_string(),
            },
        ],
        where_clause: vec![],
    };
    let overrides = vec![WherePredicate { subject: "A".to_string(), text: "A: Clone".to_string() }];
    let r = ser::additional_predicates(&generics, "Seed", &overrides);
    assert_eq!(r.len(), 1);
    assert_eq!(r[0].subject, "B");
    assert_eq!(r[0].text, "B: ::serde_seeded::SerializeSeeded<Seed>");
    let r = ser::additional_predicates(&generics, "Seed", &[]);
    assert_eq!(r.len(), 2);
    assert_eq!(r[0].text, "A: ::serde_seeded::SerializeSeeded<Seed>");
    assert_eq!(r[1].text, "B: ::serde_seeded::SerializeSeeded<Seed>");
}

#[test]
fn ser_split_ser_generics_gives_the_parts_of_a_header() {
    let generics = Generics {
        params: vec![type_param("A")],
        where_clause: vec![WherePredicate { subject: "A".to_string(), text: "A: Clone".to_string() }],
    };
    let extra = vec![type_param("X")];
    let (i, t, w) = ser::split_ser_generics(&generics, &extra);
    let mut a = String::new();
    i.to_tokens(&mut a);
    let mut b = String::from("T");
    t.to_tokens(&mut b);
    assert_eq!(a, "<A, X, >");
    assert_eq!(b, "T<A, >");
    assert_eq!(w.len(), 1);
}

#[test]
fn ser_a_skipped_field_of_an_arm_is_not_bound() {
    let data = Data::Enum(DataEnum {
        enum_token: Span::At(5),
        variants: vec![
            Variant {
                ident: "A".to_string(),
                fields: Fields::Unnamed(vec![
                    unnamed("u32", vec![seeded(vec![ident("skip")])]),
                    unnamed("bool", vec![]),
                ]),
            },
            Variant {
                ident: "B".to_string(),
                fields: Fields::Named(vec![
                    named("foo", "u32", vec![]),
                    named("bar", "bool", vec![seeded(vec![ident("skip")])]),
                ]),
            },
            Variant { ident: "C".to_string(), fields: Fields::Unnamed(vec![]) },
            Variant { ident: "D".to_string(), fields: Fields::Named(vec![]) },
        ],
    });
    let out = ser::derive(input(vec![ser_seed("Seed")], "T", no_generics(), data)).unwrap();
    assert!(out.contains("Self::A (_, arg_1, ) => { serializer.serialize_newtype_variant(\"T\", 0u32, \"A\", "));
    assert!(out.contains("Self::B { foo, bar: _, } => { let mut s = serializer.serialize_struct_variant(\"T\", 1u32, \"B\", 0 + 1)?; "));
    assert!(out.contains("Self::C () => { serializer.serialize_unit_variant(\"T\", 2u32, \"C\") }, "));
    assert!(out.contains("Self::D { } => { serializer.serialize_unit_variant(\"T\", 3u32, \"D\") }, "));
    assert!(syn::parse_str::<syn::File>(&out).is_ok());
}
