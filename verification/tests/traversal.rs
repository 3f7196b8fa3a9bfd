use serde_seeded::attributes::FieldAttributes;
use serde_seeded::fields::{SerializedNamedField, SerializedUnnamedField};
use serde_seeded::item::{Fields, Variant};
use serde_seeded::token::Span;
use serde_seeded::traversal::{
    bytes_eq, decode_arm, decode_named, decode_positional, encode_named, encode_positional,
    identify, names_of, names_of_arms, written_keys, DecodeError, Key, Kind, Layout, Source, Step,
};

fn field(id: &str) -> SerializedNamedField {
    SerializedNamedField {
        attrs: FieldAttributes::new(),
        id: id.to_string(),
        ty: "T".to_string(),
        span: Span::CallSite,
    }
}

fn skipped(id: &str) -> SerializedNamedField {
    let mut f = field(id);
    f.attrs.skip = true;
    f
}

fn defaulted(id: &str) -> SerializedNamedField {
    let mut f = field(id);
    f.attrs.default = true;
    f
}

fn optional(id: &str) -> SerializedNamedField {
    let mut f = field(id);
    f.attrs.default = true;
    f.attrs.skip_serializing_if = Some("Option::is_none".to_string());
    f
}

fn positional(index: usize, skip: bool) -> SerializedUnnamedField {
    let mut attrs = FieldAttributes::new();
    attrs.skip = skip;
    SerializedUnnamedField { attrs, index, id: format!("arg_{}", index), ty: "T".to_string() }
}

fn text(s: &str) -> Key {
    Key::Text(s.to_string())
}

fn names(list: &[&str]) -> Vec<String> {
    list.iter().map(|s| s.to_string()).collect()
}

#[test]
fn the_struct_of_two_fields() {
    let fields = vec![field("foo"), field("bar")];
    let encoded = encode_named(&fields, &[false, false]);
    assert_eq!(encoded.len, 2);
    assert_eq!(encoded.steps.len(), 2);
    assert!(matches!(&encoded.steps[0], Step::Field(n, 0) if n == "foo"));
    assert!(matches!(&encoded.steps[1], Step::Field(n, 1) if n == "bar"));
    let keys = written_keys(&encoded.steps);
    assert_eq!(keys.len(), 2);
    assert!(matches!(&keys[0], Key::Text(n) if n == "foo"));
    assert!(matches!(&keys[1], Key::Text(n) if n == "bar"));
    assert_eq!(decode_named(&fields, &keys).unwrap(), vec![Source::Entry(0), Source::Entry(1)]);
    match decode_named(&fields, &[text("bar")]) {
        Err(DecodeError::MissingField(n)) => assert_eq!(n, "foo"),
        other => panic!("unexpected: {:?}", other),
    }
    match decode_named(&fields, &[text("foo"), text("bar"), text("baz")]) {
        Err(DecodeError::UnknownField(n, known)) => {
            assert_eq!(n, "baz");
            assert_eq!(known, names(&["foo", "bar"]));
        }
        other => panic!("unexpected: {:?}", other),
    }
}

#[test]
fn keys_may_come_in_any_order() {
    let fields = vec![field("foo"), field("bar")];
    assert_eq!(
        decode_named(&fields, &[text("bar"), text("foo")]).unwrap(),
        vec![Source::Entry(1), Source::Entry(0)]
    );
}

#[test]
fn the_last_of_equal_keys_wins() {
    let fields = vec![field("foo"), field("bar")];
    assert_eq!(
        decode_named(&fields, &[text("foo"), text("bar"), text("foo")]).unwrap(),
        vec![Source::Entry(2), Source::Entry(1)]
    );
}

#[test]
fn an_unknown_key_is_refused_before_a_missing_field() {
    let fields = vec![field("foo"), field("bar")];
    match decode_named(&fields, &[text("baz")]) {
        Err(DecodeError::UnknownField(n, _)) => assert_eq!(n, "baz"),
        other => panic!("unexpected: {:?}", other),
    }
}

#[test]
fn the_first_missing_field_is_named() {
    let fields = vec![field("a"), field("b"), field("c")];
    match decode_named(&fields, &[text("a")]) {
        Err(DecodeError::MissingField(n)) => assert_eq!(n, "b"),
        other => panic!("unexpected: {:?}", other),
    }
}

#[test]
fn a_skipped_field_is_never_on_the_wire() {
    let fields = vec![field("a"), skipped("b"), field("c")];
    let encoded = encode_named(&fields, &[false, false, false]);
    assert_eq!(encoded.len, 2);
    assert_eq!(encoded.steps.len(), 2);
    assert!(matches!(&encoded.steps[0], Step::Field(n, 0) if n == "a"));
    assert!(matches!(&encoded.steps[1], Step::Field(n, 2) if n == "c"));
    assert_eq!(names_of(&fields), names(&["a", "c"]));
    assert_eq!(
        decode_named(&fields, &written_keys(&encoded.steps)).unwrap(),
        vec![Source::Entry(0), Source::Default, Source::Entry(1)]
    );
    match decode_named(&fields, &[text("a"), text("b"), text("c")]) {
        Err(DecodeError::UnknownField(n, known)) => {
            assert_eq!(n, "b");
            assert_eq!(known, names(&["a", "c"]));
        }
        other => panic!("unexpected: {:?}", other),
    }
}

#[test]
fn a_field_marked_default_may_be_missing() {
    let fields = vec![field("a"), defaulted("b")];
    assert_eq!(
        decode_named(&fields, &[text("a")]).unwrap(),
        vec![Source::Entry(0), Source::Default]
    );
    assert_eq!(
        decode_named(&fields, &[text("b"), text("a")]).unwrap(),
        vec![Source::Entry(1), Source::Entry(0)]
    );
    let fields = vec![field("a"), field("b")];
    match decode_named(&fields, &[text("a")]) {
        Err(DecodeError::MissingField(n)) => assert_eq!(n, "b"),
        other => panic!("unexpected: {:?}", other),
    }
}

#[test]
fn a_field_is_left_out_where_its_predicate_holds() {
    let fields = vec![field("foo"), optional("bar")];
    let absent = encode_named(&fields, &[false, true]);
    assert_eq!(absent.len, 1);
    assert_eq!(absent.steps.len(), 2);
    assert!(matches!(&absent.steps[0], Step::Field(n, 0) if n == "foo"));
    assert!(matches!(&absent.steps[1], Step::Skipped(n) if n == "bar"));
    let keys = written_keys(&absent.steps);
    assert_eq!(keys.len(), 1);
    assert_eq!(decode_named(&fields, &keys).unwrap(), vec![Source::Entry(0), Source::Default]);
    let present = encode_named(&fields, &[false, false]);
    assert_eq!(present.len, 2);
    assert!(matches!(&present.steps[1], Step::Field(n, 1) if n == "bar"));
    let keys = written_keys(&present.steps);
    assert_eq!(decode_named(&fields, &keys).unwrap(), vec![Source::Entry(0), Source::Entry(1)]);
}

#[test]
fn a_predicate_counts_only_where_there_is_one() {
    let fields = vec![field("foo"), optional("bar")];
    let encoded = encode_named(&fields, &[true, false]);
    assert_eq!(encoded.len, 2);
    let encoded = encode_named(&fields, &[]);
    assert_eq!(encoded.len, 2);
    let encoded = encode_named(&fields, &[true, true, true]);
    assert_eq!(encoded.len, 1);
}

#[test]
fn a_field_is_known_by_position_by_text_and_by_bytes() {
    let mut c = field("c");
    c.attrs.rename = Some("sea".to_string());
    let fields = vec![field("a"), skipped("x"), field("r#b"), c];
    let known = names_of(&fields);
    assert_eq!(known, names(&["a", "b", "sea"]));
    for (k, name) in ["a", "b", "sea"].iter().enumerate() {
        assert_eq!(identify(Kind::Field, &known, &Key::Index(k as u64)).unwrap(), k);
        assert_eq!(identify(Kind::Field, &known, &text(name)).unwrap(), k);
        assert_eq!(identify(Kind::Field, &known, &Key::Bytes(name.as_bytes().to_vec())).unwrap(), k);
        assert_eq!(identify(Kind::Variant, &known, &Key::Index(k as u64)).unwrap(), k);
        assert_eq!(identify(Kind::Variant, &known, &text(name)).unwrap(), k);
        assert_eq!(
            identify(Kind::Variant, &known, &Key::Bytes(name.as_bytes().to_vec())).unwrap(),
            k
        );
    }
    assert_eq!(
        decode_named(&fields, &[Key::Index(2), Key::Bytes(b"b".to_vec()), text("a")]).unwrap(),
        vec![Source::Entry(2), Source::Default, Source::Entry(1), Source::Entry(0)]
    );
}

#[test]
fn what_names_no_field_is_refused() {
    let known = names(&["foo", "bar"]);
    match identify(Kind::Field, &known, &Key::Index(2)) {
        Err(DecodeError::InvalidFieldIndex(v)) => assert_eq!(v, 2),
        other => panic!("unexpected: {:?}", other),
    }
    match identify(Kind::Field, &known, &text("baz")) {
        Err(DecodeError::UnknownField(n, k)) => {
            assert_eq!(n, "baz");
            assert_eq!(k, known);
        }
        other => panic!("unexpected: {:?}", other),
    }
    match identify(Kind::Field, &known, &Key::Bytes("bäz".as_bytes().to_vec())) {
        Err(DecodeError::UnknownField(n, k)) => {
            assert_eq!(n, "bäz");
            assert_eq!(k, known);
        }
        other => panic!("unexpected: {:?}", other),
    }
    match identify(Kind::Field, &known, &Key::Bytes(vec![0x66, 0xff])) {
        Err(DecodeError::InvalidValue(b)) => assert_eq!(b, vec![0x66, 0xff]),
        other => panic!("unexpected: {:?}", other),
    }
}

#[test]
fn what_names_no_arm_is_refused() {
    let known = names(&["Unit", "Newtype", "Tuple", "Struct"]);
    match identify(Kind::Variant, &known, &Key::Index(4)) {
        Err(DecodeError::UnknownVariant(n, k)) => {
            assert_eq!(n, "4");
            assert_eq!(k, known);
        }
        other => panic!("unexpected: {:?}", other),
    }
    match identify(Kind::Variant, &known, &text("unit")) {
        Err(DecodeError::UnknownVariant(n, k)) => {
            assert_eq!(n, "unit");
            assert_eq!(k, known);
        }
        other => panic!("unexpected: {:?}", other),
    }
    match identify(Kind::Variant, &known, &Key::Bytes(b"Other".to_vec())) {
        Err(DecodeError::UnknownVariant(n, _)) => assert_eq!(n, "Other"),
        other => panic!("unexpected: {:?}", other),
    }
    match identify(Kind::Variant, &known, &Key::Bytes(vec![0xc0])) {
        Err(DecodeError::InvalidValue(b)) => assert_eq!(b, vec![0xc0]),
        other => panic!("unexpected: {:?}", other),
    }
}

#[test]
fn the_first_of_equal_names_is_found() {
    let known = names(&["a", "b", "a"]);
    assert_eq!(identify(Kind::Field, &known, &text("a")).unwrap(), 0);
    assert_eq!(identify(Kind::Field, &known, &Key::Bytes(b"a".to_vec())).unwrap(), 0);
    assert_eq!(identify(Kind::Field, &known, &Key::Index(2)).unwrap(), 2);
}

#[test]
fn positional_fields_travel_by_how_many_are_left() {
    assert!(matches!(encode_positional(&[]), Layout::Unit));
    assert!(matches!(encode_positional(&[positional(0, true)]), Layout::Unit));
    assert!(matches!(encode_positional(&[positional(0, false)]), Layout::Newtype(0)));
    assert!(matches!(
        encode_positional(&[positional(0, true), positional(1, false), positional(2, true)]),
        Layout::Newtype(1)
    ));
    match encode_positional(&[positional(0, false), positional(1, true), positional(2, false)]) {
        Layout::Tuple(on_wire) => assert_eq!(on_wire, vec![0, 2]),
        other => panic!("unexpected: {:?}", other),
    }
}

#[test]
fn positional_fields_come_back_from_where_they_went() {
    let fields = vec![positional(0, false), positional(1, true), positional(2, false)];
    assert_eq!(
        decode_positional(&fields, 2).unwrap(),
        vec![Source::Entry(0), Source::Default, Source::Entry(1)]
    );
    assert_eq!(
        decode_positional(&fields, 5).unwrap(),
        vec![Source::Entry(0), Source::Default, Source::Entry(1)]
    );
    let fields = vec![positional(0, true), positional(1, false)];
    assert_eq!(decode_positional(&fields, 0).unwrap(), vec![Source::Default, Source::Entry(0)]);
    let fields = vec![positional(0, true), positional(1, true)];
    assert_eq!(decode_positional(&fields, 0).unwrap(), vec![Source::Default, Source::Default]);
    assert_eq!(decode_positional(&[], 0).unwrap(), vec![]);
}

#[test]
fn a_sequence_that_ends_early_is_refused() {
    let fields = vec![positional(0, false), positional(1, true), positional(2, false), positional(3, false)];
    match decode_positional(&fields, 1) {
        Err(DecodeError::InvalidLength(at, expected)) => {
            assert_eq!(at, 1);
            assert_eq!(expected, "3 arguments");
        }
        other => panic!("unexpected: {:?}", other),
    }
    match decode_positional(&fields, 0) {
        Err(DecodeError::InvalidLength(at, expected)) => {
            assert_eq!(at, 0);
            assert_eq!(expected, "3 arguments");
        }
        other => panic!("unexpected: {:?}", other),
    }
    match decode_positional(&fields, 2) {
        Err(DecodeError::InvalidLength(at, _)) => assert_eq!(at, 2),
        other => panic!("unexpected: {:?}", other),
    }
    assert!(decode_positional(&fields, 3).is_ok());
}

#[test]
fn byte_strings_are_compared_byte_by_byte() {
    assert!(bytes_eq(b"", b""));
    assert!(bytes_eq(b"abc", b"abc"));
    assert!(!bytes_eq(b"abc", b"abd"));
    assert!(!bytes_eq(b"abc", b"ab"));
    assert!(!bytes_eq(b"", b"a"));
}

fn arm(name: &str) -> Variant {
    Variant { ident: name.to_string(), fields: Fields::Unit }
}

#[test]
fn an_arm_is_found_again() {
    let arms = vec![arm("Unit"), arm("Newtype"), arm("Tuple"), arm("Struct")];
    assert_eq!(names_of_arms(&arms), names(&["Unit", "Newtype", "Tuple", "Struct"]));
    for (i, v) in arms.iter().enumerate() {
        assert_eq!(decode_arm(&arms, &Key::Index(i as u64)).unwrap(), i);
        assert_eq!(decode_arm(&arms, &text(&v.ident)).unwrap(), i);
        assert_eq!(decode_arm(&arms, &Key::Bytes(v.ident.as_bytes().to_vec())).unwrap(), i);
    }
    match decode_arm(&arms, &Key::Index(4)) {
        Err(DecodeError::UnknownVariant(n, known)) => {
            assert_eq!(n, "4");
            assert_eq!(known.len(), 4);
        }
        other => panic!("unexpected: {:?}", other),
    }
    match decode_arm(&[], &text("Unit")) {
        Err(DecodeError::UnknownVariant(n, known)) => {
            assert_eq!(n, "Unit");
            assert_eq!(known.len(), 0);
        }
        other => panic!("unexpected: {:?}", other),
    }
}

#[test]
fn a_unit_holds_nothing() {
    assert_eq!(decode_named(&[], &[]).unwrap(), vec![]);
    let encoded = encode_named(&[], &[]);
    assert_eq!(encoded.len, 0);
    assert_eq!(encoded.steps.len(), 0);
    assert!(matches!(decode_named(&[], &[text("x")]), Err(DecodeError::UnknownField(_, _))));
}
