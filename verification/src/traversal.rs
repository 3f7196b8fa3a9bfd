//! The decisions of a generated traversal, as functions on plain values.
//!
//! Generated code alternates between the encoder or decoder it is handed
//! and decisions of its own: which fields are written and how many are
//! announced, which field or arm an identifier on the wire names, where
//! each decoded value goes, and what a field gets in the end. The
//! decisions are made here, on the shape of the fields and on what has
//! arrived; the values themselves stay with the caller, who is told for
//! each field which entry of the wire holds its value.

use vstd::prelude::*;
use vstd::string::*;
use vstd::utf8::{decode_utf8, encode_utf8, encode_utf8_decode_utf8, valid_utf8};
use crate::fields::{
    NamedFieldShape, PositionalField, SerializedNamedField, SerializedUnnamedField, named_skips,
    named_views, positional_skips, positional_views, unskipped,
};
use crate::item::Variant;
use crate::text::{clone_strings, decimal, decimal_text, str_eq, views};

verus! {

/// An identifier as it arrives on the wire.
#[derive(Debug)]
pub enum Key {
    /// A position, from zero.
    Index(u64),
    /// A name as text.
    Text(String),
    /// A name as bytes.
    Bytes(Vec<u8>),
}

/// An identifier as plain values.
pub enum KeyView {
    Index(u64),
    Text(Seq<char>),
    Bytes(Seq<u8>),
}

impl View for Key {
    type V = KeyView;

    open spec fn view(&self) -> KeyView {
        match *self {
            Key::Index(v) => KeyView::Index(v),
            Key::Text(s) => KeyView::Text(s@),
            Key::Bytes(b) => KeyView::Bytes(b@),
        }
    }
}

/// The views of a sequence of keys.
pub open spec fn key_views(keys: Seq<Key>) -> Seq<KeyView> {
    keys.map_values(|k: Key| k@)
}

/// Why a generated traversal refuses what is on the wire.
#[derive(Debug)]
pub enum DecodeError {
    /// A field that must be present is not; its wire name.
    MissingField(String),
    /// A key that names no field, and the names that are known.
    UnknownField(String, Vec<String>),
    /// An identifier that names no arm, and the names that are known.
    UnknownVariant(String, Vec<String>),
    /// A sequence that ends early: the position of the first element that
    /// is missing, and what was expected.
    InvalidLength(usize, String),
    /// A position that names no field.
    InvalidFieldIndex(u64),
    /// A name in bytes that is not text.
    InvalidValue(Vec<u8>),
}

/// A refusal as plain values.
pub enum Refusal {
    MissingField(Seq<char>),
    UnknownField(Seq<char>, Seq<Seq<char>>),
    UnknownVariant(Seq<char>, Seq<Seq<char>>),
    InvalidLength(nat, Seq<char>),
    InvalidFieldIndex(u64),
    InvalidValue(Seq<u8>),
}

impl View for DecodeError {
    type V = Refusal;

    open spec fn view(&self) -> Refusal {
        match *self {
            DecodeError::MissingField(n) => Refusal::MissingField(n@),
            DecodeError::UnknownField(n, known) => Refusal::UnknownField(n@, views(known@)),
            DecodeError::UnknownVariant(n, known) => Refusal::UnknownVariant(n@, views(known@)),
            DecodeError::InvalidLength(i, expected) => Refusal::InvalidLength(i as nat, expected@),
            DecodeError::InvalidFieldIndex(v) => Refusal::InvalidFieldIndex(v),
            DecodeError::InvalidValue(b) => Refusal::InvalidValue(b@),
        }
    }
}

/// What is identified: a field of a record or arm, or an arm of a union.
#[derive(Clone, Copy, Debug, PartialEq, Eq, Structural)]
pub enum Kind {
    Field,
    Variant,
}

/// The wire names of those of the first `n` fields that are not skipped,
/// in order: the identifiers that a decoder knows.
pub open spec fn known_names(fields: Seq<NamedFieldShape>, n: nat) -> Seq<Seq<char>>
    decreases n,
{
    if n == 0 || n > fields.len() {
        Seq::empty()
    } else if fields[n - 1].attrs.skip {
        known_names(fields, (n - 1) as nat)
    } else {
        known_names(fields, (n - 1) as nat).push(fields[n - 1].name())
    }
}

/// The position of the first of the first `n` names that equals `name`.
pub open spec fn position_of(names: Seq<Seq<char>>, name: Seq<char>, n: nat) -> Option<int>
    decreases n,
{
    if n == 0 || n > names.len() {
        None
    } else {
        match position_of(names, name, (n - 1) as nat) {
            Some(i) => Some(i),
            None => if names[n - 1] == name {
                Some(n - 1)
            } else {
                None
            },
        }
    }
}

/// The position of the first of the first `n` names whose bytes equal
/// `bytes`.
pub open spec fn position_of_bytes(names: Seq<Seq<char>>, bytes: Seq<u8>, n: nat) -> Option<int>
    decreases n,
{
    if n == 0 || n > names.len() {
        None
    } else {
        match position_of_bytes(names, bytes, (n - 1) as nat) {
            Some(i) => Some(i),
            None => if encode_utf8(names[n - 1]) == bytes {
                Some(n - 1)
            } else {
                None
            },
        }
    }
}

/// The refusal of a name that is not known.
pub open spec fn unknown(kind: Kind, name: Seq<char>, names: Seq<Seq<char>>) -> Refusal {
    match kind {
        Kind::Field => Refusal::UnknownField(name, names),
        Kind::Variant => Refusal::UnknownVariant(name, names),
    }
}

/// What an identifier on the wire names among `names`: its position.
///
/// A position names the entry at it; a position past the end is refused,
/// for a field as an invalid index, for an arm as unknown under its
/// decimal form. A name as text names the first entry equal to it; any
/// other is refused as unknown. A name as bytes names the first entry with
/// these bytes; any other is refused as unknown if the bytes are text, and
/// as an invalid value if they are not.
pub open spec fn identified(kind: Kind, names: Seq<Seq<char>>, key: KeyView) -> Result<
    int,
    Refusal,
> {
    match key {
        KeyView::Index(v) => if v < names.len() {
            Ok(v as int)
        } else {
            match kind {
                Kind::Field => Err(Refusal::InvalidFieldIndex(v)),
                Kind::Variant => Err(Refusal::UnknownVariant(decimal_text(v as nat), names)),
            }
        },
        KeyView::Text(s) => match position_of(names, s, names.len()) {
            Some(i) => Ok(i),
            None => Err(unknown(kind, s, names)),
        },
        KeyView::Bytes(b) => match position_of_bytes(names, b, names.len()) {
            Some(i) => Ok(i),
            None => if valid_utf8(b) {
                Err(unknown(kind, decode_utf8(b), names))
            } else {
                Err(Refusal::InvalidValue(b))
            },
        },
    }
}

/// Where a field's value comes from in the end.
#[derive(Clone, Copy, Debug, PartialEq, Eq, Structural)]
pub enum Source {
    /// The default of the field's type.
    Default,
    /// The value decoded from the entry at this position of the wire.
    Entry(usize),
}

/// For each known name, the position of the last of the first `m` keys
/// that names it, if one does; or the refusal of the first key that names
/// nothing.
pub open spec fn stored(names: Seq<Seq<char>>, keys: Seq<KeyView>, m: nat) -> Result<
    Seq<Option<int>>,
    Refusal,
>
    decreases m,
{
    if m == 0 || m > keys.len() {
        Ok(Seq::new(names.len(), |w: int| None::<int>))
    } else {
        match stored(names, keys, (m - 1) as nat) {
            Err(e) => Err(e),
            Ok(slots) => match identified(Kind::Field, names, keys[m - 1]) {
                Err(e) => Err(e),
                Ok(w) => Ok(slots.update(w, Some(m - 1))),
            },
        }
    }
}

/// What each of the first `n` fields gets once the keys are exhausted: a
/// skipped field its default; a field that was present the entry it was
/// last stored from; a field that was absent its default where it is
/// marked `default`; and else the absence of the first such field is
/// refused.
pub open spec fn resolved(fields: Seq<NamedFieldShape>, slots: Seq<Option<int>>, n: nat) -> Result<
    Seq<Source>,
    Refusal,
>
    decreases n,
{
    if n == 0 || n > fields.len() {
        Ok(Seq::empty())
    } else {
        match resolved(fields, slots, (n - 1) as nat) {
            Err(e) => Err(e),
            Ok(done) => {
                let f = fields[n - 1];
                if f.attrs.skip {
                    Ok(done.push(Source::Default))
                } else {
                    match slots[unskipped(named_skips(fields), (n - 1) as nat) as int] {
                        Some(j) => Ok(done.push(Source::Entry(j as usize))),
                        None => if f.attrs.default {
                            Ok(done.push(Source::Default))
                        } else {
                            Err(Refusal::MissingField(f.name()))
                        },
                    }
                }
            },
        }
    }
}

/// What decoding named fields from the entries under `keys` gives: for
/// each field where its value comes from, or the refusal.
pub open spec fn decoded_named(fields: Seq<NamedFieldShape>, keys: Seq<KeyView>) -> Result<
    Seq<Source>,
    Refusal,
> {
    match stored(known_names(fields, fields.len()), keys, keys.len()) {
        Err(e) => Err(e),
        Ok(slots) => resolved(fields, slots, fields.len()),
    }
}

/// The known names have one entry for each field that is not skipped.
pub proof fn lemma_known_names(fields: Seq<NamedFieldShape>, n: nat)
    requires
        n <= fields.len(),
    ensures
        known_names(fields, n).len() == unskipped(named_skips(fields), n),
        forall|i: int|
            0 <= i < n && !(#[trigger] fields[i]).attrs.skip ==> unskipped(
                named_skips(fields),
                i as nat,
            ) < known_names(fields, n).len() && known_names(fields, n)[unskipped(
                named_skips(fields),
                i as nat,
            ) as int] == fields[i].name(),
    decreases n,
{
    if n > 0 {
        lemma_known_names(fields, (n - 1) as nat);
        lemma_unskipped_monotone(named_skips(fields), (n - 1) as nat);
        assert forall|i: int| 0 <= i < n && !(#[trigger] fields[i]).attrs.skip implies unskipped(
            named_skips(fields),
            i as nat,
        ) < known_names(fields, n).len() && known_names(fields, n)[unskipped(
            named_skips(fields),
            i as nat,
        ) as int] == fields[i].name() by {
            if i < n - 1 {
                assert(unskipped(named_skips(fields), i as nat) < known_names(
                    fields,
                    (n - 1) as nat,
                ).len());
            }
        }
    }
}

/// Counting the fields that are not skipped never goes down.
pub proof fn lemma_unskipped_monotone(skips: Seq<bool>, n: nat)
    requires
        n <= skips.len(),
    ensures
        forall|i: int| 0 <= i <= n ==> #[trigger] unskipped(skips, i as nat) <= unskipped(skips, n),
        forall|i: int|
            0 <= i < n && !skips[i] ==> #[trigger] unskipped(skips, i as nat) < unskipped(skips, n),
    decreases n,
{
    if n > 0 {
        lemma_unskipped_monotone(skips, (n - 1) as nat);
    }
}

/// `core::str::from_utf8`: the text that bytes are, where they are UTF-8.
/// The text has the very bytes that were given.
#[verifier::external_body]
fn text_of(bytes: &[u8]) -> (r: Option<String>)
    ensures
        match r {
            Some(s) => valid_utf8(bytes@) && encode_utf8(s@) == bytes@,
            None => !valid_utf8(bytes@),
        },
{
    match core::str::from_utf8(bytes) {
        Ok(s) => Some(s.to_owned()),
        Err(_) => None,
    }
}

/// Whether two byte strings are equal.
pub fn bytes_eq(a: &[u8], b: &[u8]) -> (r: bool)
    ensures
        r == (a@ == b@),
{
    if a.len() != b.len() {
        return false;
    }
    let mut i: usize = 0;
    while i < a.len()
        invariant
            i <= a.len(),
            a.len() == b.len(),
            forall|j: int| 0 <= j < i ==> a@[j] == b@[j],
        decreases a.len() - i,
    {
        if a[i] != b[i] {
            return false;
        }
        i += 1;
    }
    assert(a@ =~= b@);
    true
}

/// The wire names of the fields that are not skipped, in order.
pub fn names_of(fields: &[SerializedNamedField]) -> (r: Vec<String>)
    ensures
        views(r@) == known_names(named_views(fields@), fields@.len()),
{
    let mut names: Vec<String> = Vec::new();
    let mut i: usize = 0;
    assert(views(names@) =~= Seq::empty());
    while i < fields.len()
        invariant
            i <= fields.len(),
            views(names@) == known_names(named_views(fields@), i as nat),
        decreases fields.len() - i,
    {
        assert(named_views(fields@)[i as int] == fields@[i as int]@);
        if !fields[i].attrs.skip {
            let name = fields[i].name();
            let ghost before = names@;
            let ghost text = name@;
            names.push(name);
            assert(views(names@) =~= views(before).push(text));
        }
        i += 1;
    }
    names
}

proof fn lemma_position_stays(names: Seq<Seq<char>>, name: Seq<char>, i: nat, n: nat)
    requires
        i <= n <= names.len(),
        position_of(names, name, i) is Some,
    ensures
        position_of(names, name, n) == position_of(names, name, i),
    decreases n,
{
    if n > i {
        lemma_position_stays(names, name, i, (n - 1) as nat);
    }
}

proof fn lemma_position_of_bytes_stays(names: Seq<Seq<char>>, bytes: Seq<u8>, i: nat, n: nat)
    requires
        i <= n <= names.len(),
        position_of_bytes(names, bytes, i) is Some,
    ensures
        position_of_bytes(names, bytes, n) == position_of_bytes(names, bytes, i),
    decreases n,
{
    if n > i {
        lemma_position_of_bytes_stays(names, bytes, i, (n - 1) as nat);
    }
}

fn find_name(names: &[String], name: &str) -> (r: Option<usize>)
    ensures
        match r {
            Some(i) => position_of(views(names@), name@, names@.len()) == Some(i as int),
            None => position_of(views(names@), name@, names@.len()) is None,
        },
{
    let mut i: usize = 0;
    while i < names.len()
        invariant
            i <= names.len(),
            position_of(views(names@), name@, i as nat) is None,
        decreases names.len() - i,
    {
        assert(views(names@)[i as int] == names@[i as int]@);
        if str_eq(names[i].as_str(), name) {
            proof {
                lemma_position_stays(views(names@), name@, (i + 1) as nat, names@.len());
            }
            return Some(i);
        }
        i += 1;
    }
    None
}

fn find_bytes(names: &[String], bytes: &[u8]) -> (r: Option<usize>)
    ensures
        match r {
            Some(i) => position_of_bytes(views(names@), bytes@, names@.len()) == Some(i as int),
            None => position_of_bytes(views(names@), bytes@, names@.len()) is None,
        },
{
    let mut i: usize = 0;
    while i < names.len()
        invariant
            i <= names.len(),
            position_of_bytes(views(names@), bytes@, i as nat) is None,
        decreases names.len() - i,
    {
        assert(views(names@)[i as int] == names@[i as int]@);
        if bytes_eq(names[i].as_str().as_bytes(), bytes) {
            proof {
                lemma_position_of_bytes_stays(
                    views(names@),
                    bytes@,
                    (i + 1) as nat,
                    names@.len(),
                );
            }
            return Some(i);
        }
        i += 1;
    }
    None
}

fn refuse_unknown(kind: Kind, name: String, names: &[String]) -> (r: DecodeError)
    ensures
        r@ == unknown(kind, name@, views(names@)),
{
    let known = clone_strings(names);
    match kind {
        Kind::Field => DecodeError::UnknownField(name, known),
        Kind::Variant => DecodeError::UnknownVariant(name, known),
    }
}

fn clone_bytes(v: &[u8]) -> (r: Vec<u8>)
    ensures
        r@ == v@,
{
    let mut r: Vec<u8> = Vec::new();
    let mut i: usize = 0;
    while i < v.len()
        invariant
            i <= v.len(),
            r@ == v@.take(i as int),
        decreases v.len() - i,
    {
        r.push(v[i]);
        assert(r@ =~= v@.take(i + 1));
        i += 1;
    }
    assert(v@.take(v.len() as int) =~= v@);
    r
}

/// Finds what an identifier on the wire names among `names`.
pub fn identify(kind: Kind, names: &[String], key: &Key) -> (r: Result<usize, DecodeError>)
    ensures
        match r {
            Ok(i) => identified(kind, views(names@), key@) == Ok::<int, Refusal>(i as int),
            Err(e) => identified(kind, views(names@), key@) == Err::<int, Refusal>(e@),
        },
{
    match key {
        Key::Index(v) => {
            if *v < names.len() as u64 {
                Ok(*v as usize)
            } else {
                match kind {
                    Kind::Field => Err(DecodeError::InvalidFieldIndex(*v)),
                    Kind::Variant => Err(
                        DecodeError::UnknownVariant(decimal(*v), clone_strings(names)),
                    ),
                }
            }
        },
        Key::Text(s) => match find_name(names, s.as_str()) {
            Some(i) => Ok(i),
            None => Err(refuse_unknown(kind, s.clone(), names)),
        },
        Key::Bytes(b) => match find_bytes(names, b.as_slice()) {
            Some(i) => Ok(i),
            None => match text_of(b.as_slice()) {
                Some(name) => {
                    proof {
                        encode_utf8_decode_utf8(name@);
                    }
                    Err(refuse_unknown(kind, name, names))
                },
                None => Err(DecodeError::InvalidValue(clone_bytes(b.as_slice()))),
            },
        },
    }
}

/// What an identifier names is one of the names.
pub proof fn lemma_identified_is_known(kind: Kind, names: Seq<Seq<char>>, key: KeyView)
    ensures
        match identified(kind, names, key) {
            Ok(i) => 0 <= i < names.len(),
            Err(_) => true,
        },
{
    match key {
        KeyView::Index(_) => {},
        KeyView::Text(s) => {
            lemma_position_is_match(names, s, names.len());
        },
        KeyView::Bytes(b) => {
            lemma_position_of_bytes_is_match(names, b, names.len());
        },
    }
}

/// A position that is found is that of the first name that matches.
pub proof fn lemma_position_is_match(names: Seq<Seq<char>>, name: Seq<char>, n: nat)
    requires
        n <= names.len(),
    ensures
        match position_of(names, name, n) {
            Some(i) => 0 <= i < n && names[i] == name && forall|j: int|
                0 <= j < i ==> names[j] != name,
            None => forall|j: int| 0 <= j < n ==> names[j] != name,
        },
    decreases n,
{
    if n > 0 {
        lemma_position_is_match(names, name, (n - 1) as nat);
    }
}

/// A position that is found is that of the first name whose bytes match.
pub proof fn lemma_position_of_bytes_is_match(names: Seq<Seq<char>>, bytes: Seq<u8>, n: nat)
    requires
        n <= names.len(),
    ensures
        match position_of_bytes(names, bytes, n) {
            Some(i) => 0 <= i < n && encode_utf8(names[i]) == bytes && forall|j: int|
                0 <= j < i ==> encode_utf8(names[j]) != bytes,
            None => forall|j: int| 0 <= j < n ==> encode_utf8(names[j]) != bytes,
        },
    decreases n,
{
    if n > 0 {
        lemma_position_of_bytes_is_match(names, bytes, (n - 1) as nat);
    }
}

/// The slots as the specification sees them.
pub open spec fn slot_views(slots: Seq<Option<usize>>) -> Seq<Option<int>> {
    slots.map_values(
        |o: Option<usize>|
            match o {
                Some(j) => Some(j as int),
                None => None,
            },
    )
}

/// Once a key is refused, the keys after it are not read.
pub proof fn lemma_stored_stop(names: Seq<Seq<char>>, keys: Seq<KeyView>, i: nat, n: nat)
    requires
        i <= n <= keys.len(),
        stored(names, keys, i) is Err,
    ensures
        stored(names, keys, n) == stored(names, keys, i),
    decreases n,
{
    if n > i {
        lemma_stored_stop(names, keys, i, (n - 1) as nat);
    }
}

/// Once a field is found missing, the fields after it are not looked at.
pub proof fn lemma_resolved_stop(
    fields: Seq<NamedFieldShape>,
    slots: Seq<Option<int>>,
    i: nat,
    n: nat,
)
    requires
        i <= n <= fields.len(),
        resolved(fields, slots, i) is Err,
    ensures
        resolved(fields, slots, n) == resolved(fields, slots, i),
    decreases n,
{
    if n > i {
        lemma_resolved_stop(fields, slots, i, (n - 1) as nat);
    }
}

/// Decodes named fields from the entries that arrive under `keys`, in
/// this order: says for each field where its value comes from.
pub fn decode_named(fields: &[SerializedNamedField], keys: &[Key]) -> (r: Result<
    Vec<Source>,
    DecodeError,
>)
    ensures
        match r {
            Ok(sources) => decoded_named(named_views(fields@), key_views(keys@)) == Ok::<
                Seq<Source>,
                Refusal,
            >(sources@),
            Err(e) => decoded_named(named_views(fields@), key_views(keys@)) == Err::<
                Seq<Source>,
                Refusal,
            >(e@),
        },
{
    let names = names_of(fields);
    let ghost shapes = named_views(fields@);
    let ghost known = views(names@);
    let ghost wire = key_views(keys@);
    let mut slots: Vec<Option<usize>> = Vec::new();
    let mut w: usize = 0;
    while w < names.len()
        invariant
            w <= names.len(),
            slots@.len() == w,
            forall|j: int| 0 <= j < w ==> slots@[j] is None,
        decreases names.len() - w,
    {
        slots.push(None);
        w += 1;
    }
    assert(slot_views(slots@) =~= Seq::new(known.len(), |w: int| None::<int>));
    let mut m: usize = 0;
    while m < keys.len()
        invariant
            m <= keys.len(),
            known == views(names@),
            wire == key_views(keys@),
            shapes == named_views(fields@),
            known == known_names(shapes, shapes.len()),
            slots@.len() == known.len(),
            stored(known, wire, m as nat) == Ok::<Seq<Option<int>>, Refusal>(slot_views(slots@)),
        decreases keys.len() - m,
    {
        assert(wire[m as int] == keys@[m as int]@);
        match identify(Kind::Field, names.as_slice(), &keys[m]) {
            Ok(at) => {
                proof {
                    lemma_identified_is_known(Kind::Field, known, wire[m as int]);
                }
                let ghost before = slots@;
                slots.set(at, Some(m));
                assert(slot_views(slots@) =~= slot_views(before).update(
                    at as int,
                    Some(m as int),
                ));
            },
            Err(e) => {
                proof {
                    assert(stored(known, wire, (m + 1) as nat) is Err);
                    lemma_stored_stop(known, wire, (m + 1) as nat, wire.len());
                }
                return Err(e);
            },
        }
        m += 1;
    }
    let mut sources: Vec<Source> = Vec::new();
    let mut position: usize = 0;
    let mut i: usize = 0;
    proof {
        lemma_known_names(shapes, shapes.len());
    }
    while i < fields.len()
        invariant
            i <= fields.len(),
            shapes == named_views(fields@),
            wire == key_views(keys@),
            known == known_names(shapes, shapes.len()),
            known.len() == unskipped(named_skips(shapes), shapes.len()),
            slots@.len() == known.len(),
            stored(known, wire, wire.len()) == Ok::<Seq<Option<int>>, Refusal>(
                slot_views(slots@),
            ),
            position == unskipped(named_skips(shapes), i as nat),
            position <= i,
            resolved(shapes, slot_views(slots@), i as nat) == Ok::<Seq<Source>, Refusal>(
                sources@,
            ),
        decreases fields.len() - i,
    {
        assert(shapes[i as int] == fields@[i as int]@);
        if fields[i].attrs.skip {
            sources.push(Source::Default);
        } else {
            proof {
                lemma_unskipped_monotone(named_skips(shapes), shapes.len());
            }
            match slots[position] {
                Some(j) => {
                    sources.push(Source::Entry(j));
                },
                None => {
                    if fields[i].attrs.default {
                        sources.push(Source::Default);
                    } else {
                        proof {
                            assert(resolved(shapes, slot_views(slots@), (i + 1) as nat) is Err);
                            lemma_resolved_stop(
                                shapes,
                                slot_views(slots@),
                                (i + 1) as nat,
                                shapes.len(),
                            );
                        }
                        return Err(DecodeError::MissingField(fields[i].name()));
                    }
                },
            }
            position += 1;
        }
        i += 1;
    }
    Ok(sources)
}

/// What an encoder is told about one named field.
#[derive(Debug)]
pub enum Step {
    /// The field at this position is written under this wire name.
    Field(String, usize),
    /// The field with this wire name is left out.
    Skipped(String),
}

/// A step as plain values.
pub enum StepView {
    Field(Seq<char>, int),
    Skipped(Seq<char>),
}

impl View for Step {
    type V = StepView;

    open spec fn view(&self) -> StepView {
        match *self {
            Step::Field(name, i) => StepView::Field(name@, i as int),
            Step::Skipped(name) => StepView::Skipped(name@),
        }
    }
}

/// The views of a sequence of steps.
pub open spec fn step_views(steps: Seq<Step>) -> Seq<StepView> {
    steps.map_values(|s: Step| s@)
}

/// How named fields are encoded: the count of fields that is announced,
/// and what is done for each field that is not skipped, in order.
#[derive(Debug)]
pub struct Encoded {
    pub len: usize,
    pub steps: Vec<Step>,
}

/// Whether the field at position `i` is left out of this encoding: it has
/// a `skip_serializing_if` predicate, and `holds` says that the predicate
/// holds of the field's value.
pub open spec fn left_out(fields: Seq<NamedFieldShape>, holds: Seq<bool>, i: int) -> bool {
    fields[i].attrs.skip_serializing_if is Some && 0 <= i < holds.len() && holds[i]
}

/// Whether the field at position `i` is written in this encoding.
pub open spec fn is_written(fields: Seq<NamedFieldShape>, holds: Seq<bool>, i: int) -> bool {
    !fields[i].attrs.skip && !left_out(fields, holds, i)
}

/// The positions of those of the first `n` fields that are written, in
/// order.
pub open spec fn written(fields: Seq<NamedFieldShape>, holds: Seq<bool>, n: nat) -> Seq<int>
    decreases n,
{
    if n == 0 || n > fields.len() {
        Seq::empty()
    } else if is_written(fields, holds, n - 1) {
        written(fields, holds, (n - 1) as nat).push(n - 1)
    } else {
        written(fields, holds, (n - 1) as nat)
    }
}

/// What is done for the first `n` fields: nothing for a skipped field;
/// for any other, it is written under its wire name, or, where its
/// predicate holds, the encoder is told that it is left out.
pub open spec fn steps_of(fields: Seq<NamedFieldShape>, holds: Seq<bool>, n: nat) -> Seq<StepView>
    decreases n,
{
    if n == 0 || n > fields.len() {
        Seq::empty()
    } else {
        let f = fields[n - 1];
        let done = steps_of(fields, holds, (n - 1) as nat);
        if f.attrs.skip {
            done
        } else if left_out(fields, holds, n - 1) {
            done.push(StepView::Skipped(f.name()))
        } else {
            done.push(StepView::Field(f.name(), n - 1))
        }
    }
}

/// Encodes named fields: says what is announced and what is done for each
/// field. `holds[i]` says whether the predicate of the field at position
/// `i`, if it has one, holds of the field's value.
pub fn encode_named(fields: &[SerializedNamedField], holds: &[bool]) -> (r: Encoded)
    ensures
        r.len == written(named_views(fields@), holds@, fields@.len()).len(),
        step_views(r.steps@) == steps_of(named_views(fields@), holds@, fields@.len()),
{
    let ghost shapes = named_views(fields@);
    let mut steps: Vec<Step> = Vec::new();
    let mut len: usize = 0;
    let mut i: usize = 0;
    assert(step_views(steps@) =~= Seq::empty());
    while i < fields.len()
        invariant
            i <= fields.len(),
            shapes == named_views(fields@),
            len <= i,
            len == written(shapes, holds@, i as nat).len(),
            step_views(steps@) == steps_of(shapes, holds@, i as nat),
        decreases fields.len() - i,
    {
        assert(shapes[i as int] == fields@[i as int]@);
        let f = &fields[i];
        if !f.attrs.skip {
            let ghost before = steps@;
            let is_left_out = f.attrs.skip_serializing_if.is_some() && i < holds.len() && holds[i];
            if is_left_out {
                let step = Step::Skipped(f.name());
                let ghost view = step@;
                steps.push(step);
                assert(step_views(steps@) =~= step_views(before).push(view));
            } else {
                let step = Step::Field(f.name(), i);
                let ghost view = step@;
                steps.push(step);
                assert(step_views(steps@) =~= step_views(before).push(view));
                len += 1;
            }
        }
        i += 1;
    }
    Encoded { len, steps }
}

/// The keys under which the first `n` steps put values on the wire, for a
/// format that writes names.
pub open spec fn keys_of(steps: Seq<StepView>, n: nat) -> Seq<KeyView>
    decreases n,
{
    if n == 0 || n > steps.len() {
        Seq::empty()
    } else {
        match steps[n - 1] {
            StepView::Field(name, _) => keys_of(steps, (n - 1) as nat).push(KeyView::Text(name)),
            StepView::Skipped(_) => keys_of(steps, (n - 1) as nat),
        }
    }
}

/// The keys under which an encoding puts values on the wire, for a format
/// that writes names.
pub fn written_keys(steps: &[Step]) -> (r: Vec<Key>)
    ensures
        key_views(r@) == keys_of(step_views(steps@), steps@.len()),
{
    let mut keys: Vec<Key> = Vec::new();
    let mut i: usize = 0;
    assert(key_views(keys@) =~= Seq::empty());
    while i < steps.len()
        invariant
            i <= steps.len(),
            key_views(keys@) == keys_of(step_views(steps@), i as nat),
        decreases steps.len() - i,
    {
        assert(step_views(steps@)[i as int] == steps@[i as int]@);
        match &steps[i] {
            Step::Field(name, _) => {
                let key = Key::Text(name.clone());
                let ghost before = keys@;
                let ghost view = key@;
                keys.push(key);
                assert(key_views(keys@) =~= key_views(before).push(view));
            },
            Step::Skipped(_) => {},
        }
        i += 1;
    }
    keys
}

/// How positional fields travel.
#[derive(Debug)]
pub enum Layout {
    /// Nothing is on the wire.
    Unit,
    /// The one field at this position is, as a newtype.
    Newtype(usize),
    /// The fields at these positions are, as a tuple.
    Tuple(Vec<usize>),
}

/// A layout as plain values.
pub enum LayoutView {
    Unit,
    Newtype(int),
    Tuple(Seq<int>),
}

impl View for Layout {
    type V = LayoutView;

    open spec fn view(&self) -> LayoutView {
        match *self {
            Layout::Unit => LayoutView::Unit,
            Layout::Newtype(i) => LayoutView::Newtype(i as int),
            Layout::Tuple(v) => LayoutView::Tuple(v@.map_values(|i: usize| i as int)),
        }
    }
}

/// The positions of those of the first `n` fields that are not skipped,
/// in order.
pub open spec fn kept(skips: Seq<bool>, n: nat) -> Seq<int>
    decreases n,
{
    if n == 0 || n > skips.len() {
        Seq::empty()
    } else if skips[n - 1] {
        kept(skips, (n - 1) as nat)
    } else {
        kept(skips, (n - 1) as nat).push(n - 1)
    }
}

/// How positional fields travel: as a unit where every field is skipped,
/// as a newtype around the one field that is not, else as a tuple of those
/// that are not, in order.
pub open spec fn layout_of(fields: Seq<PositionalField>) -> LayoutView {
    let on_wire = kept(positional_skips(fields), fields.len());
    if on_wire.len() == 0 {
        LayoutView::Unit
    } else if on_wire.len() == 1 {
        LayoutView::Newtype(on_wire[0])
    } else {
        LayoutView::Tuple(on_wire)
    }
}

/// Says how positional fields are encoded.
pub fn encode_positional(fields: &[SerializedUnnamedField]) -> (r: Layout)
    ensures
        r@ == layout_of(positional_views(fields@)),
{
    let ghost skips = positional_skips(positional_views(fields@));
    let mut on_wire: Vec<usize> = Vec::new();
    let mut i: usize = 0;
    assert(on_wire@.map_values(|i: usize| i as int) =~= Seq::empty());
    while i < fields.len()
        invariant
            i <= fields.len(),
            skips == positional_skips(positional_views(fields@)),
            on_wire@.map_values(|i: usize| i as int) == kept(skips, i as nat),
        decreases fields.len() - i,
    {
        assert(positional_views(fields@)[i as int] == fields@[i as int]@);
        if !fields[i].attrs.skip {
            let ghost before = on_wire@;
            on_wire.push(i);
            assert(on_wire@.map_values(|i: usize| i as int) =~= before.map_values(
                |i: usize| i as int,
            ).push(i as int));
        }
        i += 1;
    }
    if on_wire.len() == 0 {
        Layout::Unit
    } else if on_wire.len() == 1 {
        Layout::Newtype(on_wire[0])
    } else {
        Layout::Tuple(on_wire)
    }
}

/// What is expected where a sequence of `count` elements ends early.
pub open spec fn expected(count: nat) -> Seq<char> {
    decimal_text(count) + " arguments"@
}

/// What each of the first `n` positional fields gets from a wire that
/// holds `available` elements where `count` are expected: a skipped field
/// its default, any other the next element; where the elements run out,
/// the position of the first that is missing is refused.
pub open spec fn sourced(
    skips: Seq<bool>,
    available: nat,
    count: nat,
    n: nat,
) -> Result<Seq<Source>, Refusal>
    decreases n,
{
    if n == 0 || n > skips.len() {
        Ok(Seq::empty())
    } else {
        match sourced(skips, available, count, (n - 1) as nat) {
            Err(e) => Err(e),
            Ok(done) => if skips[n - 1] {
                Ok(done.push(Source::Default))
            } else {
                let position = unskipped(skips, (n - 1) as nat);
                if position < available {
                    Ok(done.push(Source::Entry(position as usize)))
                } else {
                    Err(Refusal::InvalidLength(position, expected(count)))
                }
            },
        }
    }
}

/// What decoding positional fields gives. A unit and a newtype hold what
/// they hold; a tuple must hold an element for each field that is not
/// skipped.
pub open spec fn decoded_positional(fields: Seq<PositionalField>, available: nat) -> Result<
    Seq<Source>,
    Refusal,
> {
    let skips = positional_skips(fields);
    let count = unskipped(skips, skips.len());
    if count <= 1 {
        sourced(skips, count, count, skips.len())
    } else {
        sourced(skips, available, count, skips.len())
    }
}

/// Once an element is found missing, the fields after it are not looked
/// at.
pub proof fn lemma_sourced_stop(skips: Seq<bool>, available: nat, count: nat, i: nat, n: nat)
    requires
        i <= n <= skips.len(),
        sourced(skips, available, count, i) is Err,
    ensures
        sourced(skips, available, count, n) == sourced(skips, available, count, i),
    decreases n,
{
    if n > i {
        lemma_sourced_stop(skips, available, count, i, (n - 1) as nat);
    }
}

/// Decodes positional fields from a wire that holds `available` elements:
/// says for each field where its value comes from.
pub fn decode_positional(fields: &[SerializedUnnamedField], available: usize) -> (r: Result<
    Vec<Source>,
    DecodeError,
>)
    ensures
        match r {
            Ok(sources) => decoded_positional(positional_views(fields@), available as nat) == Ok::<
                Seq<Source>,
                Refusal,
            >(sources@),
            Err(e) => decoded_positional(positional_views(fields@), available as nat) == Err::<
                Seq<Source>,
                Refusal,
            >(e@),
        },
{
    let skips = crate::fields::skips_of_unnamed(fields);
    let count = crate::fields::count_unskipped(skips.as_slice());
    let held: usize = if count <= 1 {
        count
    } else {
        available
    };
    let mut sources: Vec<Source> = Vec::new();
    let mut position: usize = 0;
    let mut i: usize = 0;
    while i < skips.len()
        invariant
            i <= skips.len(),
            skips@ == positional_skips(positional_views(fields@)),
            count == unskipped(skips@, skips@.len()),
            held == if count <= 1 {
                count
            } else {
                available
            },
            position <= i,
            position == unskipped(skips@, i as nat),
            sourced(skips@, held as nat, count as nat, i as nat) == Ok::<Seq<Source>, Refusal>(
                sources@,
            ),
        decreases skips.len() - i,
    {
        if skips[i] {
            sources.push(Source::Default);
        } else {
            if position < held {
                sources.push(Source::Entry(position));
                position += 1;
            } else {
                proof {
                    assert(sourced(skips@, held as nat, count as nat, (i + 1) as nat) is Err);
                    lemma_sourced_stop(
                        skips@,
                        held as nat,
                        count as nat,
                        (i + 1) as nat,
                        skips@.len(),
                    );
                }
                let mut message = decimal(count as u64);
                message.append(" arguments");
                return Err(DecodeError::InvalidLength(position, message));
            }
        }
        i += 1;
    }
    Ok(sources)
}

/// The names of the arms of a union, in the order they are declared in:
/// the identifiers that a decoder knows an arm by.
pub open spec fn arm_names(variants: Seq<Variant>) -> Seq<Seq<char>> {
    variants.map_values(|v: Variant| v.ident@)
}

/// The names of the arms of a union, in the order they are declared in.
pub fn names_of_arms(variants: &[Variant]) -> (r: Vec<String>)
    ensures
        views(r@) == arm_names(variants@),
{
    let mut names: Vec<String> = Vec::new();
    let mut i: usize = 0;
    while i < variants.len()
        invariant
            i <= variants.len(),
            views(names@) == arm_names(variants@).take(i as int),
        decreases variants.len() - i,
    {
        let ghost before = names@;
        names.push(variants[i].ident.clone());
        assert(views(names@) =~= views(before).push(variants@[i as int].ident@));
        assert(arm_names(variants@).take(i + 1) =~= arm_names(variants@).take(i as int).push(
            variants@[i as int].ident@,
        ));
        i += 1;
    }
    assert(arm_names(variants@).take(variants@.len() as int) =~= arm_names(variants@));
    names
}

/// Finds the arm that an identifier on the wire names: its position among
/// the arms as they are declared.
pub fn decode_arm(variants: &[Variant], key: &Key) -> (r: Result<usize, DecodeError>)
    ensures
        match r {
            Ok(i) => i < variants@.len() && identified(Kind::Variant, arm_names(variants@), key@)
                == Ok::<int, Refusal>(i as int),
            Err(e) => identified(Kind::Variant, arm_names(variants@), key@) == Err::<
                int,
                Refusal,
            >(e@),
        },
{
    let names = names_of_arms(variants);
    proof {
        lemma_identified_is_known(Kind::Variant, arm_names(variants@), key@);
    }
    identify(Kind::Variant, names.as_slice(), key)
}

} // verus!
