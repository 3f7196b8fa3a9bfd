//! What holds of every traversal: the laws that the decisions of
//! `traversal` obey, whatever the fields and whatever arrives.

use vstd::prelude::*;
use vstd::utf8::{decode_utf8, encode_utf8, encode_utf8_decode_utf8, valid_utf8};
use crate::fields::{
    NamedFieldShape, PositionalField, first_unskipped, named_skips, positional_skips, unskipped,
};
use crate::item::Variant;
use crate::text::decimal_text;
use crate::traversal::{
    KeyView, Kind, LayoutView, Refusal, Source, StepView, arm_names, decoded_named,
    decoded_positional,
    identified, is_written, kept, keys_of, known_names, layout_of, left_out,
    lemma_identified_is_known, lemma_known_names, lemma_position_is_match,
    lemma_position_of_bytes_is_match, lemma_resolved_stop, lemma_sourced_stop, lemma_stored_stop,
    lemma_unskipped_monotone, position_of_bytes,
    resolved, sourced, steps_of, stored, unknown, written,
};

verus! {

/// No name occurs twice.
pub open spec fn distinct(names: Seq<Seq<char>>) -> bool {
    forall|i: int, j: int| 0 <= i < j < names.len() ==> names[i] != names[j]
}

/// Where no name occurs twice, a position, the name at that position as
/// text, and that name as bytes all name the same entry, for a field as
/// for an arm.
pub proof fn lemma_identifier_equivalence(kind: Kind, names: Seq<Seq<char>>, k: int)
    requires
        distinct(names),
        0 <= k < names.len(),
        k <= u64::MAX,
    ensures
        identified(kind, names, KeyView::Index(k as u64)) == Ok::<int, Refusal>(k),
        identified(kind, names, KeyView::Text(names[k])) == Ok::<int, Refusal>(k),
        identified(kind, names, KeyView::Bytes(encode_utf8(names[k]))) == Ok::<int, Refusal>(k),
{
    lemma_position_is_match(names, names[k], names.len());
    lemma_position_of_bytes_is_match(names, encode_utf8(names[k]), names.len());
    match position_of_bytes(names, encode_utf8(names[k]), names.len()) {
        Some(i) => {
            encode_utf8_decode_utf8(names[i]);
            encode_utf8_decode_utf8(names[k]);
        },
        None => {},
    }
}

/// Where no two arms of a union have the same name, the arm at position
/// `i` is found again from its position, from its name as text, and from
/// its name as bytes.
pub proof fn lemma_arm_round_trip(variants: Seq<Variant>, i: int)
    requires
        distinct(arm_names(variants)),
        0 <= i < variants.len(),
        i <= u32::MAX,
    ensures
        identified(Kind::Variant, arm_names(variants), KeyView::Index(i as u64)) == Ok::<
            int,
            Refusal,
        >(i),
        identified(Kind::Variant, arm_names(variants), KeyView::Text(variants[i].ident@)) == Ok::<
            int,
            Refusal,
        >(i),
        identified(
            Kind::Variant,
            arm_names(variants),
            KeyView::Bytes(encode_utf8(variants[i].ident@)),
        ) == Ok::<int, Refusal>(i),
{
    lemma_identifier_equivalence(Kind::Variant, arm_names(variants), i);
}

/// A name as text that is not known is refused as unknown under that
/// name, with the known names; so is a name as bytes that are text; and a
/// position past the last arm is refused as an unknown arm, past the last
/// field as an invalid index.
pub proof fn lemma_unknown_identifier(kind: Kind, names: Seq<Seq<char>>, key: KeyView)
    requires
        match key {
            KeyView::Index(v) => v >= names.len(),
            KeyView::Text(s) => !names.contains(s),
            KeyView::Bytes(b) => valid_utf8(b) && !names.contains(decode_utf8(b)),
        },
    ensures
        identified(kind, names, key) == Err::<int, Refusal>(
            match key {
                KeyView::Index(v) => match kind {
                    Kind::Field => Refusal::InvalidFieldIndex(v),
                    Kind::Variant => Refusal::UnknownVariant(decimal_text(v as nat), names),
                },
                KeyView::Text(s) => unknown(kind, s, names),
                KeyView::Bytes(b) => unknown(kind, decode_utf8(b), names),
            },
        ),
{
    match key {
        KeyView::Index(_) => {},
        KeyView::Text(s) => {
            lemma_position_is_match(names, s, names.len());
        },
        KeyView::Bytes(b) => {
            lemma_position_of_bytes_is_match(names, b, names.len());
            match position_of_bytes(names, b, names.len()) {
                Some(i) => {
                    encode_utf8_decode_utf8(names[i]);
                    assert(names[i] == decode_utf8(b));
                },
                None => {},
            }
        },
    }
}

/// The first key that names no field decides: where every key before the
/// `m`-th names a field and the `m`-th does not, decoding is refused with
/// the refusal of that key, whatever follows.
pub proof fn lemma_unknown_key_refused(fields: Seq<NamedFieldShape>, keys: Seq<KeyView>, m: int)
    requires
        0 <= m < keys.len(),
        identified(Kind::Field, known_names(fields, fields.len()), keys[m]) is Err,
        forall|j: int|
            0 <= j < m ==> (#[trigger] identified(
                Kind::Field,
                known_names(fields, fields.len()),
                keys[j],
            )) is Ok,
    ensures
        decoded_named(fields, keys) == Err::<Seq<Source>, Refusal>(
            identified(Kind::Field, known_names(fields, fields.len()), keys[m])->Err_0,
        ),
{
    let names = known_names(fields, fields.len());
    lemma_stored_while_known(names, keys, m as nat);
    assert(stored(names, keys, (m + 1) as nat) is Err);
    lemma_stored_stop(names, keys, (m + 1) as nat, keys.len());
}

/// Where every key before the `m`-th names a field and the `m`-th is a
/// name that is not known, as text or as bytes that are text, decoding is
/// refused with `UnknownField` under that name, whatever follows.
pub proof fn lemma_unknown_field_refused(
    fields: Seq<NamedFieldShape>,
    keys: Seq<KeyView>,
    m: int,
    name: Seq<char>,
)
    requires
        0 <= m < keys.len(),
        keys[m] == KeyView::Text(name) || (exists|bytes: Seq<u8>|
            keys[m] == KeyView::Bytes(bytes) && valid_utf8(bytes) && decode_utf8(bytes) == name),
        !known_names(fields, fields.len()).contains(name),
        forall|j: int|
            0 <= j < m ==> (#[trigger] identified(
                Kind::Field,
                known_names(fields, fields.len()),
                keys[j],
            )) is Ok,
    ensures
        decoded_named(fields, keys) == Err::<Seq<Source>, Refusal>(
            Refusal::UnknownField(name, known_names(fields, fields.len())),
        ),
{
    let names = known_names(fields, fields.len());
    lemma_unknown_identifier(Kind::Field, names, keys[m]);
    lemma_unknown_key_refused(fields, keys, m);
}

proof fn lemma_stored_while_known(names: Seq<Seq<char>>, keys: Seq<KeyView>, m: nat)
    requires
        m <= keys.len(),
        forall|j: int| 0 <= j < m ==> (#[trigger] identified(Kind::Field, names, keys[j])) is Ok,
    ensures
        stored(names, keys, m) is Ok,
    decreases m,
{
    if m > 0 {
        lemma_stored_while_known(names, keys, (m - 1) as nat);
        assert(identified(Kind::Field, names, keys[m - 1]) is Ok);
    }
}

/// What the slots hold after the first `m` keys: under each name, the
/// last key that named it.
proof fn lemma_stored_holds_last(names: Seq<Seq<char>>, keys: Seq<KeyView>, m: nat)
    requires
        m <= keys.len(),
    ensures
        match stored(names, keys, m) {
            Ok(slots) => slots.len() == names.len() && (forall|j: int|
                0 <= j < m ==> (#[trigger] identified(Kind::Field, names, keys[j])) is Ok)
                && forall|w: int|
                0 <= w < names.len() ==> match #[trigger] slots[w] {
                    Some(j) => 0 <= j < m && identified(Kind::Field, names, keys[j]) == Ok::<
                        int,
                        Refusal,
                    >(w) && forall|l: int|
                        j < l < m ==> identified(Kind::Field, names, keys[l]) != Ok::<
                            int,
                            Refusal,
                        >(w),
                    None => forall|l: int|
                        0 <= l < m ==> identified(Kind::Field, names, keys[l]) != Ok::<
                            int,
                            Refusal,
                        >(w),
                },
            Err(_) => true,
        },
    decreases m,
{
    if m > 0 {
        lemma_stored_holds_last(names, keys, (m - 1) as nat);
        lemma_identified_is_known(Kind::Field, names, keys[m - 1]);
    }
}

/// Whether one of the keys names the field at position `i`.
pub open spec fn present(fields: Seq<NamedFieldShape>, keys: Seq<KeyView>, i: int) -> bool {
    exists|j: int|
        0 <= j < keys.len() && #[trigger] identified(
            Kind::Field,
            known_names(fields, fields.len()),
            keys[j],
        ) == Ok::<int, Refusal>(unskipped(named_skips(fields), i as nat) as int)
}

/// Where decoding succeeds, every field has a source; a skipped field
/// gets its default whatever is on the wire; a field that no key names
/// gets its default, and is then marked `default`; and a field that a key
/// names gets the entry of the last key that names it.
pub proof fn lemma_decoded_sources(fields: Seq<NamedFieldShape>, keys: Seq<KeyView>)
    requires
        decoded_named(fields, keys) is Ok,
    ensures
        decoded_named(fields, keys)->Ok_0.len() == fields.len(),
        forall|i: int|
            0 <= i < fields.len() && (#[trigger] fields[i]).attrs.skip ==> decoded_named(
                fields,
                keys,
            )->Ok_0[i] == Source::Default,
        forall|i: int|
            0 <= i < fields.len() && !(#[trigger] fields[i]).attrs.skip && !present(fields, keys, i)
                ==> fields[i].attrs.default && decoded_named(fields, keys)->Ok_0[i]
                == Source::Default,
        forall|i: int|
            0 <= i < fields.len() && !(#[trigger] fields[i]).attrs.skip && present(fields, keys, i)
                ==> exists|j: int|
                0 <= j < keys.len() && decoded_named(fields, keys)->Ok_0[i] == Source::Entry(
                    j as usize,
                ) && #[trigger] identified(Kind::Field, known_names(fields, fields.len()), keys[j])
                    == Ok::<int, Refusal>(unskipped(named_skips(fields), i as nat) as int),
{
    let names = known_names(fields, fields.len());
    let slots = stored(names, keys, keys.len())->Ok_0;
    lemma_stored_holds_last(names, keys, keys.len());
    lemma_known_names(fields, fields.len());
    lemma_unskipped_monotone(named_skips(fields), fields.len());
    lemma_resolved_sources(fields, slots, fields.len());
    let sources = decoded_named(fields, keys)->Ok_0;
    assert forall|i: int|
        0 <= i < fields.len() && !(#[trigger] fields[i]).attrs.skip && !present(
            fields,
            keys,
            i,
        ) implies fields[i].attrs.default && sources[i] == Source::Default by {
        let w = unskipped(named_skips(fields), i as nat) as int;
        match slots[w] {
            Some(j) => {
                assert(identified(Kind::Field, names, keys[j]) == Ok::<int, Refusal>(w));
            },
            None => {},
        }
    }
    assert forall|i: int|
        0 <= i < fields.len() && !(#[trigger] fields[i]).attrs.skip && present(
            fields,
            keys,
            i,
        ) implies exists|j: int|
        0 <= j < keys.len() && sources[i] == Source::Entry(j as usize) && #[trigger] identified(
            Kind::Field,
            names,
            keys[j],
        ) == Ok::<int, Refusal>(unskipped(named_skips(fields), i as nat) as int) by {
        let w = unskipped(named_skips(fields), i as nat) as int;
        match slots[w] {
            Some(j) => {
                assert(identified(Kind::Field, names, keys[j]) == Ok::<int, Refusal>(w));
            },
            None => {
                let l = choose|l: int|
                    0 <= l < keys.len() && #[trigger] identified(Kind::Field, names, keys[l])
                        == Ok::<int, Refusal>(w);
                assert(false);
            },
        }
    }
}

/// What every field gets where resolving succeeds.
proof fn lemma_resolved_sources(fields: Seq<NamedFieldShape>, slots: Seq<Option<int>>, n: nat)
    requires
        n <= fields.len(),
    ensures
        match resolved(fields, slots, n) {
            Ok(sources) => sources.len() == n && forall|i: int|
                0 <= i < n ==> #[trigger] sources[i] == if fields[i].attrs.skip {
                    Source::Default
                } else {
                    match slots[unskipped(named_skips(fields), i as nat) as int] {
                        Some(j) => Source::Entry(j as usize),
                        None => Source::Default,
                    }
                } && (fields[i].attrs.skip || fields[i].attrs.default || slots[unskipped(
                    named_skips(fields),
                    i as nat,
                ) as int] is Some),
            Err(_) => true,
        },
    decreases n,
{
    if n > 0 {
        lemma_resolved_sources(fields, slots, (n - 1) as nat);
    }
}

/// Where every key names a field, and the field at position `i` is the
/// first that is neither skipped, nor marked `default`, nor named by a
/// key, decoding is refused with `MissingField` under that field's wire
/// name.
pub proof fn lemma_missing_field_refused(
    fields: Seq<NamedFieldShape>,
    keys: Seq<KeyView>,
    i: int,
)
    requires
        0 <= i < fields.len(),
        forall|j: int|
            0 <= j < keys.len() ==> (#[trigger] identified(
                Kind::Field,
                known_names(fields, fields.len()),
                keys[j],
            )) is Ok,
        !fields[i].attrs.skip && !fields[i].attrs.default && !present(fields, keys, i),
        forall|h: int|
            0 <= h < i ==> (#[trigger] fields[h]).attrs.skip || fields[h].attrs.default || present(
                fields,
                keys,
                h,
            ),
    ensures
        decoded_named(fields, keys) == Err::<Seq<Source>, Refusal>(
            Refusal::MissingField(fields[i].name()),
        ),
{
    let names = known_names(fields, fields.len());
    lemma_stored_while_known(names, keys, keys.len());
    let slots = stored(names, keys, keys.len())->Ok_0;
    lemma_stored_holds_last(names, keys, keys.len());
    lemma_known_names(fields, fields.len());
    lemma_unskipped_monotone(named_skips(fields), fields.len());
    assert forall|h: int|
        0 <= h < i && !(#[trigger] fields[h]).attrs.skip && !fields[h].attrs.default
        implies slots[unskipped(named_skips(fields), h as nat) as int] is Some by {
        let w = unskipped(named_skips(fields), h as nat) as int;
        let l = choose|l: int|
            0 <= l < keys.len() && #[trigger] identified(Kind::Field, names, keys[l]) == Ok::<
                int,
                Refusal,
            >(w);
        if slots[w] is None {
            assert(false);
        }
    }
    lemma_resolved_while_filled(fields, slots, i as nat);
    let w = unskipped(named_skips(fields), i as nat) as int;
    match slots[w] {
        Some(j) => {
            assert(identified(Kind::Field, names, keys[j]) == Ok::<int, Refusal>(w));
            assert(false);
        },
        None => {},
    }
    assert(resolved(fields, slots, (i + 1) as nat) is Err);
    lemma_resolved_stop(fields, slots, (i + 1) as nat, fields.len());
}

/// Where every key names a field, and every field that is neither
/// skipped nor marked `default` is named by a key, decoding succeeds.
pub proof fn lemma_decoding_succeeds(fields: Seq<NamedFieldShape>, keys: Seq<KeyView>)
    requires
        forall|j: int|
            0 <= j < keys.len() ==> (#[trigger] identified(
                Kind::Field,
                known_names(fields, fields.len()),
                keys[j],
            )) is Ok,
        forall|h: int|
            0 <= h < fields.len() ==> (#[trigger] fields[h]).attrs.skip || fields[h].attrs.default
                || present(fields, keys, h),
    ensures
        decoded_named(fields, keys) is Ok,
{
    let names = known_names(fields, fields.len());
    lemma_stored_while_known(names, keys, keys.len());
    let slots = stored(names, keys, keys.len())->Ok_0;
    lemma_stored_holds_last(names, keys, keys.len());
    lemma_known_names(fields, fields.len());
    lemma_unskipped_monotone(named_skips(fields), fields.len());
    assert forall|h: int|
        0 <= h < fields.len() && !(#[trigger] fields[h]).attrs.skip && !fields[h].attrs.default
        implies slots[unskipped(named_skips(fields), h as nat) as int] is Some by {
        let w = unskipped(named_skips(fields), h as nat) as int;
        let l = choose|l: int|
            0 <= l < keys.len() && #[trigger] identified(Kind::Field, names, keys[l]) == Ok::<
                int,
                Refusal,
            >(w);
        if slots[w] is None {
            assert(false);
        }
    }
    lemma_resolved_while_filled(fields, slots, fields.len());
}

proof fn lemma_resolved_while_filled(
    fields: Seq<NamedFieldShape>,
    slots: Seq<Option<int>>,
    n: nat,
)
    requires
        n <= fields.len(),
        forall|h: int|
            0 <= h < n && !(#[trigger] fields[h]).attrs.skip && !fields[h].attrs.default
                ==> slots[unskipped(named_skips(fields), h as nat) as int] is Some,
    ensures
        resolved(fields, slots, n) is Ok,
    decreases n,
{
    if n > 0 {
        lemma_resolved_while_filled(fields, slots, (n - 1) as nat);
        let f = fields[n - 1];
        assert(f.attrs.skip || f.attrs.default || slots[unskipped(
            named_skips(fields),
            (n - 1) as nat,
        ) as int] is Some);
    }
}

/// Where each of the first `n` fields is expected to get its value from
/// after this encoding: a field that was written from its own entry, any
/// other from its default.
pub open spec fn expected_sources(fields: Seq<NamedFieldShape>, holds: Seq<bool>, n: nat) -> Seq<
    Source,
>
    decreases n,
{
    if n == 0 || n > fields.len() {
        Seq::empty()
    } else {
        expected_sources(fields, holds, (n - 1) as nat).push(
            if is_written(fields, holds, n - 1) {
                Source::Entry(written(fields, holds, (n - 1) as nat).len() as usize)
            } else {
                Source::Default
            },
        )
    }
}

/// The written fields are among the first `n`, each is written, they
/// stand in order, and each written field stands at the position that
/// the count of written fields before it gives.
proof fn lemma_written(fields: Seq<NamedFieldShape>, holds: Seq<bool>, n: nat)
    requires
        n <= fields.len(),
    ensures
        written(fields, holds, n).len() <= n,
        forall|j: int|
            0 <= j < written(fields, holds, n).len() ==> 0 <= (#[trigger] written(
                fields,
                holds,
                n,
            )[j]) < n && is_written(fields, holds, written(fields, holds, n)[j]) && written(
                fields,
                holds,
                written(fields, holds, n)[j] as nat,
            ).len() == j,
        forall|i: int|
            0 <= i < n && is_written(fields, holds, i) ==> (#[trigger] written(
                fields,
                holds,
                i as nat,
            ).len()) < written(fields, holds, n).len() && written(fields, holds, n)[written(
                fields,
                holds,
                i as nat,
            ).len() as int] == i,
    decreases n,
{
    if n > 0 {
        lemma_written(fields, holds, (n - 1) as nat);
    }
}

/// The steps of an encoding put one key on the wire for each written
/// field, in order: the field's wire name.
proof fn lemma_keys_of_steps(fields: Seq<NamedFieldShape>, holds: Seq<bool>, n: nat)
    requires
        n <= fields.len(),
    ensures
        keys_of(steps_of(fields, holds, n), steps_of(fields, holds, n).len()).len() == written(
            fields,
            holds,
            n,
        ).len(),
        forall|j: int|
            0 <= j < written(fields, holds, n).len() ==> #[trigger] keys_of(
                steps_of(fields, holds, n),
                steps_of(fields, holds, n).len(),
            )[j] == KeyView::Text(fields[written(fields, holds, n)[j]].name()),
    decreases n,
{
    if n > 0 {
        lemma_keys_of_steps(fields, holds, (n - 1) as nat);
        let before = steps_of(fields, holds, (n - 1) as nat);
        let after = steps_of(fields, holds, n);
        if !fields[n - 1].attrs.skip {
            lemma_keys_of_prefix(before, after, before.len());
        }
    }
}

proof fn lemma_keys_of_prefix(a: Seq<StepView>, b: Seq<StepView>, m: nat)
    requires
        m <= a.len(),
        m <= b.len(),
        forall|j: int| 0 <= j < m ==> a[j] == b[j],
    ensures
        keys_of(a, m) == keys_of(b, m),
    decreases m,
{
    if m > 0 {
        lemma_keys_of_prefix(a, b, (m - 1) as nat);
    }
}

/// Every step of an encoding is about a field that is not skipped; a
/// field is written exactly when it is neither skipped nor left out by its
/// predicate; and the count that is announced is the count of the fields
/// that are written.
pub proof fn lemma_skipped_never_written(fields: Seq<NamedFieldShape>, holds: Seq<bool>, n: nat)
    requires
        n <= fields.len(),
    ensures
        forall|k: int|
            0 <= k < steps_of(fields, holds, n).len() ==> match #[trigger] steps_of(
                fields,
                holds,
                n,
            )[k] {
                StepView::Field(name, i) => 0 <= i < n && is_written(fields, holds, i) && name
                    == fields[i].name(),
                StepView::Skipped(name) => exists|i: int|
                    #![trigger fields[i]]
                    0 <= i < n && !fields[i].attrs.skip && left_out(fields, holds, i) && name
                        == fields[i].name(),
            },
        forall|i: int|
            0 <= i < n && is_written(fields, holds, i) ==> steps_of(fields, holds, n).contains(
                StepView::Field((#[trigger] fields[i]).name(), i),
            ),
        keys_of(steps_of(fields, holds, n), steps_of(fields, holds, n).len()).len() == written(
            fields,
            holds,
            n,
        ).len(),
    decreases n,
{
    lemma_keys_of_steps(fields, holds, n);
    if n > 0 {
        lemma_skipped_never_written(fields, holds, (n - 1) as nat);
        let before = steps_of(fields, holds, (n - 1) as nat);
        let after = steps_of(fields, holds, n);
        assert forall|i: int| 0 <= i < n && is_written(fields, holds, i) implies after.contains(
            StepView::Field((#[trigger] fields[i]).name(), i),
        ) by {
            if i < n - 1 {
                assert(before.contains(StepView::Field(fields[i].name(), i)));
                let k = choose|k: int|
                    0 <= k < before.len() && before[k] == StepView::Field(fields[i].name(), i);
                assert(after[k] == StepView::Field(fields[i].name(), i));
            } else {
                assert(after[after.len() - 1] == StepView::Field(fields[i].name(), i));
            }
        }
    }
}

/// Where no wire name occurs twice and every field that a predicate
/// leaves out is marked `default`, decoding the keys that an encoding
/// wrote succeeds, and every field gets its value from where the encoding
/// put it: a written field from its own entry, a skipped field and a field
/// that was left out from its default.
pub proof fn lemma_named_round_trip(fields: Seq<NamedFieldShape>, holds: Seq<bool>)
    requires
        distinct(known_names(fields, fields.len())),
        forall|i: int|
            0 <= i < fields.len() && !(#[trigger] fields[i]).attrs.skip && left_out(
                fields,
                holds,
                i,
            ) ==> fields[i].attrs.default,
    ensures
        decoded_named(
            fields,
            keys_of(
                steps_of(fields, holds, fields.len()),
                steps_of(fields, holds, fields.len()).len(),
            ),
        ) == Ok::<Seq<Source>, Refusal>(expected_sources(fields, holds, fields.len())),
{
    let n = fields.len();
    let names = known_names(fields, n);
    let skips = named_skips(fields);
    let steps = steps_of(fields, holds, n);
    let keys = keys_of(steps, steps.len());
    let on_wire = written(fields, holds, n);
    lemma_keys_of_steps(fields, holds, n);
    lemma_written(fields, holds, n);
    lemma_known_names(fields, n);
    lemma_unskipped_monotone(skips, n);
    assert forall|j: int| 0 <= j < keys.len() implies #[trigger] identified(
        Kind::Field,
        names,
        keys[j],
    ) == Ok::<int, Refusal>(unskipped(skips, on_wire[j] as nat) as int) by {
        let i = on_wire[j];
        let w = unskipped(skips, i as nat) as int;
        assert(keys[j] == KeyView::Text(fields[i].name()));
        assert(!fields[i].attrs.skip);
        assert(names[w] == fields[i].name());
        lemma_position_is_match(names, fields[i].name(), names.len());
    }
    lemma_stored_while_known(names, keys, keys.len());
    lemma_stored_holds_last(names, keys, keys.len());
    let slots = stored(names, keys, keys.len())->Ok_0;
    assert forall|i: int| 0 <= i < n && !(#[trigger] fields[i]).attrs.skip implies slots[unskipped(
        skips,
        i as nat,
    ) as int] == if is_written(fields, holds, i) {
        Some(written(fields, holds, i as nat).len() as int)
    } else {
        None::<int>
    } by {
        let w = unskipped(skips, i as nat) as int;
        if is_written(fields, holds, i) {
            let j = written(fields, holds, i as nat).len() as int;
            assert(on_wire[j] == i);
            assert(identified(Kind::Field, names, keys[j]) == Ok::<int, Refusal>(w));
            match slots[w] {
                Some(l) => {
                    assert(identified(Kind::Field, names, keys[l]) == Ok::<int, Refusal>(w));
                    let h = on_wire[l];
                    assert(unskipped(skips, h as nat) == unskipped(skips, i as nat));
                    lemma_wire_position_unique(skips, h, i);
                    assert(h == i);
                },
                None => {
                    assert(false);
                },
            }
        } else {
            match slots[w] {
                Some(l) => {
                    assert(identified(Kind::Field, names, keys[l]) == Ok::<int, Refusal>(w));
                    let h = on_wire[l];
                    assert(unskipped(skips, h as nat) == unskipped(skips, i as nat));
                    lemma_wire_position_unique(skips, h, i);
                    assert(false);
                },
                None => {},
            }
        }
    }
    lemma_resolved_as_expected(fields, holds, slots, n);
}

/// Two fields that are not skipped and have the same position on the wire
/// are the same field.
proof fn lemma_wire_position_unique(skips: Seq<bool>, a: int, b: int)
    requires
        0 <= a < skips.len(),
        0 <= b < skips.len(),
        !skips[a],
        !skips[b],
        unskipped(skips, a as nat) == unskipped(skips, b as nat),
    ensures
        a == b,
{
    if a < b {
        lemma_unskipped_monotone(skips, b as nat);
    } else if b < a {
        lemma_unskipped_monotone(skips, a as nat);
    }
}

proof fn lemma_resolved_as_expected(
    fields: Seq<NamedFieldShape>,
    holds: Seq<bool>,
    slots: Seq<Option<int>>,
    n: nat,
)
    requires
        n <= fields.len(),
        forall|i: int|
            0 <= i < fields.len() && !(#[trigger] fields[i]).attrs.skip && left_out(
                fields,
                holds,
                i,
            ) ==> fields[i].attrs.default,
        forall|i: int|
            0 <= i < fields.len() && !(#[trigger] fields[i]).attrs.skip ==> slots[unskipped(
                named_skips(fields),
                i as nat,
            ) as int] == if is_written(fields, holds, i) {
                Some(written(fields, holds, i as nat).len() as int)
            } else {
                None::<int>
            },
    ensures
        resolved(fields, slots, n) == Ok::<Seq<Source>, Refusal>(
            expected_sources(fields, holds, n),
        ),
    decreases n,
{
    if n > 0 {
        lemma_resolved_as_expected(fields, holds, slots, (n - 1) as nat);
        let f = fields[n - 1];
        if !f.attrs.skip {
            assert(slots[unskipped(named_skips(fields), (n - 1) as nat) as int] == if is_written(
                fields,
                holds,
                n - 1,
            ) {
                Some(written(fields, holds, (n - 1) as nat).len() as int)
            } else {
                None::<int>
            });
        }
    }
}

/// The positional fields that are on the wire are those that are not
/// skipped, in order, and there are as many as are counted.
pub proof fn lemma_kept(skips: Seq<bool>, n: nat)
    requires
        n <= skips.len(),
    ensures
        kept(skips, n).len() == unskipped(skips, n),
        forall|k: int|
            0 <= k < kept(skips, n).len() ==> 0 <= (#[trigger] kept(skips, n)[k]) < n
                && !skips[kept(
                skips,
                n,
            )[k]] && unskipped(skips, kept(skips, n)[k] as nat) == k,
    decreases n,
{
    if n > 0 {
        lemma_kept(skips, (n - 1) as nat);
    }
}

/// Where each of the first `n` positional fields gets its value from
/// when nothing is missing: a skipped field from its default, any other
/// from the element at its position among those that are not skipped.
pub open spec fn positional_sources(skips: Seq<bool>, n: nat) -> Seq<Source>
    decreases n,
{
    if n == 0 || n > skips.len() {
        Seq::empty()
    } else {
        positional_sources(skips, (n - 1) as nat).push(
            if skips[n - 1] {
                Source::Default
            } else {
                Source::Entry(unskipped(skips, (n - 1) as nat) as usize)
            },
        )
    }
}

/// The layout of positional fields holds the fields that are not
/// skipped, in order, and decoding a wire that holds as many elements
/// succeeds: every skipped field gets its default, and every other field
/// the element that the encoding put at its position.
pub proof fn lemma_positional_round_trip(fields: Seq<PositionalField>)
    ensures
        match layout_of(fields) {
            LayoutView::Unit => unskipped(positional_skips(fields), fields.len()) == 0,
            LayoutView::Newtype(i) => unskipped(positional_skips(fields), fields.len()) == 1 && 0
                <= i < fields.len() && !fields[i].attrs.skip && first_unskipped(
                positional_skips(fields),
                fields.len(),
            ) == Some(i),
            LayoutView::Tuple(on_wire) => on_wire.len() == unskipped(
                positional_skips(fields),
                fields.len(),
            ) && on_wire == kept(positional_skips(fields), fields.len()),
        },
        decoded_positional(
            fields,
            unskipped(positional_skips(fields), fields.len()),
        ) == Ok::<Seq<Source>, Refusal>(
            positional_sources(positional_skips(fields), fields.len()),
        ),
{
    let skips = positional_skips(fields);
    lemma_kept(skips, skips.len());
    lemma_first_kept(skips, skips.len());
    lemma_sourced_when_enough(skips, unskipped(skips, skips.len()), skips.len());
}

/// The first field that is on the wire is the first that is not skipped.
proof fn lemma_first_kept(skips: Seq<bool>, n: nat)
    requires
        n <= skips.len(),
    ensures
        match first_unskipped(skips, n) {
            Some(i) => kept(skips, n).len() > 0 && kept(skips, n)[0] == i,
            None => kept(skips, n).len() == 0,
        },
    decreases n,
{
    if n > 0 {
        lemma_first_kept(skips, (n - 1) as nat);
    }
}

proof fn lemma_sourced_when_enough(skips: Seq<bool>, count: nat, n: nat)
    requires
        n <= skips.len(),
        count == unskipped(skips, skips.len()),
    ensures
        sourced(skips, count, count, n) == Ok::<Seq<Source>, Refusal>(positional_sources(skips, n)),
    decreases n,
{
    if n > 0 {
        lemma_sourced_when_enough(skips, count, (n - 1) as nat);
        lemma_unskipped_monotone(skips, skips.len());
    }
}

/// Where more than one positional field is on the wire and the wire holds
/// fewer elements than that, decoding is refused with `InvalidLength` at
/// the position of the first element that is missing.
pub proof fn lemma_short_sequence_refused(fields: Seq<PositionalField>, available: nat)
    requires
        unskipped(positional_skips(fields), fields.len()) > 1,
        available < unskipped(positional_skips(fields), fields.len()),
    ensures
        decoded_positional(fields, available) == Err::<Seq<Source>, Refusal>(
            Refusal::InvalidLength(
                available,
                crate::traversal::expected(unskipped(positional_skips(fields), fields.len())),
            ),
        ),
{
    let skips = positional_skips(fields);
    let count = unskipped(skips, skips.len());
    lemma_kept(skips, skips.len());
    let i = kept(skips, skips.len())[available as int];
    lemma_sourced_until(skips, available, count, i as nat);
    assert(sourced(skips, available, count, (i + 1) as nat) is Err);
    lemma_sourced_stop(skips, available, count, (i + 1) as nat, skips.len());
}

proof fn lemma_sourced_until(skips: Seq<bool>, available: nat, count: nat, n: nat)
    requires
        n <= skips.len(),
        unskipped(skips, n) <= available,
    ensures
        sourced(skips, available, count, n) is Ok,
    decreases n,
{
    if n > 0 {
        lemma_sourced_until(skips, available, count, (n - 1) as nat);
    }
}

} // verus!
