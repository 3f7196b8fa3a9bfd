//! Decoding named fields.
//!
//! The fields that are not skipped are the known identifiers. A key on
//! the wire names one of them by its position among them, by its wire
//! name as text, or by its wire name as bytes; any other key is refused.
//! Each value is stored under its field, a later one in place of an
//! earlier one. When the keys are exhausted every field gets its value: a
//! skipped field its default, a field that was present what was decoded, a
//! field that was absent its default where it is marked `default`, and
//! else the absence is an error that names the field.

use vstd::prelude::*;
use vstd::string::*;
use crate::attributes::{SeedSpec, SerializeAttributes, TypeAttributes, TypeAttributesView};
use crate::de::fields::unnamed::{name_view, value_path, write_value_path};
use crate::de::{
    Error, Target, deserialize_seed, identifier_text, known_text, missing_seed, seed_for,
    target_of, visitor_generics, visitor_text, visitor_value_text, write_identifier, write_known,
    write_visitor, write_visitor_generics, write_visitor_value,
};
use crate::fields::{
    NamedFieldShape, SerializedNamedField, count_unskipped, named_skips,
    named_views, skips_of_named, unskipped,
};
use crate::item::{Generics, GenericsView};
use crate::literal::{
    byte_string_literal, denoted, denoted_bytes, lemma_byte_string_literal_denotes,
    lemma_string_literal_denotes, string_literal, write_byte_string_literal, write_string_literal,
};
use crate::traversal::{known_names, lemma_known_names};
use crate::text::{decimal, decimal_text};
use vstd::utf8::encode_utf8;

verus! {

/// The pieces that the body is put together from, each written once for
/// every field.
#[derive(Clone, Copy, PartialEq, Eq, Structural)]
pub enum Part {
    /// The field's entry in the enumeration of known identifiers.
    Variant,
    /// The field's wire name in the list of known names.
    Name,
    /// The identifier decoded from the field's position.
    Position,
    /// The identifier decoded from the field's wire name as text.
    Text,
    /// The identifier decoded from the field's wire name as bytes.
    Bytes,
    /// The place where the field's value is kept while keys are read.
    Slot,
    /// What is done when the field's key is read.
    Store,
    /// The field's value in the end.
    Value,
}

/// The field's entry in the enumeration of known identifiers: `Field` and
/// the field's position among the declared fields.
pub open spec fn variant_name(i: int) -> Seq<char> {
    "Field"@ + decimal_text(i as nat)
}

/// A known position.
pub open spec fn position_case_text(position: Seq<char>, variant: Seq<char>) -> Seq<char> {
    position + "u64 => Ok(Field__::"@ + variant + "), "@
}

fn write_position_case(position: &str, variant: &str) -> (r: String)
    ensures
        r@ == position_case_text(position@, variant@),
{
    let mut out = String::from_str(position);
    out.append("u64 => Ok(Field__::");
    out.append(variant);
    out.append("), ");
    out
}

/// A known name, as text or as bytes.
pub open spec fn name_case_text(name: Seq<char>, variant: Seq<char>) -> Seq<char> {
    name + " => Ok(Field__::"@ + variant + "), "@
}

fn write_name_case(name: &str, variant: &str) -> (r: String)
    ensures
        r@ == name_case_text(name@, variant@),
{
    let mut out = String::from_str(name);
    out.append(" => Ok(Field__::");
    out.append(variant);
    out.append("), ");
    out
}

/// The place where a field's value is kept while keys are read.
pub open spec fn slot_text(id: Seq<char>) -> Seq<char> {
    "let mut "@ + id + " = None; "@
}

fn write_slot(id: &str) -> (r: String)
    ensures
        r@ == slot_text(id@),
{
    let mut out = String::from_str("let mut ");
    out.append(id);
    out.append(" = None; ");
    out
}

/// A value is decoded with the field's seed and stored under the field.
pub open spec fn store_text(variant: Seq<char>, id: Seq<char>, seed: Seq<char>) -> Seq<char> {
    "Field__::"@ + variant + " => { "@ + id + " = Some(map__.next_value_seed("@ + seed
        + ")?) }, "@
}

fn write_store(variant: &str, id: &str, seed: &str) -> (r: String)
    ensures
        r@ == store_text(variant@, id@, seed@),
{
    let mut out = String::from_str("Field__::");
    out.append(variant);
    out.append(" => { ");
    out.append(id);
    out.append(" = Some(map__.next_value_seed(");
    out.append(seed);
    out.append(")?) }, ");
    out
}

/// A skipped field is filled with its default.
pub open spec fn skipped_text(id: Seq<char>) -> Seq<char> {
    id + ": ::core::default::Default::default(), "@
}

fn write_skipped(id: &str) -> (r: String)
    ensures
        r@ == skipped_text(id@),
{
    let mut out = String::from_str(id);
    out.append(": ::core::default::Default::default(), ");
    out
}

/// A field marked `default` is filled with its default where it was absent.
pub open spec fn defaulted_text(id: Seq<char>) -> Seq<char> {
    id + ": "@ + id + ".unwrap_or_default(), "@
}

fn write_defaulted(id: &str) -> (r: String)
    ensures
        r@ == defaulted_text(id@),
{
    let mut out = String::from_str(id);
    out.append(": ");
    out.append(id);
    out.append(".unwrap_or_default(), ");
    out
}

/// Any other field must have been present.
pub open spec fn required_text(id: Seq<char>, name: Seq<char>) -> Seq<char> {
    id + ": "@ + id + ".ok_or_else(|| ::serde::de::Error::missing_field("@ + name + "))?, "@
}

fn write_required(id: &str, name: &str) -> (r: String)
    ensures
        r@ == required_text(id@, name@),
{
    let mut out = String::from_str(id);
    out.append(": ");
    out.append(id);
    out.append(".ok_or_else(|| ::serde::de::Error::missing_field(");
    out.append(name);
    out.append("))?, ");
    out
}

/// The method of a struct's visitor.
pub open spec fn map_method_text(
    identifier: Seq<char>,
    slots: Seq<char>,
    stores: Seq<char>,
    value: Seq<char>,
    values: Seq<char>,
) -> Seq<char> {
    "fn visit_map<__A>(self, mut map__: __A) -> Result<Self::Value, __A::Error> where __A: \
        ::serde::de::MapAccess<'de> { "@
        + identifier + slots
        + "while let Some(field) = map__.next_key::<Field__>()? { match field { "@ + stores
        + "} } Ok("@ + value + " { "@ + values + "}) }"@
}

fn write_map_method(
    identifier: &str,
    slots: &str,
    stores: &str,
    value: &str,
    values: &str,
) -> (r: String)
    ensures
        r@ == map_method_text(identifier@, slots@, stores@, value@, values@),
{
    let mut out = String::from_str("fn visit_map<__A>(self, mut map__: __A) -> \
        Result<Self::Value, __A::Error> where __A: ::serde::de::MapAccess<'de> { ");
    out.append(identifier);
    out.append(slots);
    out.append("while let Some(field) = map__.next_key::<Field__>()? { match field { ");
    out.append(stores);
    out.append("} } Ok(");
    out.append(value);
    out.append(" { ");
    out.append(values);
    out.append("}) }");
    out
}

/// Handing a struct's visitor to the decoder.
pub open spec fn struct_visit_text(name: Seq<char>, visitor: Seq<char>) -> Seq<char> {
    "deserializer.deserialize_struct("@ + name + ", &FIELDS, "@ + visitor + ")"@
}

fn write_struct_visit(name: &str, visitor: &str) -> (r: String)
    ensures
        r@ == struct_visit_text(name@, visitor@),
{
    let mut out = String::from_str("deserializer.deserialize_struct(");
    out.append(name);
    out.append(", &FIELDS, ");
    out.append(visitor);
    out.append(")");
    out
}

/// Handing the visitor of an arm's struct to the decoder.
pub open spec fn struct_variant_visit_text(visitor: Seq<char>) -> Seq<char> {
    "::serde::de::VariantAccess::struct_variant(variant, &FIELDS, "@ + visitor + ")"@
}

fn write_struct_variant_visit(visitor: &str) -> (r: String)
    ensures
        r@ == struct_variant_visit_text(visitor@),
{
    let mut out = String::from_str("::serde::de::VariantAccess::struct_variant(variant, &FIELDS, ");
    out.append(visitor);
    out.append(")");
    out
}

/// The error of a position that names no field: an invalid value.
pub open spec fn invalid_index_text() -> Seq<char> {
    "::serde::de::Error::invalid_value(::serde::de::Unexpected::Unsigned(v), &\"field index\")"@
}

/// The piece `part` for the field at position `i`. A skipped field has
/// its final value and nothing else.
pub open spec fn piece(t: Target, fields: Seq<NamedFieldShape>, i: int, part: Part) -> Seq<char> {
    let f = fields[i];
    if f.attrs.skip {
        if part == Part::Value {
            skipped_text(f.id)
        } else {
            Seq::empty()
        }
    } else {
        match part {
            Part::Variant => variant_name(i) + ", "@,
            Part::Name => string_literal(f.name()) + ", "@,
            Part::Position => position_case_text(
                decimal_text(unskipped(named_skips(fields), i as nat)),
                variant_name(i),
            ),
            Part::Text => name_case_text(string_literal(f.name()), variant_name(i)),
            Part::Bytes => name_case_text(
                byte_string_literal(encode_utf8(f.name())),
                variant_name(i),
            ),
            Part::Slot => slot_text(f.id),
            Part::Store => store_text(variant_name(i), f.id, seed_for(t, f.attrs, f.ty)),
            Part::Value => if f.attrs.default {
                defaulted_text(f.id)
            } else {
                required_text(f.id, string_literal(f.name()))
            },
        }
    }
}

/// The cases of the identifier decoder are written for what is known: for
/// a field that is not skipped, the position in its case is the position
/// that its wire name has among the known names, the literals in its other
/// two cases denote that name and the bytes of that name, and all three
/// cases select the field's own entry.
pub proof fn lemma_cases_are_the_known(t: Target, fields: Seq<NamedFieldShape>, i: int)
    requires
        0 <= i < fields.len(),
        !fields[i].attrs.skip,
    ensures
        ({
            let k = unskipped(named_skips(fields), i as nat) as int;
            let names = known_names(fields, fields.len());
            &&& 0 <= k < names.len()
            &&& names[k] == fields[i].name()
            &&& piece(t, fields, i, Part::Position) == position_case_text(
                decimal_text(k as nat),
                variant_name(i),
            )
            &&& piece(t, fields, i, Part::Text) == name_case_text(
                string_literal(names[k]),
                variant_name(i),
            )
            &&& piece(t, fields, i, Part::Bytes) == name_case_text(
                byte_string_literal(encode_utf8(names[k])),
                variant_name(i),
            )
            &&& denoted(string_literal(names[k])) == Some(names[k])
            &&& denoted_bytes(byte_string_literal(encode_utf8(names[k]))) == Some(
                encode_utf8(names[k]),
            )
        }),
{
    let names = known_names(fields, fields.len());
    let k = unskipped(named_skips(fields), i as nat) as int;
    lemma_known_names(fields, fields.len());
    lemma_string_literal_denotes(names[k]);
    lemma_byte_string_literal_denotes(encode_utf8(names[k]));
}

/// The piece `part` for each of the first `n` fields, in order.
pub open spec fn pieces(t: Target, fields: Seq<NamedFieldShape>, n: nat, part: Part) -> Seq<char>
    decreases n,
{
    if n == 0 || n > fields.len() {
        Seq::empty()
    } else {
        pieces(t, fields, (n - 1) as nat, part) + piece(t, fields, n - 1, part)
    }
}

/// The body that decodes named fields.
pub open spec fn body_text(t: Target, name: Seq<char>, fields: Seq<NamedFieldShape>) -> Seq<char> {
    let n = fields.len();
    let g = visitor_generics(t.generics, t.extra);
    let count = unskipped(named_skips(fields), n);
    visitor_text(
        "StructVisitor"@,
        g.def,
        t.seed_ty,
        t.ident,
        g.value,
        g.imp,
        g.ty,
        g.where_clause,
        "a struct"@,
        map_method_text(
            identifier_text(
                "Field__"@,
                pieces(t, fields, n, Part::Variant),
                "field identifier"@,
                pieces(t, fields, n, Part::Position),
                invalid_index_text(),
                pieces(t, fields, n, Part::Text),
                "unknown_field"@,
                "FIELDS"@,
                pieces(t, fields, n, Part::Bytes),
            ),
            pieces(t, fields, n, Part::Slot),
            pieces(t, fields, n, Part::Store),
            value_path(t.ident, t.variant),
            pieces(t, fields, n, Part::Value),
        ),
    ) + known_text("FIELDS"@, decimal_text(count), pieces(t, fields, n, Part::Name)) + (match t
        .variant {
        Some(_) => struct_variant_visit_text(
            visitor_value_text("StructVisitor"@, "self.seed"@, t.ident, g.value),
        ),
        None => struct_visit_text(
            string_literal(name),
            visitor_value_text("StructVisitor"@, "seed"@, t.ident, g.value),
        ),
    })
}

/// What `derive` gives for named fields: the body of `body_text`, or
/// `MissingSeed` where the seed specification names no seed type.
pub open spec fn derive_of(
    ident: Seq<char>,
    generics: GenericsView,
    attrs: TypeAttributesView,
    de: SeedSpec,
    variant: Option<Seq<char>>,
    fields: Seq<NamedFieldShape>,
) -> Result<Seq<char>, Error> {
    if de.seed is None {
        Err(missing_seed())
    } else {
        Ok(body_text(target_of(ident, generics, de, variant), attrs.name(ident), fields))
    }
}

fn write_variant_name(i: usize) -> (r: String)
    ensures
        r@ == variant_name(i as int),
{
    let mut out = String::from_str("Field");
    out.append(decimal(i as u64).as_str());
    out
}

fn write_piece(
    ident: &str,
    generics: &Generics,
    de: &SerializeAttributes,
    variant: Option<&str>,
    fields: &[SerializedNamedField],
    i: usize,
    position: usize,
    part: Part,
) -> (r: String)
    requires
        de@.seed is Some,
        i < fields@.len(),
        position == unskipped(named_skips(named_views(fields@)), i as nat),
    ensures
        r@ == piece(
            target_of(ident@, generics@, de@, name_view(variant)),
            named_views(fields@),
            i as int,
            part,
        ),
{
    let f = &fields[i];
    assert(named_views(fields@)[i as int] == f@);
    if f.attrs.skip {
        return match part {
            Part::Value => write_skipped(f.id.as_str()),
            _ => String::new(),
        };
    }
    match part {
        Part::Variant => {
            let mut out = write_variant_name(i);
            out.append(", ");
            out
        },
        Part::Name => {
            let mut out = write_string_literal(f.name().as_str());
            out.append(", ");
            out
        },
        Part::Position => write_position_case(
            decimal(position as u64).as_str(),
            write_variant_name(i).as_str(),
        ),
        Part::Text => write_name_case(
            write_string_literal(f.name().as_str()).as_str(),
            write_variant_name(i).as_str(),
        ),
        Part::Bytes => {
            let name = f.name();
            write_name_case(
                write_byte_string_literal(name.as_str().as_bytes()).as_str(),
                write_variant_name(i).as_str(),
            )
        },
        Part::Slot => write_slot(f.id.as_str()),
        Part::Store => {
            let seed = match deserialize_seed(ident, generics, de, &f.attrs, f.ty.as_str()) {
                Ok(s) => s,
                Err(_) => String::new(),
            };
            write_store(write_variant_name(i).as_str(), f.id.as_str(), seed.as_str())
        },
        Part::Value => {
            if f.attrs.default {
                write_defaulted(f.id.as_str())
            } else {
                write_required(f.id.as_str(), write_string_literal(f.name().as_str()).as_str())
            }
        },
    }
}

fn write_pieces(
    ident: &str,
    generics: &Generics,
    de: &SerializeAttributes,
    variant: Option<&str>,
    fields: &[SerializedNamedField],
    part: Part,
) -> (r: String)
    requires
        de@.seed is Some,
    ensures
        r@ == pieces(
            target_of(ident@, generics@, de@, name_view(variant)),
            named_views(fields@),
            fields@.len(),
            part,
        ),
{
    let ghost t = target_of(ident@, generics@, de@, name_view(variant));
    let mut out = String::new();
    let mut position: usize = 0;
    let mut i: usize = 0;
    while i < fields.len()
        invariant
            i <= fields.len(),
            de@.seed is Some,
            t == target_of(ident@, generics@, de@, name_view(variant)),
            position <= i,
            position == unskipped(named_skips(named_views(fields@)), i as nat),
            out@ == pieces(t, named_views(fields@), i as nat, part),
        decreases fields.len() - i,
    {
        out.append(write_piece(ident, generics, de, variant, fields, i, position, part).as_str());
        assert(named_views(fields@)[i as int] == fields@[i as int]@);
        if !fields[i].attrs.skip {
            position += 1;
        }
        i += 1;
    }
    out
}

/// Writes the body that decodes the named fields of one record, or of one
/// arm where `variant_ident` names it.
pub fn derive(
    ident: &str,
    generics: &Generics,
    attrs: &TypeAttributes,
    de: &SerializeAttributes,
    variant_ident: Option<&str>,
    fields: &[SerializedNamedField],
) -> (r: Result<String, Error>)
    ensures
        match r {
            Ok(s) => derive_of(
                ident@,
                generics@,
                attrs@,
                de@,
                name_view(variant_ident),
                named_views(fields@),
            ) == Ok::<Seq<char>, Error>(s@),
            Err(e) => derive_of(
                ident@,
                generics@,
                attrs@,
                de@,
                name_view(variant_ident),
                named_views(fields@),
            ) == Err::<Seq<char>, Error>(e),
        },
{
    let seed_ty = match de.require_seed() {
        Ok(t) => t,
        Err(e) => {
            return Err(Error::Attribute(e));
        },
    };
    let name = write_string_literal(attrs.name(ident).as_str());
    let skips = skips_of_named(fields);
    let count = count_unskipped(skips.as_slice());
    let g = write_visitor_generics(generics, de);
    let identifier = write_identifier(
        "Field__",
        write_pieces(ident, generics, de, variant_ident, fields, Part::Variant).as_str(),
        "field identifier",
        write_pieces(ident, generics, de, variant_ident, fields, Part::Position).as_str(),
        "::serde::de::Error::invalid_value(::serde::de::Unexpected::Unsigned(v), &\"field index\")",
        write_pieces(ident, generics, de, variant_ident, fields, Part::Text).as_str(),
        "unknown_field",
        "FIELDS",
        write_pieces(ident, generics, de, variant_ident, fields, Part::Bytes).as_str(),
    );
    let method = write_map_method(
        identifier.as_str(),
        write_pieces(ident, generics, de, variant_ident, fields, Part::Slot).as_str(),
        write_pieces(ident, generics, de, variant_ident, fields, Part::Store).as_str(),
        write_value_path(ident, variant_ident).as_str(),
        write_pieces(ident, generics, de, variant_ident, fields, Part::Value).as_str(),
    );
    let mut out = write_visitor(
        "StructVisitor",
        g.def.as_str(),
        seed_ty.as_str(),
        ident,
        g.value.as_str(),
        g.imp.as_str(),
        g.ty.as_str(),
        g.where_clause.as_str(),
        "a struct",
        method.as_str(),
    );
    out.append(
        write_known(
            "FIELDS",
            decimal(count as u64).as_str(),
            write_pieces(ident, generics, de, variant_ident, fields, Part::Name).as_str(),
        ).as_str(),
    );
    match variant_ident {
        Some(_) => {
            let visitor = write_visitor_value(
                "StructVisitor",
                "self.seed",
                ident,
                g.value.as_str(),
            );
            out.append(write_struct_variant_visit(visitor.as_str()).as_str());
        },
        None => {
            let visitor = write_visitor_value("StructVisitor", "seed", ident, g.value.as_str());
            out.append(write_struct_visit(name.as_str(), visitor.as_str()).as_str());
        },
    }
    Ok(out)
}

} // verus!
