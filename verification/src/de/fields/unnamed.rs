//! Decoding positional fields.
//!
//! Fields that are skipped are not on the wire: they are filled with
//! their default, and the fields that are left decide what is expected. None
//! left: a unit. One left: a newtype around it. More: a sequence of them
//! in order, where a sequence that ends early is refused with the
//! position of the first element that is missing.

use vstd::prelude::*;
use vstd::string::*;
use crate::attributes::{SeedSpec, SerializeAttributes, TypeAttributes, TypeAttributesView};
use crate::de::{
    Error, Target, de_only, deserialize_seed, missing_seed, seed_for, target_of,
    visitor_generics, visitor_text, visitor_value_text, write_visitor, write_visitor_generics,
    write_visitor_value,
};
use crate::fields::{
    PositionalField, SerializedUnnamedField, count_unskipped, find_unskipped, first_unskipped,
    lemma_unskipped, positional_skips, positional_views, skips_of_unnamed, unskipped,
};
use crate::item::{Generics, GenericsView};
use crate::literal::{denoted, lemma_string_literal_denotes, string_literal, write_string_literal};
use crate::text::{decimal, decimal_text};
use crate::utils::{
    SeedParam, SeedParams, SeededImplGenerics, SeededTypeGenerics, generics_text, where_text,
    write_where,
};

verus! {

/// The path of the value that is built: the type, or the type and the
/// arm.
pub open spec fn value_path(ident: Seq<char>, variant: Option<Seq<char>>) -> Seq<char> {
    match variant {
        Some(v) => ident + " :: "@ + v,
        None => ident,
    }
}

/// Writes the path of the value that is built.
pub fn write_value_path(ident: &str, variant: Option<&str>) -> (r: String)
    ensures
        r@ == value_path(
            ident@,
            match variant {
                Some(v) => Some(v@),
                None => None,
            },
        ),
{
    let mut out = String::from_str(ident);
    match variant {
        Some(v) => {
            out.append(" :: ");
            out.append(v);
        },
        None => {},
    }
    out
}

/// How the one or several fields that are on the wire are decoded.
pub enum Source {
    /// From the decoder that a newtype visitor is handed.
    Newtype,
    /// Already decoded, and bound to `value__`.
    Bound,
    /// The next element of a sequence that holds so many elements.
    Element(nat),
}

/// Decoding a newtype's field from the decoder that the visitor is handed.
pub open spec fn from_decoder_text(seed: Seq<char>) -> Seq<char> {
    "::serde::de::DeserializeSeed::deserialize("@ + seed + ", deserializer)?"@
}

fn write_from_decoder(seed: &str) -> (r: String)
    ensures
        r@ == from_decoder_text(seed@),
{
    let mut out = String::from_str("::serde::de::DeserializeSeed::deserialize(");
    out.append(seed);
    out.append(", deserializer)?");
    out
}

/// Decoding the next element of a sequence; where the sequence has ended,
/// the position and the expected length are reported.
pub open spec fn element_text(
    seed: Seq<char>,
    position: Seq<char>,
    expected: Seq<char>,
) -> Seq<char> {
    "seq.next_element_seed("@ + seed + ")?.ok_or_else(|| ::serde::de::Error::invalid_length("@
        + position + "usize, &"@ + expected + "))?"@
}

fn write_element(seed: &str, position: &str, expected: &str) -> (r: String)
    ensures
        r@ == element_text(seed@, position@, expected@),
{
    let mut out = String::from_str("seq.next_element_seed(");
    out.append(seed);
    out.append(")?.ok_or_else(|| ::serde::de::Error::invalid_length(");
    out.append(position);
    out.append("usize, &");
    out.append(expected);
    out.append("))?");
    out
}

/// Decoding a record without payload: a visitor that expects a unit and
/// gives `value`.
pub open spec fn unit_visitor_text(
    def: Seq<char>,
    ident: Seq<char>,
    generics: Seq<char>,
    imp: Seq<char>,
    where_clause: Seq<char>,
    value: Seq<char>,
    name: Seq<char>,
) -> Seq<char> {
    "struct UnitVisitor "@ + def + " (::core::marker::PhantomData<"@ + ident + " "@ + generics
        + ">); impl "@ + imp + " ::serde::de::Visitor<'de> for UnitVisitor "@ + generics + " "@
        + where_clause + " { type Value = "@ + ident + " "@ + generics
        + "; fn expecting(&self, formatter: &mut ::core::fmt::Formatter) -> ::core::fmt::Result { \
            formatter.write_str(\"unit\") } fn visit_unit<__E>(self) -> Result<Self::Value, __E> \
            where __E: ::serde::de::Error { Ok("@
        + value + ") } } deserializer.deserialize_unit_struct("@ + name
        + ", UnitVisitor(::core::marker::PhantomData))"@
}

fn write_unit_visitor(
    def: &str,
    ident: &str,
    generics: &str,
    imp: &str,
    where_clause: &str,
    value: &str,
    name: &str,
) -> (r: String)
    ensures
        r@ == unit_visitor_text(def@, ident@, generics@, imp@, where_clause@, value@, name@),
{
    let mut out = String::from_str("struct UnitVisitor ");
    out.append(def);
    out.append(" (::core::marker::PhantomData<");
    out.append(ident);
    out.append(" ");
    out.append(generics);
    out.append(">); impl ");
    out.append(imp);
    out.append(" ::serde::de::Visitor<'de> for UnitVisitor ");
    out.append(generics);
    out.append(" ");
    out.append(where_clause);
    out.append(" { type Value = ");
    out.append(ident);
    out.append(" ");
    out.append(generics);
    out.append(
        "; fn expecting(&self, formatter: &mut ::core::fmt::Formatter) -> ::core::fmt::Result { \
            formatter.write_str(\"unit\") } fn visit_unit<__E>(self) -> Result<Self::Value, __E> \
            where __E: ::serde::de::Error { Ok(",
    );
    out.append(value);
    out.append(") } } deserializer.deserialize_unit_struct(");
    out.append(name);
    out.append(", UnitVisitor(::core::marker::PhantomData))");
    out
}

/// Decoding an arm without payload.
pub open spec fn unit_variant_text(value: Seq<char>) -> Seq<char> {
    "::serde::de::VariantAccess::unit_variant(variant)?; Ok("@ + value + ")"@
}

fn write_unit_variant(value: &str) -> (r: String)
    ensures
        r@ == unit_variant_text(value@),
{
    let mut out = String::from_str("::serde::de::VariantAccess::unit_variant(variant)?; Ok(");
    out.append(value);
    out.append(")");
    out
}

/// Decoding an arm with one field on the wire.
pub open spec fn newtype_variant_text(seed: Seq<char>, value: Seq<char>) -> Seq<char> {
    "::serde::de::VariantAccess::newtype_variant_seed(variant, "@ + seed + ").map(|value__| "@
        + value + ")"@
}

fn write_newtype_variant(seed: &str, value: &str) -> (r: String)
    ensures
        r@ == newtype_variant_text(seed@, value@),
{
    let mut out = String::from_str("::serde::de::VariantAccess::newtype_variant_seed(variant, ");
    out.append(seed);
    out.append(").map(|value__| ");
    out.append(value);
    out.append(")");
    out
}

/// The method of a newtype's visitor.
pub open spec fn newtype_method_text(value: Seq<char>) -> Seq<char> {
    "fn visit_newtype_struct<__D>(self, deserializer: __D) -> Result<Self::Value, __D::Error> \
        where __D: ::serde::Deserializer<'de> { Ok("@
        + value + ") }"@
}

fn write_newtype_method(value: &str) -> (r: String)
    ensures
        r@ == newtype_method_text(value@),
{
    let mut out = String::from_str("fn visit_newtype_struct<__D>(self, deserializer: __D) -> \
        Result<Self::Value, __D::Error> where __D: ::serde::Deserializer<'de> { Ok(");
    out.append(value);
    out.append(") }");
    out
}

/// Handing a newtype's visitor to the decoder.
pub open spec fn newtype_visit_text(name: Seq<char>, visitor: Seq<char>) -> Seq<char> {
    "deserializer.deserialize_newtype_struct("@ + name + ", "@ + visitor + ")"@
}

fn write_newtype_visit(name: &str, visitor: &str) -> (r: String)
    ensures
        r@ == newtype_visit_text(name@, visitor@),
{
    let mut out = String::from_str("deserializer.deserialize_newtype_struct(");
    out.append(name);
    out.append(", ");
    out.append(visitor);
    out.append(")");
    out
}

/// The method of a tuple's visitor.
pub open spec fn tuple_method_text(value: Seq<char>) -> Seq<char> {
    "fn visit_seq<__A>(self, mut seq: __A) -> Result<Self::Value, __A::Error> where __A: \
        ::serde::de::SeqAccess<'de> { Ok("@
        + value + ") }"@
}

fn write_tuple_method(value: &str) -> (r: String)
    ensures
        r@ == tuple_method_text(value@),
{
    let mut out = String::from_str("fn visit_seq<__A>(self, mut seq: __A) -> Result<Self::Value, \
        __A::Error> where __A: ::serde::de::SeqAccess<'de> { Ok(");
    out.append(value);
    out.append(") }");
    out
}

/// Handing a tuple's visitor to the decoder.
pub open spec fn tuple_visit_text(
    name: Seq<char>,
    count: Seq<char>,
    visitor: Seq<char>,
) -> Seq<char> {
    "deserializer.deserialize_tuple_struct("@ + name + ", "@ + count + "usize, "@ + visitor
        + ")"@
}

fn write_tuple_visit(name: &str, count: &str, visitor: &str) -> (r: String)
    ensures
        r@ == tuple_visit_text(name@, count@, visitor@),
{
    let mut out = String::from_str("deserializer.deserialize_tuple_struct(");
    out.append(name);
    out.append(", ");
    out.append(count);
    out.append("usize, ");
    out.append(visitor);
    out.append(")");
    out
}

/// Handing the visitor of an arm's tuple to the decoder.
pub open spec fn tuple_variant_visit_text(count: Seq<char>, visitor: Seq<char>) -> Seq<char> {
    "::serde::de::VariantAccess::tuple_variant(variant, "@ + count + "usize, "@ + visitor
        + ")"@
}

fn write_tuple_variant_visit(count: &str, visitor: &str) -> (r: String)
    ensures
        r@ == tuple_variant_visit_text(count@, visitor@),
{
    let mut out = String::from_str("::serde::de::VariantAccess::tuple_variant(variant, ");
    out.append(count);
    out.append("usize, ");
    out.append(visitor);
    out.append(")");
    out
}

/// The body that decodes a record or arm with nothing on the wire: a unit
/// is expected, and `value` is given.
pub open spec fn unit_body_text(
    ident: Seq<char>,
    generics: GenericsView,
    variant: Option<Seq<char>>,
    name: Seq<char>,
    value: Seq<char>,
) -> Seq<char> {
    match variant {
        Some(_) => unit_variant_text(value),
        None => unit_visitor_text(
            generics_text(generics.params, SeedParams::spec_none(), Seq::empty(), true),
            ident,
            generics_text(generics.params, SeedParams::spec_none(), Seq::empty(), false),
            generics_text(generics.params, de_only(), Seq::empty(), true),
            where_text(generics.where_clause),
            value,
            string_literal(name),
        ),
    }
}

/// Writes the body that decodes a record or arm with nothing on the wire.
pub fn write_unit_body(
    ident: &str,
    generics: &Generics,
    variant: Option<&str>,
    name: &str,
    value: &str,
) -> (r: String)
    ensures
        r@ == unit_body_text(ident@, generics@, name_view(variant), name@, value@),
{
    match variant {
        Some(_) => write_unit_variant(value),
        None => {
            let mut def = String::new();
            SeededImplGenerics::new(generics).to_tokens(&mut def);
            let mut ty = String::new();
            SeededTypeGenerics::new(generics).to_tokens(&mut ty);
            let mut imp = String::new();
            SeededImplGenerics::new(generics).with(SeedParams::of(SeedParam::DeLifetime)).to_tokens(
                &mut imp,
            );
            let where_clause = write_where(generics.where_clause.as_slice());
            proof {
                assert(SeedParams::spec_none().spec_union(
                    SeedParams::spec_of(SeedParam::DeLifetime),
                ) == de_only());
                assert(def@ =~= generics_text(
                    generics@.params,
                    SeedParams::spec_none(),
                    Seq::empty(),
                    true,
                ));
                assert(ty@ =~= generics_text(
                    generics@.params,
                    SeedParams::spec_none(),
                    Seq::empty(),
                    false,
                ));
                assert(imp@ =~= generics_text(generics@.params, de_only(), Seq::empty(), true));
            }
            write_unit_visitor(
                def.as_str(),
                ident,
                ty.as_str(),
                imp.as_str(),
                where_clause.as_str(),
                value,
                write_string_literal(name).as_str(),
            )
        },
    }
}

/// What is expected where a sequence of `count` elements ends early.
pub open spec fn expected_text(count: nat) -> Seq<char> {
    string_literal(decimal_text(count) + " arguments"@)
}

/// The expression that gives the field at position `i` its value: its
/// default where it is skipped, else what `source` says, for the element
/// at the field's position among those that are not skipped.
pub open spec fn argument(t: Target, fields: Seq<PositionalField>, i: int, source: Source) -> Seq<
    char,
> {
    if fields[i].attrs.skip {
        "::core::default::Default::default()"@
    } else {
        match source {
            Source::Newtype => from_decoder_text(seed_for(t, fields[i].attrs, fields[i].ty)),
            Source::Bound => "value__"@,
            Source::Element(count) => element_text(
                seed_for(t, fields[i].attrs, fields[i].ty),
                decimal_text(unskipped(positional_skips(fields), i as nat)),
                expected_text(count),
            ),
        }
    }
}

/// The elements of a tuple are pulled as decided: a field that is skipped
/// gets its default; any other gets the next element, and where the
/// sequence has ended, what is reported names the field's position among
/// the fields that are not skipped and denotes what the decoder expects.
pub proof fn lemma_elements_are_the_decided(
    t: Target,
    fields: Seq<PositionalField>,
    i: int,
    count: nat,
)
    requires
        0 <= i < fields.len(),
    ensures
        fields[i].attrs.skip ==> argument(t, fields, i, Source::Element(count))
            == "::core::default::Default::default()"@,
        !fields[i].attrs.skip ==> argument(t, fields, i, Source::Element(count)) == element_text(
            seed_for(t, fields[i].attrs, fields[i].ty),
            decimal_text(unskipped(positional_skips(fields), i as nat)),
            string_literal(crate::traversal::expected(count)),
        ),
        denoted(string_literal(crate::traversal::expected(count))) == Some(
            crate::traversal::expected(count),
        ),
{
    lemma_string_literal_denotes(crate::traversal::expected(count));
}

/// The arguments for the first `n` fields, a comma after each.
pub open spec fn arguments(t: Target, fields: Seq<PositionalField>, n: nat, source: Source) -> Seq<
    char,
>
    decreases n,
{
    if n == 0 || n > fields.len() {
        Seq::empty()
    } else {
        arguments(t, fields, (n - 1) as nat, source) + argument(t, fields, n - 1, source) + ", "@
    }
}

/// The value that is built from positional fields.
pub open spec fn built(t: Target, fields: Seq<PositionalField>, source: Source) -> Seq<char> {
    value_path(t.ident, t.variant) + "("@ + arguments(t, fields, fields.len(), source) + ")"@
}

/// The body that decodes positional fields.
pub open spec fn body_text(t: Target, name: Seq<char>, fields: Seq<PositionalField>) -> Seq<char> {
    let skips = positional_skips(fields);
    let count = unskipped(skips, skips.len());
    let g = visitor_generics(t.generics, t.extra);
    if count == 0 {
        unit_body_text(t.ident, t.generics, t.variant, name, built(t, fields, Source::Bound))
    } else if count == 1 {
        let first = fields[first_unskipped(skips, skips.len())->0];
        match t.variant {
            Some(_) => newtype_variant_text(
                seed_for(t, first.attrs, first.ty),
                built(t, fields, Source::Bound),
            ),
            None => visitor_text(
                "NewtypeVisitor"@,
                g.def,
                t.seed_ty,
                t.ident,
                g.value,
                g.imp,
                g.ty,
                g.where_clause,
                "a newtype struct"@,
                newtype_method_text(built(t, fields, Source::Newtype)),
            ) + newtype_visit_text(
                string_literal(name),
                visitor_value_text("NewtypeVisitor"@, "seed"@, t.ident, g.value),
            ),
        }
    } else {
        visitor_text(
            "TupleVisitor"@,
            g.def,
            t.seed_ty,
            t.ident,
            g.value,
            g.imp,
            g.ty,
            g.where_clause,
            "a tuple"@,
            tuple_method_text(built(t, fields, Source::Element(count))),
        ) + (match t.variant {
            Some(_) => tuple_variant_visit_text(
                decimal_text(count),
                visitor_value_text("TupleVisitor"@, "self.seed"@, t.ident, g.value),
            ),
            None => tuple_visit_text(
                string_literal(name),
                decimal_text(count),
                visitor_value_text("TupleVisitor"@, "seed"@, t.ident, g.value),
            ),
        })
    }
}

/// What `derive` gives for positional fields: the body of `body_text`,
/// or `MissingSeed` where the seed specification names no seed type.
pub open spec fn derive_of(
    ident: Seq<char>,
    generics: GenericsView,
    attrs: TypeAttributesView,
    de: SeedSpec,
    variant: Option<Seq<char>>,
    fields: Seq<PositionalField>,
) -> Result<Seq<char>, Error> {
    if de.seed is None {
        Err(missing_seed())
    } else {
        Ok(body_text(target_of(ident, generics, de, variant), attrs.name(ident), fields))
    }
}

/// The view of an optional name.
pub open spec fn name_view(variant: Option<&str>) -> Option<Seq<char>> {
    match variant {
        Some(v) => Some(v@),
        None => None,
    }
}

/// The source as the functions below take it.
#[derive(Clone, Copy)]
pub enum SourceKind {
    Newtype,
    Bound,
    Element(usize),
}

impl View for SourceKind {
    type V = Source;

    open spec fn view(&self) -> Source {
        match *self {
            SourceKind::Newtype => Source::Newtype,
            SourceKind::Bound => Source::Bound,
            SourceKind::Element(n) => Source::Element(n as nat),
        }
    }
}

fn write_expected(count: usize) -> (r: String)
    ensures
        r@ == expected_text(count as nat),
{
    let mut message = decimal(count as u64);
    message.append(" arguments");
    write_string_literal(message.as_str())
}

fn write_seed_for(
    ident: &str,
    generics: &Generics,
    de: &SerializeAttributes,
    variant: Option<&str>,
    f: &SerializedUnnamedField,
) -> (r: String)
    requires
        de@.seed is Some,
    ensures
        r@ == seed_for(target_of(ident@, generics@, de@, name_view(variant)), f@.attrs, f@.ty),
{
    match deserialize_seed(ident, generics, de, &f.attrs, f.ty.as_str()) {
        Ok(s) => s,
        Err(_) => String::new(),
    }
}

fn write_built(
    ident: &str,
    generics: &Generics,
    de: &SerializeAttributes,
    variant: Option<&str>,
    fields: &[SerializedUnnamedField],
    source: SourceKind,
) -> (r: String)
    requires
        de@.seed is Some,
    ensures
        r@ == built(
            target_of(ident@, generics@, de@, name_view(variant)),
            positional_views(fields@),
            source@,
        ),
{
    let ghost t = target_of(ident@, generics@, de@, name_view(variant));
    let ghost shapes = positional_views(fields@);
    let mut args = String::new();
    let mut position: usize = 0;
    let mut i: usize = 0;
    while i < fields.len()
        invariant
            i <= fields.len(),
            de@.seed is Some,
            t == target_of(ident@, generics@, de@, name_view(variant)),
            shapes == positional_views(fields@),
            position <= i,
            position == unskipped(positional_skips(shapes), i as nat),
            args@ == arguments(t, shapes, i as nat, source@),
        decreases fields.len() - i,
    {
        let f = &fields[i];
        assert(shapes[i as int] == f@);
        if f.attrs.skip {
            args.append("::core::default::Default::default()");
        } else {
            match source {
                SourceKind::Newtype => {
                    let seed = write_seed_for(ident, generics, de, variant, f);
                    args.append(write_from_decoder(seed.as_str()).as_str());
                },
                SourceKind::Bound => {
                    args.append("value__");
                },
                SourceKind::Element(count) => {
                    let seed = write_seed_for(ident, generics, de, variant, f);
                    let expected = write_expected(count);
                    args.append(
                        write_element(
                            seed.as_str(),
                            decimal(position as u64).as_str(),
                            expected.as_str(),
                        ).as_str(),
                    );
                },
            }
            position += 1;
        }
        args.append(", ");
        i += 1;
    }
    let mut out = write_value_path(ident, variant);
    out.append("(");
    out.append(args.as_str());
    out.append(")");
    out
}

/// Writes the body that decodes the positional fields of one record, or
/// of one arm where `variant_ident` names it.
pub fn derive(
    ident: &str,
    generics: &Generics,
    attrs: &TypeAttributes,
    de: &SerializeAttributes,
    variant_ident: Option<&str>,
    fields: &[SerializedUnnamedField],
) -> (r: Result<String, Error>)
    ensures
        match r {
            Ok(s) => derive_of(
                ident@,
                generics@,
                attrs@,
                de@,
                name_view(variant_ident),
                positional_views(fields@),
            ) == Ok::<Seq<char>, Error>(s@),
            Err(e) => derive_of(
                ident@,
                generics@,
                attrs@,
                de@,
                name_view(variant_ident),
                positional_views(fields@),
            ) == Err::<Seq<char>, Error>(e),
        },
{
    let name = write_string_literal(attrs.name(ident).as_str());
    let seed_ty = match de.require_seed() {
        Ok(t) => t,
        Err(e) => {
            return Err(Error::Attribute(e));
        },
    };
    let skips = skips_of_unnamed(fields);
    let count = count_unskipped(skips.as_slice());
    proof {
        lemma_unskipped(skips@, skips@.len());
    }
    let g = write_visitor_generics(generics, de);
    if count == 0 {
        let value = write_built(ident, generics, de, variant_ident, fields, SourceKind::Bound);
        Ok(
            write_unit_body(
                ident,
                generics,
                variant_ident,
                attrs.name(ident).as_str(),
                value.as_str(),
            ),
        )
    } else if count == 1 {
        let first = match find_unskipped(skips.as_slice()) {
            Some(i) => i,
            None => 0,
        };
        assert(positional_views(fields@)[first as int] == fields@[first as int]@);
        match variant_ident {
            Some(_) => {
                let seed = write_seed_for(ident, generics, de, variant_ident, &fields[first]);
                let value = write_built(
                    ident,
                    generics,
                    de,
                    variant_ident,
                    fields,
                    SourceKind::Bound,
                );
                Ok(write_newtype_variant(seed.as_str(), value.as_str()))
            },
            None => {
                let value = write_built(
                    ident,
                    generics,
                    de,
                    variant_ident,
                    fields,
                    SourceKind::Newtype,
                );
                let mut out = write_visitor(
                    "NewtypeVisitor",
                    g.def.as_str(),
                    seed_ty.as_str(),
                    ident,
                    g.value.as_str(),
                    g.imp.as_str(),
                    g.ty.as_str(),
                    g.where_clause.as_str(),
                    "a newtype struct",
                    write_newtype_method(value.as_str()).as_str(),
                );
                let visitor = write_visitor_value(
                    "NewtypeVisitor",
                    "seed",
                    ident,
                    g.value.as_str(),
                );
                out.append(write_newtype_visit(name.as_str(), visitor.as_str()).as_str());
                Ok(out)
            },
        }
    } else {
        let value = write_built(
            ident,
            generics,
            de,
            variant_ident,
            fields,
            SourceKind::Element(count),
        );
        let mut out = write_visitor(
            "TupleVisitor",
            g.def.as_str(),
            seed_ty.as_str(),
            ident,
            g.value.as_str(),
            g.imp.as_str(),
            g.ty.as_str(),
            g.where_clause.as_str(),
            "a tuple",
            write_tuple_method(value.as_str()).as_str(),
        );
        let len = decimal(count as u64);
        match variant_ident {
            Some(_) => {
                let visitor = write_visitor_value(
                    "TupleVisitor",
                    "self.seed",
                    ident,
                    g.value.as_str(),
                );
                out.append(write_tuple_variant_visit(len.as_str(), visitor.as_str()).as_str());
            },
            None => {
                let visitor = write_visitor_value("TupleVisitor", "seed", ident, g.value.as_str());
                out.append(
                    write_tuple_visit(name.as_str(), len.as_str(), visitor.as_str()).as_str(),
                );
            },
        }
        Ok(out)
    }
}

} // verus!
