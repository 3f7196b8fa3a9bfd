//! The body of a decoding implementation for a union.
//!
//! An arm is known by its position among the arms, from zero, by its
//! name as text, or by its name as bytes. First the arm's identifier is
//! decoded; then the arm's own fields are, as their shape says.

use vstd::prelude::*;
use vstd::string::*;
use crate::attributes::{SeedSpec, SerializeAttributes, TypeAttributes, TypeAttributesView};
use crate::de::fields;
use crate::de::{
    Error, identifier_text, known_text, missing_seed, visitor_generics, visitor_text,
    visitor_value_text, write_identifier, write_known, write_visitor, write_visitor_generics,
    write_visitor_value,
};
use crate::attributes::{Reply, viewed};
use crate::fields::{ask_variants, asked_variants, fields_replies, shape_of, shape_with};
use crate::item::{DataEnum, Generics, GenericsView, Variant};
use crate::ser::seed_text;
use crate::literal::{
    byte_string_literal, denoted, denoted_bytes, lemma_byte_string_literal_denotes,
    lemma_string_literal_denotes, string_literal, write_byte_string_literal, write_string_literal,
};
use crate::traversal::arm_names;
use crate::text::{decimal, decimal_text};
use vstd::utf8::encode_utf8;

verus! {

/// The pieces that the body is put together from, each written once for
/// every arm.
#[derive(Clone, Copy, PartialEq, Eq, Structural)]
pub enum Part {
    /// The arm's entry in the enumeration of known identifiers.
    Variant,
    /// The arm's name in the list of known names.
    Name,
    /// The identifier decoded from the arm's position.
    Position,
    /// The identifier decoded from the arm's name as text.
    Text,
    /// The identifier decoded from the arm's name as bytes.
    Bytes,
}

/// A known position or name.
pub open spec fn known_case_text(key: Seq<char>, variant: Seq<char>) -> Seq<char> {
    key + " => Ok(Discriminant::"@ + variant + "), "@
}

fn write_known_case(key: &str, variant: &str) -> (r: String)
    ensures
        r@ == known_case_text(key@, variant@),
{
    let mut out = String::from_str(key);
    out.append(" => Ok(Discriminant::");
    out.append(variant);
    out.append("), ");
    out
}

/// What is done once the arm is known: its fields are decoded.
pub open spec fn arm_text(variant: Seq<char>, body: Seq<char>) -> Seq<char> {
    "Discriminant::"@ + variant + " => { "@ + body + " }, "@
}

fn write_arm(variant: &str, body: &str) -> (r: String)
    ensures
        r@ == arm_text(variant@, body@),
{
    let mut out = String::from_str("Discriminant::");
    out.append(variant);
    out.append(" => { ");
    out.append(body);
    out.append(" }, ");
    out
}

/// The method of a union's visitor.
pub open spec fn enum_method_text(identifier: Seq<char>, arms: Seq<char>) -> Seq<char> {
    "fn visit_enum<__A>(self, data: __A) -> Result<Self::Value, __A::Error> where __A: \
        ::serde::de::EnumAccess<'de> { "@
        + identifier
        + "let (discriminant, variant) = data.variant::<Discriminant>()?; match discriminant { "@
        + arms + "} }"@
}

fn write_enum_method(identifier: &str, arms: &str) -> (r: String)
    ensures
        r@ == enum_method_text(identifier@, arms@),
{
    let mut out = String::from_str("fn visit_enum<__A>(self, data: __A) -> Result<Self::Value, \
        __A::Error> where __A: ::serde::de::EnumAccess<'de> { ");
    out.append(identifier);
    out.append(
        "let (discriminant, variant) = data.variant::<Discriminant>()?; match discriminant { ",
    );
    out.append(arms);
    out.append("} }");
    out
}

/// Handing a union's visitor to the decoder.
pub open spec fn enum_visit_text(name: Seq<char>, visitor: Seq<char>) -> Seq<char> {
    "deserializer.deserialize_enum("@ + name + ", &VARIANTS, "@ + visitor + ")"@
}

fn write_enum_visit(name: &str, visitor: &str) -> (r: String)
    ensures
        r@ == enum_visit_text(name@, visitor@),
{
    let mut out = String::from_str("deserializer.deserialize_enum(");
    out.append(name);
    out.append(", &VARIANTS, ");
    out.append(visitor);
    out.append(")");
    out
}

/// The error of a position that names no arm: an unknown arm, under the
/// position in decimal.
pub open spec fn unknown_index_text() -> Seq<char> {
    "::serde::de::Error::unknown_variant(&::std::string::ToString::to_string(&v), &VARIANTS)"@
}

/// The piece `part` for the arm at position `i`.
pub open spec fn piece(variants: Seq<Variant>, i: int, part: Part) -> Seq<char> {
    let v = variants[i].ident@;
    match part {
        Part::Variant => v + ", "@,
        Part::Name => string_literal(v) + ", "@,
        Part::Position => known_case_text(decimal_text(i as nat) + "u64"@, v),
        Part::Text => known_case_text(string_literal(v), v),
        Part::Bytes => known_case_text(byte_string_literal(encode_utf8(v)), v),
    }
}

/// The cases of the identifier decoder are written for what is known: the
/// position in the case of an arm is the position of its name among the
/// names of the arms, the literals in its other two cases denote that name
/// and the bytes of that name, and all three cases select the arm's own
/// entry.
pub proof fn lemma_cases_are_the_known(variants: Seq<Variant>, i: int)
    requires
        0 <= i < variants.len(),
    ensures
        ({
            let names = arm_names(variants);
            &&& names.len() == variants.len()
            &&& names[i] == variants[i].ident@
            &&& piece(variants, i, Part::Position) == known_case_text(
                decimal_text(i as nat) + "u64"@,
                names[i],
            )
            &&& piece(variants, i, Part::Text) == known_case_text(
                string_literal(names[i]),
                names[i],
            )
            &&& piece(variants, i, Part::Bytes) == known_case_text(
                byte_string_literal(encode_utf8(names[i])),
                names[i],
            )
            &&& denoted(string_literal(names[i])) == Some(names[i])
            &&& denoted_bytes(byte_string_literal(encode_utf8(names[i]))) == Some(
                encode_utf8(names[i]),
            )
        }),
{
    let names = arm_names(variants);
    lemma_string_literal_denotes(names[i]);
    lemma_byte_string_literal_denotes(encode_utf8(names[i]));
}

/// The piece `part` for each of the first `n` arms, in order.
pub open spec fn pieces(variants: Seq<Variant>, n: nat, part: Part) -> Seq<char>
    decreases n,
{
    if n == 0 || n > variants.len() {
        Seq::empty()
    } else {
        pieces(variants, (n - 1) as nat, part) + piece(variants, n - 1, part)
    }
}

/// What is done for each of the first `n` arms once it is known, or the
/// first error among them.
pub open spec fn arms_of(
    ident: Seq<char>,
    generics: GenericsView,
    attrs: TypeAttributesView,
    de: SeedSpec,
    variants: Seq<Variant>,
    replies: Seq<Vec<Vec<Vec<Reply>>>>,
    n: nat,
) -> Result<Seq<char>, Error>
    decreases n,
{
    if n == 0 || n > variants.len() {
        Ok(Seq::empty())
    } else {
        match arms_of(ident, generics, attrs, de, variants, replies, (n - 1) as nat) {
            Err(e) => Err(e),
            Ok(done) => match shape_of(variants[n - 1].fields, fields_replies(replies, n - 1)) {
                Err(e) => Err(Error::Attribute(e)),
                Ok(shape) => match fields::derive_of(
                    ident,
                    generics,
                    attrs,
                    de,
                    Some(variants[n - 1].ident@),
                    shape,
                ) {
                    Err(e) => Err(e),
                    Ok(body) => Ok(done + arm_text(variants[n - 1].ident@, body)),
                },
            },
        }
    }
}

/// The body that decodes a union whose arms are decoded by `arms`.
pub open spec fn body_text(
    ident: Seq<char>,
    generics: GenericsView,
    name: Seq<char>,
    de: SeedSpec,
    variants: Seq<Variant>,
    arms: Seq<char>,
) -> Seq<char> {
    let n = variants.len();
    let g = visitor_generics(generics, de.params);
    known_text("VARIANTS"@, decimal_text(n), pieces(variants, n, Part::Name)) + visitor_text(
        "Visitor"@,
        g.def,
        seed_text(de),
        ident,
        g.value,
        g.imp,
        g.ty,
        g.where_clause,
        "enum value"@,
        enum_method_text(
            identifier_text(
                "Discriminant"@,
                pieces(variants, n, Part::Variant),
                "variant identifier"@,
                pieces(variants, n, Part::Position),
                unknown_index_text(),
                pieces(variants, n, Part::Text),
                "unknown_variant"@,
                "VARIANTS"@,
                pieces(variants, n, Part::Bytes),
            ),
            arms,
        ),
    ) + enum_visit_text(
        string_literal(name),
        visitor_value_text("Visitor"@, "seed"@, ident, g.value),
    )
}

/// What `derive` gives for a union: the first error among its arms, else
/// `MissingSeed` where the seed specification names no seed type, else the
/// body of `body_text`.
pub open spec fn derive_of(
    ident: Seq<char>,
    generics: GenericsView,
    attrs: TypeAttributesView,
    de: SeedSpec,
    variants: Seq<Variant>,
    replies: Seq<Vec<Vec<Vec<Reply>>>>,
) -> Result<Seq<char>, Error> {
    match arms_of(ident, generics, attrs, de, variants, replies, variants.len()) {
        Err(e) => Err(e),
        Ok(arms) => if de.seed is None {
            Err(missing_seed())
        } else {
            Ok(body_text(ident, generics, attrs.name(ident), de, variants, arms))
        },
    }
}

proof fn lemma_arms_stop(
    ident: Seq<char>,
    generics: GenericsView,
    attrs: TypeAttributesView,
    de: SeedSpec,
    variants: Seq<Variant>,
    replies: Seq<Vec<Vec<Vec<Reply>>>>,
    i: nat,
    n: nat,
)
    requires
        i <= n <= variants.len(),
        arms_of(ident, generics, attrs, de, variants, replies, i) is Err,
    ensures
        arms_of(ident, generics, attrs, de, variants, replies, n) == arms_of(
            ident,
            generics,
            attrs,
            de,
            variants,
            replies,
            i,
        ),
    decreases n,
{
    if n > i {
        lemma_arms_stop(ident, generics, attrs, de, variants, replies, i, (n - 1) as nat);
    }
}

fn write_piece(variants: &[Variant], i: usize, part: Part) -> (r: String)
    requires
        i < variants@.len(),
    ensures
        r@ == piece(variants@, i as int, part),
{
    let v = variants[i].ident.as_str();
    match part {
        Part::Variant => {
            let mut out = String::from_str(v);
            out.append(", ");
            out
        },
        Part::Name => {
            let mut out = write_string_literal(v);
            out.append(", ");
            out
        },
        Part::Position => {
            let mut key = decimal(i as u64);
            key.append("u64");
            write_known_case(key.as_str(), v)
        },
        Part::Text => write_known_case(write_string_literal(v).as_str(), v),
        Part::Bytes => write_known_case(write_byte_string_literal(v.as_bytes()).as_str(), v),
    }
}

fn write_pieces(variants: &[Variant], part: Part) -> (r: String)
    ensures
        r@ == pieces(variants@, variants@.len(), part),
{
    let mut out = String::new();
    let mut i: usize = 0;
    while i < variants.len()
        invariant
            i <= variants.len(),
            out@ == pieces(variants@, i as nat, part),
        decreases variants.len() - i,
    {
        out.append(write_piece(variants, i, part).as_str());
        i += 1;
    }
    out
}

fn write_arms(
    ident: &str,
    generics: &Generics,
    attrs: &TypeAttributes,
    de: &SerializeAttributes,
    variants: &[Variant],
    replies: &Vec<Vec<Vec<Vec<Reply>>>>,
) -> (r: Result<String, Error>)
    ensures
        match r {
            Ok(s) => arms_of(
                ident@,
                generics@,
                attrs@,
                de@,
                variants@,
                replies@,
                variants@.len(),
            ) == Ok::<
                Seq<char>,
                Error,
            >(s@),
            Err(e) => arms_of(
                ident@,
                generics@,
                attrs@,
                de@,
                variants@,
                replies@,
                variants@.len(),
            ) == Err::<
                Seq<char>,
                Error,
            >(e),
        },
{
    let mut out = String::new();
    let mut i: usize = 0;
    while i < variants.len()
        invariant
            i <= variants.len(),
            arms_of(
                ident@,
                generics@,
                attrs@,
                de@,
                variants@,
                replies@,
                i as nat,
            ) == Ok::<Seq<char>, Error>(
                out@,
            ),
        decreases variants.len() - i,
    {
        let v = &variants[i];
        let shape = match shape_with(&v.fields, replies, i) {
            Ok(s) => s,
            Err(e) => {
                proof {
                    assert(arms_of(
                        ident@,
                        generics@,
                        attrs@,
                        de@,
                        variants@,
                        replies@,
                        (i + 1) as nat,
                    )
                        is Err);
                    lemma_arms_stop(
                        ident@,
                        generics@,
                        attrs@,
                        de@,
                        variants@,
                        replies@,
                        (i + 1) as nat,
                        variants@.len(),
                    );
                }
                return Err(Error::Attribute(e));
            },
        };
        let body = match fields::derive(
            ident,
            generics,
            attrs,
            de,
            Some(v.ident.as_str()),
            &shape,
        ) {
            Ok(b) => b,
            Err(e) => {
                proof {
                    assert(arms_of(
                        ident@,
                        generics@,
                        attrs@,
                        de@,
                        variants@,
                        replies@,
                        (i + 1) as nat,
                    )
                        is Err);
                    lemma_arms_stop(
                        ident@,
                        generics@,
                        attrs@,
                        de@,
                        variants@,
                        replies@,
                        (i + 1) as nat,
                        variants@.len(),
                    );
                }
                return Err(e);
            },
        };
        out.append(write_arm(v.ident.as_str(), body.as_str()).as_str());
        i += 1;
    }
    Ok(out)
}

/// Writes the body that decodes a union. The parser is asked about the
/// arguments in the attributes of the arms' fields, and the body is
/// written with the answers that came back.
pub fn derive(
    ident: &str,
    generics: &Generics,
    attrs: &TypeAttributes,
    de: &SerializeAttributes,
    e: &DataEnum,
) -> (r: Result<String, Error>)
    ensures
        exists|replies: Seq<Vec<Vec<Vec<Reply>>>>|
            asked_variants(e.variants@, replies) && #[trigger] derive_of(
                ident@,
                generics@,
                attrs@,
                de@,
                e.variants@,
                replies,
            ) == viewed(r),
{
    let replies = ask_variants(&e.variants);
    let r = derive_with(ident, generics, attrs, de, e, &replies);
    assert(derive_of(ident@, generics@, attrs@, de@, e.variants@, replies@) == viewed(r));
    r
}

/// Writes the body that decodes a union, with the answers that the parser
/// gave about the arguments in the attributes of each arm's fields.
pub fn derive_with(
    ident: &str,
    generics: &Generics,
    attrs: &TypeAttributes,
    de: &SerializeAttributes,
    e: &DataEnum,
    replies: &Vec<Vec<Vec<Vec<Reply>>>>,
) -> (r: Result<String, Error>)
    ensures
        derive_of(ident@, generics@, attrs@, de@, e.variants@, replies@) == viewed(r),
{
    let variants = e.variants.as_slice();
    let arms = match write_arms(ident, generics, attrs, de, variants, replies) {
        Ok(a) => a,
        Err(err) => {
            return Err(err);
        },
    };
    let seed_ty = match de.require_seed() {
        Ok(t) => t,
        Err(err) => {
            return Err(Error::Attribute(err));
        },
    };
    let name = write_string_literal(attrs.name(ident).as_str());
    let g = write_visitor_generics(generics, de);
    let identifier = write_identifier(
        "Discriminant",
        write_pieces(variants, Part::Variant).as_str(),
        "variant identifier",
        write_pieces(variants, Part::Position).as_str(),
        "::serde::de::Error::unknown_variant(&::std::string::ToString::to_string(&v), &VARIANTS)",
        write_pieces(variants, Part::Text).as_str(),
        "unknown_variant",
        "VARIANTS",
        write_pieces(variants, Part::Bytes).as_str(),
    );
    let mut out = write_known(
        "VARIANTS",
        decimal(variants.len() as u64).as_str(),
        write_pieces(variants, Part::Name).as_str(),
    );
    out.append(
        write_visitor(
            "Visitor",
            g.def.as_str(),
            seed_ty.as_str(),
            ident,
            g.value.as_str(),
            g.imp.as_str(),
            g.ty.as_str(),
            g.where_clause.as_str(),
            "enum value",
            write_enum_method(identifier.as_str(), arms.as_str()).as_str(),
        ).as_str(),
    );
    let visitor = write_visitor_value("Visitor", "seed", ident, g.value.as_str());
    out.append(write_enum_visit(name.as_str(), visitor.as_str()).as_str());
    Ok(out)
}

} // verus!
