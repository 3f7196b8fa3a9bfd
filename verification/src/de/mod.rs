//! The decoding side: the implementation of `DeserializeSeeded` that is
//! generated for a type, one for each seed specification it declares, and
//! `Seed`, the seed that generated code hands to a decoder for each value.

use vstd::prelude::*;
use core::marker::PhantomData;
use vstd::string::*;
use crate::attributes;
use crate::attributes::{
    FieldAttributes, FieldAttributesView, SeedSpec, SerializeAttributes, TypeAttributes,
    TypeAttributesView, type_attributes_of,
};
use crate::bounds::{Direction, synthesize, synthesized};
use crate::attributes::{Reply, viewed};
use crate::fields::{
    NamedFieldShape, PositionalField, Replies, SerializedFields, Shape, ask_input, asked_input,
    fields_replies,
    named_views, positional_views, shape_of, shape_with,
};
use crate::item::{
    Data, DeriveInput, GenericParam, Generics, GenericsView, WherePredicate, predicate_views,
};
use crate::ser::{extend_generics, extended, seed_text};
use crate::token::Span;
use crate::utils::{
    SeedParam, SeedParams, SeededImplGenerics, SeededTypeGenerics, generics_text, where_text,
    write_where,
};

pub mod fields;
pub mod variants;

verus! {

/// The seed with which a `T` is to be decoded.
pub struct Seed<'a, Q: ?Sized, T> {
    seed: &'a Q,
    t: PhantomData<T>,
}

impl<'a, Q: ?Sized, T> Seed<'a, Q, T> {
    /// The seed that is carried.
    pub closed spec fn spec_seed(&self) -> &'a Q {
        self.seed
    }

    /// A decoding seed for `T` that carries `seed`.
    pub fn new(seed: &'a Q) -> (r: Self)
        ensures
            r.spec_seed() == seed,
    {
        Self { seed, t: PhantomData }
    }

    /// The seed that is carried.
    #[verifier::when_used_as_spec(spec_seed)]
    pub fn seed(&self) -> (r: &'a Q)
        ensures
            r == self.spec_seed(),
    {
        self.seed
    }
}

impl<Q: ?Sized, T> Clone for Seed<'_, Q, T> {
    fn clone(&self) -> (r: Self)
        ensures
            r == *self,
    {
        *self
    }
}

impl<Q: ?Sized, T> Copy for Seed<'_, Q, T> {

}

/// Why no decoding implementation could be generated.
#[derive(Debug)]
pub enum Error {
    /// The type is a `union`.
    Union(Span),
    /// An `enum` is marked `transparent`.
    TransparentEnum(Span),
    /// A struct without fields is marked `transparent`.
    TransparentUnit(Span),
    /// The attributes could not be read.
    Attribute(attributes::Error),
}

impl Error {
    /// Where the error is to be reported.
    pub open spec fn spec_span(&self) -> Span {
        match *self {
            Error::Union(s) => s,
            Error::TransparentEnum(s) => s,
            Error::TransparentUnit(s) => s,
            Error::Attribute(e) => e.span(),
        }
    }

    /// Where the error is to be reported.
    #[verifier::when_used_as_spec(spec_span)]
    pub fn span(&self) -> (r: Span)
        ensures
            r == self.spec_span(),
    {
        match self {
            Error::Union(s) => *s,
            Error::TransparentEnum(s) => *s,
            Error::TransparentUnit(s) => *s,
            Error::Attribute(e) => e.span(),
        }
    }

    /// The message of the error.
    pub open spec fn message(&self) -> Seq<char> {
        match *self {
            Error::Union(_) => "unsupported `union` type"@,
            Error::TransparentEnum(_) => "`enum` cannot be transparent"@,
            Error::TransparentUnit(_) => "cannot deserialize unit struct transparently"@,
            Error::Attribute(e) => e.message(),
        }
    }

    /// The message of the error.
    pub fn to_string(&self) -> (r: String)
        ensures
            r@ == self.message(),
    {
        match self {
            Error::Union(_) => String::from_str("unsupported `union` type"),
            Error::TransparentEnum(_) => String::from_str("`enum` cannot be transparent"),
            Error::TransparentUnit(_) => String::from_str(
                "cannot deserialize unit struct transparently",
            ),
            Error::Attribute(e) => e.to_string(),
        }
    }
}

/// The error of a seed specification that names no seed type.
pub open spec fn missing_seed() -> Error {
    Error::Attribute(attributes::Error::MissingSeed)
}

/// The bounds generated for a decoding implementation: every type
/// parameter that `override_bounds` does not bound must itself be
/// `DeserializeSeeded` with the seed's type.
pub fn additional_predicates(
    generics: &Generics,
    seed_ty: &str,
    override_bounds: &[WherePredicate],
) -> (r: Vec<WherePredicate>)
    ensures
        predicate_views(r@) == synthesized(
            Direction::De,
            generics@.params,
            generics@.params.len(),
            seed_ty@,
            predicate_views(override_bounds@),
        ),
{
    synthesize(Direction::De, generics.params.as_slice(), seed_ty, override_bounds)
}

/// The lifetimes of the seed's reference and of the decoder's input.
pub open spec fn seed_and_de() -> SeedParams {
    SeedParams { value_lft: false, seed_lft: true, de_lft: true }
}

/// The lifetime of the seed's reference alone.
pub open spec fn seed_only() -> SeedParams {
    SeedParams { value_lft: false, seed_lft: true, de_lft: false }
}

/// The lifetime of the decoder's input alone.
pub open spec fn de_only() -> SeedParams {
    SeedParams { value_lft: false, seed_lft: false, de_lft: true }
}

/// What a record or arm is decoded for: the type, the generics of the
/// implementation, the extra parameters and the seed type of the seed
/// specification, and the arm's name, if it is one.
pub struct Target {
    pub ident: Seq<char>,
    pub generics: GenericsView,
    pub extra: Seq<GenericParam>,
    pub seed_ty: Seq<char>,
    pub variant: Option<Seq<char>>,
}

/// The target as the specification sees it.
pub open spec fn target_of(
    ident: Seq<char>,
    generics: GenericsView,
    de: SeedSpec,
    variant: Option<Seq<char>>,
) -> Target {
    Target { ident, generics, extra: de.params, seed_ty: seed_text(de), variant }
}

/// The parameter lists of a visitor: a helper type that holds the seed's
/// reference and decodes the value.
pub struct VisitorGenerics {
    /// Where the visitor is declared: `'seed`, the type's parameters, the
    /// extra parameters.
    pub def: Seq<char>,
    /// After `impl`: `'seed`, `'de`, the type's parameters, the extra
    /// parameters.
    pub imp: Seq<char>,
    /// After the visitor's name: the names of those of `def`.
    pub ty: Seq<char>,
    /// The implementation's `where` clause.
    pub where_clause: Seq<char>,
    /// After the name of the type that is decoded: the names of its own
    /// parameters.
    pub value: Seq<char>,
}

/// The parameter lists of the visitors generated for a target.
pub open spec fn visitor_generics(
    generics: GenericsView,
    extra: Seq<GenericParam>,
) -> VisitorGenerics {
    VisitorGenerics {
        def: generics_text(generics.params, seed_only(), extra, true),
        imp: generics_text(generics.params, seed_and_de(), extra, true),
        ty: generics_text(generics.params, seed_only(), extra, false),
        where_clause: where_text(generics.where_clause),
        value: generics_text(generics.params, SeedParams::spec_none(), Seq::empty(), false),
    }
}

/// The parameter lists of a visitor, written out.
pub struct VisitorGenericsText {
    pub def: String,
    pub imp: String,
    pub ty: String,
    pub where_clause: String,
    pub value: String,
}

impl View for VisitorGenericsText {
    type V = VisitorGenerics;

    open spec fn view(&self) -> VisitorGenerics {
        VisitorGenerics {
            def: self.def@,
            imp: self.imp@,
            ty: self.ty@,
            where_clause: self.where_clause@,
            value: self.value@,
        }
    }
}

/// Splits the generics of an implementation into the parameter lists that
/// a visitor needs.
pub fn split_visitor_generics<'a>(generics: &'a Generics, de: &'a SerializeAttributes) -> (r: (
    SeededImplGenerics<'a>,
    SeededImplGenerics<'a>,
    SeededTypeGenerics<'a>,
    &'a Vec<WherePredicate>,
    SeededTypeGenerics<'a>,
))
    ensures
        r.0.text() == visitor_generics(generics@, de@.params).def,
        r.1.text() == visitor_generics(generics@, de@.params).imp,
        r.2.text() == visitor_generics(generics@, de@.params).ty,
        where_text(predicate_views(r.3@)) == visitor_generics(generics@, de@.params).where_clause,
        r.4.text() == visitor_generics(generics@, de@.params).value,
{
    let seed = SeedParams::of(SeedParam::SeedLifetime);
    let both = seed.and(SeedParam::DeLifetime);
    let def = SeededImplGenerics::new(generics).with(seed).with_extra_params(
        de.params.as_slice(),
    );
    let imp = SeededImplGenerics::new(generics).with(both).with_extra_params(
        de.params.as_slice(),
    );
    let ty = SeededTypeGenerics::new(generics).with(seed).with_extra_params(de.params.as_slice());
    let value = SeededTypeGenerics::new(generics);
    proof {
        assert(SeedParams::spec_none().spec_union(seed) == seed_only());
        assert(SeedParams::spec_none().spec_union(both) == seed_and_de());
    }
    (def, imp, ty, &generics.where_clause, value)
}

/// The parameter lists of a visitor as text.
pub fn write_visitor_generics(generics: &Generics, de: &SerializeAttributes) -> (r:
    VisitorGenericsText)
    ensures
        r@ == visitor_generics(generics@, de@.params),
{
    let (d, i, t, w, v) = split_visitor_generics(generics, de);
    let mut def = String::new();
    d.to_tokens(&mut def);
    let mut imp = String::new();
    i.to_tokens(&mut imp);
    let mut ty = String::new();
    t.to_tokens(&mut ty);
    let mut value = String::new();
    v.to_tokens(&mut value);
    let where_clause = write_where(w.as_slice());
    proof {
        assert(def@ =~= d.text());
        assert(imp@ =~= i.text());
        assert(ty@ =~= t.text());
        assert(value@ =~= v.text());
    }
    VisitorGenericsText { def, imp, ty, where_clause, value }
}

/// The seed for a field of type `ty`, ready to be handed to the decoder.
pub open spec fn plain_seed_text(ty: Seq<char>) -> Seq<char> {
    "::serde_seeded::de::Seed::<_, "@ + ty + ">::new(self.seed)"@
}

fn write_plain_seed(ty: &str) -> (r: String)
    ensures
        r@ == plain_seed_text(ty@),
{
    let mut out = String::from_str("::serde_seeded::de::Seed::<_, ");
    out.append(ty);
    out.append(">::new(self.seed)");
    out
}

/// The seed for a field that is decoded by the routine of the module
/// `with`: a local type holds the seed's reference and decodes by calling
/// `with::deserialize_seeded`.
pub open spec fn deserialize_with_text(
    generics: Seq<char>,
    where_clause: Seq<char>,
    seed_ty: Seq<char>,
    ident: Seq<char>,
    target_generics: Seq<char>,
    ty_generics: Seq<char>,
    ty: Seq<char>,
    with: Seq<char>,
) -> Seq<char> {
    "{ struct DeserializeWith "@ + generics + " "@ + where_clause + " { seed: &'seed "@
        + seed_ty + ", p: ::core::marker::PhantomData<(&'de (), "@ + ident + " "@
        + target_generics + ")> } impl "@ + generics
        + " ::serde::de::DeserializeSeed<'de> for DeserializeWith "@ + ty_generics + " "@
        + where_clause + " { type Value = "@ + ty
        + "; fn deserialize<__D>(self, deserializer: __D) -> Result<Self::Value, __D::Error> \
            where __D: ::serde::Deserializer<'de> { "@
        + with
        + " :: deserialize_seeded(self.seed, deserializer) } } DeserializeWith { seed: self.seed, \
            p: ::core::marker::PhantomData::<(&'de (), "@
        + ident + " "@ + target_generics + ")> } }"@
}

fn write_deserialize_with(
    generics: &str,
    where_clause: &str,
    seed_ty: &str,
    ident: &str,
    target_generics: &str,
    ty_generics: &str,
    ty: &str,
    with: &str,
) -> (r: String)
    ensures
        r@ == deserialize_with_text(
            generics@,
            where_clause@,
            seed_ty@,
            ident@,
            target_generics@,
            ty_generics@,
            ty@,
            with@,
        ),
{
    let mut out = String::from_str("{ struct DeserializeWith ");
    out.append(generics);
    out.append(" ");
    out.append(where_clause);
    out.append(" { seed: &'seed ");
    out.append(seed_ty);
    out.append(", p: ::core::marker::PhantomData<(&'de (), ");
    out.append(ident);
    out.append(" ");
    out.append(target_generics);
    out.append(")> } impl ");
    out.append(generics);
    out.append(" ::serde::de::DeserializeSeed<'de> for DeserializeWith ");
    out.append(ty_generics);
    out.append(" ");
    out.append(where_clause);
    out.append(" { type Value = ");
    out.append(ty);
    out.append(
        "; fn deserialize<__D>(self, deserializer: __D) -> Result<Self::Value, __D::Error> where \
            __D: ::serde::Deserializer<'de> { ",
    );
    out.append(with);
    out.append(
        " :: deserialize_seeded(self.seed, deserializer) } } DeserializeWith { seed: self.seed, \
            p: ::core::marker::PhantomData::<(&'de (), ",
    );
    out.append(ident);
    out.append(" ");
    out.append(target_generics);
    out.append(")> } }");
    out
}

/// A visitor: a local type that holds the seed's reference, says what it
/// expects, and decodes the value in `method`.
pub open spec fn visitor_text(
    name: Seq<char>,
    def: Seq<char>,
    seed_ty: Seq<char>,
    ident: Seq<char>,
    value: Seq<char>,
    imp: Seq<char>,
    ty: Seq<char>,
    where_clause: Seq<char>,
    expecting: Seq<char>,
    method: Seq<char>,
) -> Seq<char> {
    "struct "@ + name + " "@ + def + " { seed: &'seed "@ + seed_ty
        + ", p: ::core::marker::PhantomData<"@ + ident + " "@ + value + "> } impl "@ + imp
        + " ::serde::de::Visitor<'de> for "@ + name + " "@ + ty + " "@ + where_clause
        + " { type Value = "@ + ident + " "@ + value
        + "; fn expecting(&self, formatter: &mut ::core::fmt::Formatter) -> ::core::fmt::Result { \
            formatter.write_str(\""@
        + expecting + "\") } "@ + method + " } "@
}

pub(crate) fn write_visitor(
    name: &str,
    def: &str,
    seed_ty: &str,
    ident: &str,
    value: &str,
    imp: &str,
    ty: &str,
    where_clause: &str,
    expecting: &str,
    method: &str,
) -> (r: String)
    ensures
        r@ == visitor_text(
            name@,
            def@,
            seed_ty@,
            ident@,
            value@,
            imp@,
            ty@,
            where_clause@,
            expecting@,
            method@,
        ),
{
    let mut out = String::from_str("struct ");
    out.append(name);
    out.append(" ");
    out.append(def);
    out.append(" { seed: &'seed ");
    out.append(seed_ty);
    out.append(", p: ::core::marker::PhantomData<");
    out.append(ident);
    out.append(" ");
    out.append(value);
    out.append("> } impl ");
    out.append(imp);
    out.append(" ::serde::de::Visitor<'de> for ");
    out.append(name);
    out.append(" ");
    out.append(ty);
    out.append(" ");
    out.append(where_clause);
    out.append(" { type Value = ");
    out.append(ident);
    out.append(" ");
    out.append(value);
    out.append(
        "; fn expecting(&self, formatter: &mut ::core::fmt::Formatter) -> ::core::fmt::Result { \
            formatter.write_str(\"",
    );
    out.append(expecting);
    out.append("\") } ");
    out.append(method);
    out.append(" } ");
    out
}

/// A visitor's value: the seed's reference as `seed` names it.
pub open spec fn visitor_value_text(
    name: Seq<char>,
    seed: Seq<char>,
    ident: Seq<char>,
    value: Seq<char>,
) -> Seq<char> {
    name + " { seed: "@ + seed + ", p: ::core::marker::PhantomData::<"@ + ident + " "@ + value
        + "> }"@
}

pub(crate) fn write_visitor_value(name: &str, seed: &str, ident: &str, value: &str) -> (r: String)
    ensures
        r@ == visitor_value_text(name@, seed@, ident@, value@),
{
    let mut out = String::from_str(name);
    out.append(" { seed: ");
    out.append(seed);
    out.append(", p: ::core::marker::PhantomData::<");
    out.append(ident);
    out.append(" ");
    out.append(value);
    out.append("> }");
    out
}

/// The seed with which a field is decoded, with the seed type of `t`: a
/// plain seed for the field's type, or, where the field names a module
/// with `with(...)`, a seed that decodes by the module's routine.
pub open spec fn seed_for(t: Target, attrs: FieldAttributesView, ty: Seq<char>) -> Seq<char> {
    match attrs.with {
        Some(with) => deserialize_with_text(
            generics_text(t.generics.params, seed_and_de(), t.extra, true),
            where_text(t.generics.where_clause),
            t.seed_ty,
            t.ident,
            generics_text(t.generics.params, SeedParams::spec_none(), Seq::empty(), false),
            generics_text(t.generics.params, seed_and_de(), t.extra, false),
            ty,
            with,
        ),
        None => plain_seed_text(ty),
    }
}

/// What `deserialize_seed` gives: the seed of `seed_for`, or `MissingSeed`
/// where the field names a module and the seed specification names no seed
/// type.
pub open spec fn deserialize_seed_of(
    ident: Seq<char>,
    generics: GenericsView,
    de: SeedSpec,
    attrs: FieldAttributesView,
    ty: Seq<char>,
) -> Result<Seq<char>, Error> {
    if attrs.with is Some && de.seed is None {
        Err(missing_seed())
    } else {
        Ok(seed_for(target_of(ident, generics, de, None), attrs, ty))
    }
}

/// The seed with which a field is decoded.
pub fn deserialize_seed(
    ident: &str,
    generics: &Generics,
    de: &SerializeAttributes,
    attrs: &FieldAttributes,
    ty: &str,
) -> (r: Result<String, Error>)
    ensures
        match r {
            Ok(s) => deserialize_seed_of(ident@, generics@, de@, attrs@, ty@) == Ok::<
                Seq<char>,
                Error,
            >(s@),
            Err(e) => deserialize_seed_of(ident@, generics@, de@, attrs@, ty@) == Err::<
                Seq<char>,
                Error,
            >(e),
        },
{
    match &attrs.with {
        Some(id) => {
            let seed_ty = match de.require_seed() {
                Ok(t) => t,
                Err(e) => {
                    return Err(Error::Attribute(e));
                },
            };
            let both = SeedParams::of(SeedParam::SeedLifetime).and(SeedParam::DeLifetime);
            let mut def_generics = String::new();
            SeededImplGenerics::new(generics).with(both).with_extra_params(
                de.params.as_slice(),
            ).to_tokens(&mut def_generics);
            let mut ty_generics = String::new();
            SeededTypeGenerics::new(generics).with(both).with_extra_params(
                de.params.as_slice(),
            ).to_tokens(&mut ty_generics);
            let where_clause = write_where(generics.where_clause.as_slice());
            let mut target_generics = String::new();
            SeededTypeGenerics::new(generics).to_tokens(&mut target_generics);
            proof {
                assert(SeedParams::spec_none().spec_union(both) == seed_and_de());
                assert(def_generics@ =~= generics_text(
                    generics@.params,
                    seed_and_de(),
                    de@.params,
                    true,
                ));
                assert(ty_generics@ =~= generics_text(
                    generics@.params,
                    seed_and_de(),
                    de@.params,
                    false,
                ));
                assert(target_generics@ =~= generics_text(
                    generics@.params,
                    SeedParams::spec_none(),
                    Seq::empty(),
                    false,
                ));
            }
            Ok(
                write_deserialize_with(
                    def_generics.as_str(),
                    where_clause.as_str(),
                    seed_ty.as_str(),
                    ident,
                    target_generics.as_str(),
                    ty_generics.as_str(),
                    ty,
                    id.as_str(),
                ),
            )
        },
        None => Ok(write_plain_seed(ty)),
    }
}

/// The decoder of a field's or an arm's identifier: an enumeration of the
/// known identifiers that can be decoded from a position, from a name as
/// text, or from a name as bytes. A position that is not known is refused
/// with the error `otherwise`; a name in bytes that is not text is refused
/// as an invalid value; any other name is refused as unknown, with the
/// list of the known names.
pub open spec fn identifier_text(
    name: Seq<char>,
    variants: Seq<char>,
    expecting: Seq<char>,
    positions: Seq<char>,
    otherwise: Seq<char>,
    names: Seq<char>,
    unknown: Seq<char>,
    known: Seq<char>,
    bytes: Seq<char>,
) -> Seq<char> {
    "enum "@ + name + " { "@ + variants + "} struct "@ + name
        + "Visitor; impl<'de> ::serde::de::Visitor<'de> for "@ + name
        + "Visitor { type Value = "@ + name
        + "; fn expecting(&self, formatter: &mut ::core::fmt::Formatter) -> ::core::fmt::Result { \
            formatter.write_str(\""@
        + expecting
        + "\") } fn visit_u64<__E>(self, v: u64) -> Result<Self::Value, __E> where __E: \
            ::serde::de::Error { match v { "@
        + positions
        + "_ => Err("@ + otherwise
        + ") } } fn visit_str<__E>(self, v: &str) -> Result<Self::Value, __E> where __E: \
            ::serde::de::Error { match v { "@
        + names + "_ => Err(::serde::de::Error::"@ + unknown + "(v, &"@ + known
        + ")) } } fn visit_bytes<__E>(self, v: &[u8]) -> Result<Self::Value, __E> where __E: \
            ::serde::de::Error { match v { "@
        + bytes + "_ => match ::core::str::from_utf8(v) { Ok(v) => Err(::serde::de::Error::"@
        + unknown + "(v, &"@ + known
        + ")), Err(_) => Err(::serde::de::Error::invalid_value(::serde::de::Unexpected::Bytes(v), \
            &self)) } } } } impl<'de> ::serde::de::Deserialize<'de> for "@
        + name
        + " { fn deserialize<__D>(deserializer: __D) -> Result<Self, __D::Error> where __D: \
            ::serde::Deserializer<'de> { deserializer.deserialize_identifier("@
        + name + "Visitor) } } "@
}

pub(crate) fn write_identifier(
    name: &str,
    variants: &str,
    expecting: &str,
    positions: &str,
    otherwise: &str,
    names: &str,
    unknown: &str,
    known: &str,
    bytes: &str,
) -> (r: String)
    ensures
        r@ == identifier_text(
            name@,
            variants@,
            expecting@,
            positions@,
            otherwise@,
            names@,
            unknown@,
            known@,
            bytes@,
        ),
{
    let mut out = String::from_str("enum ");
    out.append(name);
    out.append(" { ");
    out.append(variants);
    out.append("} struct ");
    out.append(name);
    out.append("Visitor; impl<'de> ::serde::de::Visitor<'de> for ");
    out.append(name);
    out.append("Visitor { type Value = ");
    out.append(name);
    out.append(
        "; fn expecting(&self, formatter: &mut ::core::fmt::Formatter) -> ::core::fmt::Result { \
            formatter.write_str(\"",
    );
    out.append(expecting);
    out.append(
        "\") } fn visit_u64<__E>(self, v: u64) -> Result<Self::Value, __E> where __E: \
            ::serde::de::Error { match v { ",
    );
    out.append(positions);
    out.append("_ => Err(");
    out.append(otherwise);
    out.append(
        ") } } fn visit_str<__E>(self, v: &str) -> Result<Self::Value, __E> where __E: \
            ::serde::de::Error { match v { ",
    );
    out.append(names);
    out.append("_ => Err(::serde::de::Error::");
    out.append(unknown);
    out.append("(v, &");
    out.append(known);
    out.append(
        ")) } } fn visit_bytes<__E>(self, v: &[u8]) -> Result<Self::Value, __E> where __E: \
            ::serde::de::Error { match v { ",
    );
    out.append(bytes);
    out.append("_ => match ::core::str::from_utf8(v) { Ok(v) => Err(::serde::de::Error::");
    out.append(unknown);
    out.append("(v, &");
    out.append(known);
    out.append(
        ")), Err(_) => Err(::serde::de::Error::invalid_value(::serde::de::Unexpected::Bytes(v), \
            &self)) } } } } impl<'de> ::serde::de::Deserialize<'de> for ",
    );
    out.append(name);
    out.append(
        " { fn deserialize<__D>(deserializer: __D) -> Result<Self, __D::Error> where __D: \
            ::serde::Deserializer<'de> { deserializer.deserialize_identifier(",
    );
    out.append(name);
    out.append("Visitor) } } ");
    out
}

/// The list of the known names, as a constant.
pub open spec fn known_text(name: Seq<char>, count: Seq<char>, names: Seq<char>) -> Seq<char> {
    "const "@ + name + ": [&str; "@ + count + "usize] = ["@ + names + "]; "@
}

pub(crate) fn write_known(name: &str, count: &str, names: &str) -> (r: String)
    ensures
        r@ == known_text(name@, count@, names@),
{
    let mut out = String::from_str("const ");
    out.append(name);
    out.append(": [&str; ");
    out.append(count);
    out.append("usize] = [");
    out.append(names);
    out.append("]; ");
    out
}

/// One implementation of `DeserializeSeeded`.
pub open spec fn implementation_text(
    impl_generics: Seq<char>,
    seed_ty: Seq<char>,
    ident: Seq<char>,
    ty_generics: Seq<char>,
    where_clause: Seq<char>,
    body: Seq<char>,
) -> Seq<char> {
    "impl "@ + impl_generics + " ::serde_seeded::DeserializeSeeded<'de, "@ + seed_ty
        + "> for "@ + ident + " "@ + ty_generics + " "@ + where_clause
        + " { fn deserialize_seeded<__D>(seed: &"@ + seed_ty
        + ", deserializer: __D) -> Result<Self, __D::Error> where __D: ::serde::Deserializer<'de> \
            { "@
        + body + " } } "@
}

fn write_implementation(
    impl_generics: &str,
    seed_ty: &str,
    ident: &str,
    ty_generics: &str,
    where_clause: &str,
    body: &str,
) -> (r: String)
    ensures
        r@ == implementation_text(
            impl_generics@,
            seed_ty@,
            ident@,
            ty_generics@,
            where_clause@,
            body@,
        ),
{
    let mut out = String::from_str("impl ");
    out.append(impl_generics);
    out.append(" ::serde_seeded::DeserializeSeeded<'de, ");
    out.append(seed_ty);
    out.append("> for ");
    out.append(ident);
    out.append(" ");
    out.append(ty_generics);
    out.append(" ");
    out.append(where_clause);
    out.append(" { fn deserialize_seeded<__D>(seed: &");
    out.append(seed_ty);
    out.append(
        ", deserializer: __D) -> Result<Self, __D::Error> where __D: ::serde::Deserializer<'de> { ",
    );
    out.append(body);
    out.append(" } } ");
    out
}

/// How a field of a transparent record gets its value: its default where
/// it is skipped, else by being decoded in the record's place.
pub open spec fn forwarded(skip: bool) -> Seq<char> {
    if skip {
        "Default::default(), "@
    } else {
        "::serde_seeded::DeserializeSeeded::deserialize_seeded(seed, deserializer)?, "@
    }
}

/// The values of the first `n` positional fields of a transparent record.
pub open spec fn forwarded_positional(fields: Seq<PositionalField>, n: nat) -> Seq<char>
    decreases n,
{
    if n == 0 || n > fields.len() {
        Seq::empty()
    } else {
        forwarded_positional(fields, (n - 1) as nat) + forwarded(fields[n - 1].attrs.skip)
    }
}

/// The values of the first `n` named fields of a transparent record, each
/// under its field's name.
pub open spec fn forwarded_named(fields: Seq<NamedFieldShape>, n: nat) -> Seq<char>
    decreases n,
{
    if n == 0 || n > fields.len() {
        Seq::empty()
    } else {
        forwarded_named(fields, (n - 1) as nat) + fields[n - 1].id + ": "@ + forwarded(
            fields[n - 1].attrs.skip,
        )
    }
}

/// The body of a transparent record: the record is built from its fields,
/// each field that is not skipped decoded in the record's place.
pub open spec fn transparent_text(shape: Shape) -> Seq<char> {
    match shape {
        Shape::Unit => Seq::empty(),
        Shape::Positional(fields) => "Ok(Self("@ + forwarded_positional(fields, fields.len())
            + "))"@,
        Shape::Named(fields) => "Ok(Self { "@ + forwarded_named(fields, fields.len()) + "})"@,
    }
}

/// The body of the implementation for one seed specification, with
/// `generics` the generics of that implementation.
///
/// A transparent struct is decoded as its field is. A struct is decoded
/// by its shape, a union by its arms. Refused are a `union`, a transparent
/// `enum`, and a transparent struct without fields.
pub open spec fn body_of(
    input: DeriveInput,
    replies: Seq<Vec<Vec<Vec<Reply>>>>,
    generics: GenericsView,
    attrs: TypeAttributesView,
    de: SeedSpec,
) -> Result<Seq<char>, Error> {
    match input.data {
        Data::Struct(s) => match shape_of(s.fields, fields_replies(replies, 0)) {
            Err(e) => Err(Error::Attribute(e)),
            Ok(shape) => if attrs.transparent {
                if shape is Unit {
                    Err(Error::TransparentUnit(input.span))
                } else {
                    Ok(transparent_text(shape))
                }
            } else {
                fields::derive_of(input.ident@, generics, attrs, de, None, shape)
            },
        },
        Data::Enum(e) => if attrs.transparent {
            Err(Error::TransparentEnum(e.enum_token))
        } else {
            variants::derive_of(input.ident@, generics, attrs, de, e.variants@, replies)
        },
        Data::Union(u) => Err(Error::Union(u.union_token)),
    }
}

/// The implementation for one seed specification. A specification without
/// a seed type is refused before anything else is looked at.
#[verifier::opaque]
pub open spec fn implementation_of(
    input: DeriveInput,
    replies: Replies,
    attrs: TypeAttributesView,
    de: SeedSpec,
) -> Result<Seq<char>, Error> {
    match de.seed {
        None => Err(missing_seed()),
        Some(seed_ty) => {
            let generics = extended(Direction::De, input.generics@, de);
            match body_of(input, replies.fields@, generics, attrs, de) {
                Err(e) => Err(e),
                Ok(body) => Ok(
                    implementation_text(
                        generics_text(generics.params, de_only(), de.params, true),
                        seed_ty,
                        input.ident@,
                        generics_text(
                            generics.params,
                            SeedParams::spec_none(),
                            Seq::empty(),
                            false,
                        ),
                        where_text(generics.where_clause),
                        body,
                    ),
                ),
            }
        },
    }
}

/// The implementations for the first `n` seed specifications, one after
/// the other, or the first error among them.
pub open spec fn implementations_of(
    input: DeriveInput,
    replies: Replies,
    attrs: TypeAttributesView,
    n: nat,
) -> Result<Seq<char>, Error>
    decreases n,
{
    if n == 0 || n > attrs.de.len() {
        Ok(Seq::empty())
    } else {
        match implementations_of(input, replies, attrs, (n - 1) as nat) {
            Err(e) => Err(e),
            Ok(done) => match implementation_of(input, replies, attrs, attrs.de[n - 1]) {
                Err(e) => Err(e),
                Ok(one) => Ok(done + one),
            },
        }
    }
}

/// What `derive` gives for a declaration: the attributes of the type are
/// read, and one implementation is written for each seed specification
/// for decoding, in order. A type that declares none gets no code.
pub open spec fn derived(input: DeriveInput, replies: Replies) -> Result<Seq<char>, Error> {
    match type_attributes_of(input.attrs@, replies.attrs@, input.attrs@.len()) {
        Err(e) => Err(Error::Attribute(e)),
        Ok(attrs) => implementations_of(input, replies, attrs, attrs.de.len()),
    }
}

proof fn lemma_implementations_stop(
    input: DeriveInput,
    replies: Replies,
    attrs: TypeAttributesView,
    i: nat,
    n: nat,
)
    requires
        i <= n <= attrs.de.len(),
        implementations_of(input, replies, attrs, i) is Err,
    ensures
        implementations_of(
            input,
            replies,
            attrs,
            n,
        ) == implementations_of(input, replies, attrs, i),
    decreases n,
{
    if n > i {
        lemma_implementations_stop(input, replies, attrs, i, (n - 1) as nat);
    }
}

fn write_forwarded(skip: bool) -> (r: &'static str)
    ensures
        r@ == forwarded(skip),
{
    if skip {
        "Default::default(), "
    } else {
        "::serde_seeded::DeserializeSeeded::deserialize_seeded(seed, deserializer)?, "
    }
}

fn write_transparent(fields: &SerializedFields) -> (r: String)
    ensures
        r@ == transparent_text(fields@),
{
    match fields {
        SerializedFields::Unit => String::new(),
        SerializedFields::Unnamed(v) => {
            let mut inits = String::new();
            let mut i: usize = 0;
            while i < v.len()
                invariant
                    i <= v.len(),
                    inits@ == forwarded_positional(positional_views(v@), i as nat),
                decreases v.len() - i,
            {
                assert(positional_views(v@)[i as int] == v@[i as int]@);
                inits.append(write_forwarded(v[i].attrs.skip));
                i += 1;
            }
            let mut out = String::from_str("Ok(Self(");
            out.append(inits.as_str());
            out.append("))");
            out
        },
        SerializedFields::Named(v) => {
            let mut inits = String::new();
            let mut i: usize = 0;
            while i < v.len()
                invariant
                    i <= v.len(),
                    inits@ == forwarded_named(named_views(v@), i as nat),
                decreases v.len() - i,
            {
                assert(named_views(v@)[i as int] == v@[i as int]@);
                inits.append(v[i].id.as_str());
                inits.append(": ");
                inits.append(write_forwarded(v[i].attrs.skip));
                i += 1;
            }
            let mut out = String::from_str("Ok(Self { ");
            out.append(inits.as_str());
            out.append("})");
            out
        },
    }
}

fn write_body(
    input: &DeriveInput,
    replies: &Replies,
    generics: &Generics,
    attrs: &TypeAttributes,
    de: &SerializeAttributes,
) -> (r: Result<String, Error>)
    ensures
        match r {
            Ok(s) => body_of(
                *input,
                replies.fields@,
                generics@,
                attrs@,
                de@,
            ) == Ok::<Seq<char>, Error>(s@),
            Err(e) => body_of(
                *input,
                replies.fields@,
                generics@,
                attrs@,
                de@,
            ) == Err::<Seq<char>, Error>(e),
        },
{
    match &input.data {
        Data::Struct(s) => {
            let shape = match shape_with(&s.fields, &replies.fields, 0) {
                Ok(shape) => shape,
                Err(e) => {
                    return Err(Error::Attribute(e));
                },
            };
            if attrs.transparent {
                match shape {
                    SerializedFields::Unit => Err(Error::TransparentUnit(input.span)),
                    _ => Ok(write_transparent(&shape)),
                }
            } else {
                fields::derive(input.ident.as_str(), generics, attrs, de, None, &shape)
            }
        },
        Data::Enum(e) => {
            if attrs.transparent {
                return Err(Error::TransparentEnum(e.enum_token));
            }
            variants::derive_with(input.ident.as_str(), generics, attrs, de, e, &replies.fields)
        },
        Data::Union(u) => Err(Error::Union(u.union_token)),
    }
}

fn write_one(
    input: &DeriveInput,
    replies: &Replies,
    attrs: &TypeAttributes,
    de: &SerializeAttributes,
) -> (r: Result<String, Error>)
    ensures
        implementation_of(*input, *replies, attrs@, de@) == viewed(r),
{
    reveal(implementation_of);
    let seed_ty = match de.require_seed() {
        Ok(t) => t,
        Err(e) => {
            return Err(Error::Attribute(e));
        },
    };
    let generics = extend_generics(Direction::De, &input.generics, de);
    let body = match write_body(input, replies, &generics, attrs, de) {
        Ok(b) => b,
        Err(e) => {
            return Err(e);
        },
    };
    let mut impl_text = String::new();
    SeededImplGenerics::new(&generics).with(
        SeedParams::of(SeedParam::DeLifetime),
    ).with_extra_params(de.params.as_slice()).to_tokens(&mut impl_text);
    let mut ty_text = String::new();
    SeededTypeGenerics::new(&generics).to_tokens(&mut ty_text);
    let where_clause = write_where(generics.where_clause.as_slice());
    proof {
        assert(SeedParams::spec_none().spec_union(SeedParams::spec_of(SeedParam::DeLifetime))
            == de_only());
        assert(impl_text@ =~= generics_text(generics@.params, de_only(), de@.params, true));
        assert(ty_text@ =~= generics_text(
            generics@.params,
            SeedParams::spec_none(),
            Seq::empty(),
            false,
        ));
    }
    Ok(
        write_implementation(
            impl_text.as_str(),
            seed_ty.as_str(),
            input.ident.as_str(),
            ty_text.as_str(),
            where_clause.as_str(),
            body.as_str(),
        ),
    )
}

/// Writes the decoding implementations for a declaration: one
/// `impl DeserializeSeeded` for each `de(...)` or `serde(...)` entry of
/// its attributes, in order. The parser is asked about the arguments of
/// the attributes, and the implementations are written with the answers
/// that came back.
pub fn derive(input: DeriveInput) -> (r: Result<String, Error>)
    ensures
        exists|replies: Replies|
            asked_input(input, replies) && #[trigger] derived(input, replies) == viewed(r),
{
    let replies = ask_input(&input);
    let r = derive_with(&input, &replies);
    assert(derived(input, replies) == viewed(r));
    r
}

/// Writes the decoding implementations for a declaration, with the
/// answers that the parser gave about the arguments of its attributes.
pub fn derive_with(input: &DeriveInput, replies: &Replies) -> (r: Result<String, Error>)
    ensures
        derived(*input, *replies) == viewed(r),
{
    let attrs = match TypeAttributes::parse_attributes_with(&input.attrs, &replies.attrs) {
        Ok(a) => a,
        Err(e) => {
            return Err(Error::Attribute(e));
        },
    };
    let mut tokens = String::new();
    let mut i: usize = 0;
    while i < attrs.de.len()
        invariant
            i <= attrs.de.len(),
            attrs@.de.len() == attrs.de@.len(),
            type_attributes_of(input.attrs@, replies.attrs@, input.attrs@.len()) == Ok::<
                TypeAttributesView,
                attributes::Error,
            >(attrs@),
            implementations_of(*input, *replies, attrs@, i as nat) == Ok::<Seq<char>, Error>(
                tokens@,
            ),
        decreases attrs.de.len() - i,
    {
        let one = match write_one(input, replies, &attrs, &attrs.de[i]) {
            Ok(s) => s,
            Err(e) => {
                proof {
                    assert(attrs@.de[i as int] == attrs.de@[i as int]@);
                    assert(implementations_of(*input, *replies, attrs@, (i + 1) as nat) is Err);
                    lemma_implementations_stop(
                        *input,
                        *replies,
                        attrs@,
                        (i + 1) as nat,
                        attrs@.de.len(),
                    );
                }
                return Err(e);
            },
        };
        proof {
            assert(attrs@.de[i as int] == attrs.de@[i as int]@);
        }
        tokens.append(one.as_str());
        i += 1;
    }
    Ok(tokens)
}

} // verus!
