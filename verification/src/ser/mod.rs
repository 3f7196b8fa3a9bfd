//! The encoding side: the implementation of `SerializeSeeded` that is
//! generated for a type, one for each seed specification it declares, and
//! `Seeded`, the pair of a seed and a value that generated code hands to an
//! encoder.

use vstd::prelude::*;
use vstd::string::*;
use crate::attributes;
use crate::attributes::{
    FieldAttributes, FieldAttributesView, SeedSpec, SerializeAttributes, TypeAttributes,
    TypeAttributesView, type_attributes_of,
};
use crate::bounds::{Direction, synthesize, synthesized};
use crate::attributes::{Reply, viewed};
use crate::fields::{
    NamedFieldShape, PositionalField, Replies, SerializedFields, Shape, ask_input, asked_input,
    fields_replies,
    find_unskipped, first_unskipped,
    named_skips, named_views, positional_skips, positional_views, shape_of, shape_with,
    skips_of_named,
    skips_of_unnamed,
};
use crate::item::{
    Data, DeriveInput, Fields, GenericParam, Generics, GenericsView, Variant, WherePredicate,
    clone_predicates, predicate_views,
};
use crate::text::{decimal, decimal_text};
use crate::token::Span;
use crate::utils::{
    SeedParam, SeedParams, SeededImplGenerics, SeededTypeGenerics, generics_text, where_text,
    write_where,
};

pub mod fields;

verus! {

/// A value together with the seed it is to be encoded with.
pub struct Seeded<'a, Q, T> {
    pub seed: &'a Q,
    pub value: T,
}

impl<'a, Q, T> Seeded<'a, Q, T> {
    /// Pairs `value` with `seed`.
    pub fn new(seed: &'a Q, value: T) -> (r: Self)
        ensures
            r.seed == seed,
            r.value == value,
    {
        Self { seed, value }
    }
}

impl<Q, T: Clone> Clone for Seeded<'_, Q, T> {
    /// The same seed with a clone of the value.
    fn clone(&self) -> (r: Self)
        ensures
            r.seed == self.seed,
            cloned::<T>(self.value, r.value),
    {
        Self { seed: self.seed, value: self.value.clone() }
    }
}

impl<Q, T: Copy> Copy for Seeded<'_, Q, T> {

}

/// Why no encoding implementation could be generated.
#[derive(Debug)]
pub enum Error {
    /// The type is a `union`.
    Union(Span),
    /// An `enum` is marked `transparent`.
    TransparentEnum(Span),
    /// A struct without fields is marked `transparent`.
    TransparentUnit(Span),
    /// The attributes could not be read.
    Attribute(attributes::Error),
}

impl Error {
    /// Where the error is to be reported.
    pub open spec fn spec_span(&self) -> Span {
        match *self {
            Error::Union(s) => s,
            Error::TransparentEnum(s) => s,
            Error::TransparentUnit(s) => s,
            Error::Attribute(e) => e.span(),
        }
    }

    /// Where the error is to be reported.
    #[verifier::when_used_as_spec(spec_span)]
    pub fn span(&self) -> (r: Span)
        ensures
            r == self.spec_span(),
    {
        match self {
            Error::Union(s) => *s,
            Error::TransparentEnum(s) => *s,
            Error::TransparentUnit(s) => *s,
            Error::Attribute(e) => e.span(),
        }
    }

    /// The message of the error.
    pub open spec fn message(&self) -> Seq<char> {
        match *self {
            Error::Union(_) => "unsupported `union` type"@,
            Error::TransparentEnum(_) => "`enum` cannot be transparent"@,
            Error::TransparentUnit(_) => "cannot serialize unit struct transparently"@,
            Error::Attribute(e) => e.message(),
        }
    }

    /// The message of the error.
    pub fn to_string(&self) -> (r: String)
        ensures
            r@ == self.message(),
    {
        match self {
            Error::Union(_) => String::from_str("unsupported `union` type"),
            Error::TransparentEnum(_) => String::from_str("`enum` cannot be transparent"),
            Error::TransparentUnit(_) => String::from_str(
                "cannot serialize unit struct transparently",
            ),
            Error::Attribute(e) => e.to_string(),
        }
    }
}

/// The arm of a union that is being encoded: its position among the arms,
/// from zero, and its name.
#[derive(Clone, Copy, Debug)]
pub struct SerializedVariant<'a> {
    pub index: u32,
    pub ident: &'a String,
}

/// An arm of a union as plain values.
pub struct Arm {
    pub index: u32,
    pub ident: Seq<char>,
}

impl<'a> View for SerializedVariant<'a> {
    type V = Arm;

    open spec fn view(&self) -> Arm {
        Arm { index: self.index, ident: self.ident@ }
    }
}

/// The view of an optional arm.
pub open spec fn arm_view(variant: Option<SerializedVariant>) -> Option<Arm> {
    match variant {
        Some(v) => Some(v@),
        None => None,
    }
}

/// The bounds generated for an encoding implementation: every type
/// parameter that `override_bounds` does not bound must itself be
/// `SerializeSeeded` with the seed's type.
pub fn additional_predicates(
    generics: &Generics,
    seed_ty: &str,
    override_bounds: &[WherePredicate],
) -> (r: Vec<WherePredicate>)
    ensures
        predicate_views(r@) == synthesized(
            Direction::Ser,
            generics@.params,
            generics@.params.len(),
            seed_ty@,
            predicate_views(override_bounds@),
        ),
{
    synthesize(Direction::Ser, generics.params.as_slice(), seed_ty, override_bounds)
}

/// The three parts of an implementation's header: the parameter list
/// after `impl`, the one after the type's name, and the `where` clause.
pub fn split_ser_generics<'a>(generics: &'a Generics, extra_params: &'a [GenericParam]) -> (r: (
    SeededImplGenerics<'a>,
    SeededTypeGenerics<'a>,
    &'a Vec<WherePredicate>,
))
    ensures
        r.0.text() == generics_text(generics@.params, SeedParams::spec_none(), extra_params@, true),
        r.1.text() == generics_text(
            generics@.params,
            SeedParams::spec_none(),
            Seq::empty(),
            false,
        ),
        r.2 == &generics.where_clause,
{
    let impl_generics = SeededImplGenerics::new(generics).with_extra_params(extra_params);
    let ty_generics = SeededTypeGenerics::new(generics);
    proof {
        assert(impl_generics.seed_params() == SeedParams::spec_none());
        assert(ty_generics.seed_params() == SeedParams::spec_none());
        assert(ty_generics.extra_params() =~= Seq::empty());
    }
    (impl_generics, ty_generics, &generics.where_clause)
}

/// A value paired with the seed, ready to be handed to the encoder.
pub open spec fn plain_value_text(value: Seq<char>) -> Seq<char> {
    "::serde_seeded::ser::Seeded::new(seed, "@ + value + ")"@
}

fn write_plain_value(value: &str) -> (r: String)
    ensures
        r@ == plain_value_text(value@),
{
    let mut out = String::from_str("::serde_seeded::ser::Seeded::new(seed, ");
    out.append(value);
    out.append(")");
    out
}

/// A value that is encoded by the routine of the module `with`: a local
/// type borrows the value and encodes it by calling
/// `with::serialize_seeded`, and the value is paired with the seed as that
/// type.
pub open spec fn serialize_with_text(
    def_generics: Seq<char>,
    where_clause: Seq<char>,
    ty: Seq<char>,
    ident: Seq<char>,
    target_generics: Seq<char>,
    impl_generics: Seq<char>,
    seed_ty: Seq<char>,
    ty_generics: Seq<char>,
    with: Seq<char>,
    value: Seq<char>,
) -> Seq<char> {
    "{ struct SerializeWith "@ + def_generics + " "@ + where_clause + " { value: &'value "@
        + ty + ", p: ::core::marker::PhantomData<"@ + ident + " "@ + target_generics
        + "> } impl "@ + impl_generics + " ::serde_seeded::SerializeSeeded<"@ + seed_ty
        + "> for SerializeWith "@ + ty_generics + " "@ + where_clause
        + " { fn serialize_seeded<__S>(&self, seed: &"@ + seed_ty
        + ", serializer: __S) -> Result<__S::Ok, __S::Error> where __S: ::serde::Serializer \
            { "@ + with
        + " :: serialize_seeded(self.value, seed, serializer) } } \
            ::serde_seeded::ser::Seeded::new(seed, SerializeWith { value: "@
        + value + ", p: ::core::marker::PhantomData::<"@ + ident + " "@ + target_generics
        + "> }) }"@
}

fn write_serialize_with(
    def_generics: &str,
    where_clause: &str,
    ty: &str,
    ident: &str,
    target_generics: &str,
    impl_generics: &str,
    seed_ty: &str,
    ty_generics: &str,
    with: &str,
    value: &str,
) -> (r: String)
    ensures
        r@ == serialize_with_text(
            def_generics@,
            where_clause@,
            ty@,
            ident@,
            target_generics@,
            impl_generics@,
            seed_ty@,
            ty_generics@,
            with@,
            value@,
        ),
{
    let mut out = String::from_str("{ struct SerializeWith ");
    out.append(def_generics);
    out.append(" ");
    out.append(where_clause);
    out.append(" { value: &'value ");
    out.append(ty);
    out.append(", p: ::core::marker::PhantomData<");
    out.append(ident);
    out.append(" ");
    out.append(target_generics);
    out.append("> } impl ");
    out.append(impl_generics);
    out.append(" ::serde_seeded::SerializeSeeded<");
    out.append(seed_ty);
    out.append("> for SerializeWith ");
    out.append(ty_generics);
    out.append(" ");
    out.append(where_clause);
    out.append(" { fn serialize_seeded<__S>(&self, seed: &");
    out.append(seed_ty);
    out.append(", serializer: __S) -> Result<__S::Ok, __S::Error> where __S: ::serde::Serializer \
        { ");
    out.append(with);
    out.append(" :: serialize_seeded(self.value, seed, serializer) } } \
        ::serde_seeded::ser::Seeded::new(seed, SerializeWith { value: ");
    out.append(value);
    out.append(", p: ::core::marker::PhantomData::<");
    out.append(ident);
    out.append(" ");
    out.append(target_generics);
    out.append("> }) }");
    out
}

/// The lifetime of a borrowed value alone.
pub open spec fn value_lifetime() -> SeedParams {
    SeedParams::spec_of(SeedParam::ValueLifetime)
}

/// The expression that pairs a field's value with the seed, with the seed
/// type `seed_ty`: the value itself, or, where the field names a module
/// with `with(...)`, the value wrapped so that the module's routine
/// encodes it.
pub open spec fn value_text(
    ident: Seq<char>,
    generics: GenericsView,
    extra: Seq<GenericParam>,
    seed_ty: Seq<char>,
    attrs: FieldAttributesView,
    ty: Seq<char>,
    value: Seq<char>,
) -> Seq<char> {
    match attrs.with {
        Some(with) => serialize_with_text(
            generics_text(generics.params, value_lifetime(), Seq::empty(), true),
            where_text(generics.where_clause),
            ty,
            ident,
            generics_text(generics.params, SeedParams::spec_none(), Seq::empty(), false),
            generics_text(generics.params, value_lifetime(), extra, true),
            seed_ty,
            generics_text(generics.params, value_lifetime(), Seq::empty(), false),
            with,
            value,
        ),
        None => plain_value_text(value),
    }
}

/// The seed's type as text; nothing where none is named.
pub open spec fn seed_text(ser: SeedSpec) -> Seq<char> {
    match ser.seed {
        Some(t) => t,
        None => Seq::empty(),
    }
}

/// What `value_serializer` gives: the expression of `value_text`, or
/// `MissingSeed` where the field names a module and the seed
/// specification names no seed type.
pub open spec fn value_serializer_of(
    ident: Seq<char>,
    generics: GenericsView,
    ser: SeedSpec,
    attrs: FieldAttributesView,
    ty: Seq<char>,
    value: Seq<char>,
) -> Result<Seq<char>, Error> {
    if attrs.with is Some && ser.seed is None {
        Err(Error::Attribute(attributes::Error::MissingSeed))
    } else {
        Ok(value_text(ident, generics, ser.params, seed_text(ser), attrs, ty, value))
    }
}

/// The expression that pairs a field's value with the seed.
pub fn value_serializer(
    ident: &str,
    generics: &Generics,
    ser: &SerializeAttributes,
    attrs: &FieldAttributes,
    ty: &str,
    value: String,
) -> (r: Result<String, Error>)
    ensures
        match r {
            Ok(s) => value_serializer_of(ident@, generics@, ser@, attrs@, ty@, value@) == Ok::<
                Seq<char>,
                Error,
            >(s@),
            Err(e) => value_serializer_of(ident@, generics@, ser@, attrs@, ty@, value@) == Err::<
                Seq<char>,
                Error,
            >(e),
        },
{
    match &attrs.with {
        Some(id) => {
            let seed_ty = match ser.require_seed() {
                Ok(t) => t,
                Err(e) => {
                    return Err(Error::Attribute(e));
                },
            };
            let value_lft = SeedParams::of(SeedParam::ValueLifetime);
            let mut def_generics = String::new();
            SeededImplGenerics::new(generics).with(value_lft).to_tokens(&mut def_generics);
            let mut impl_generics = String::new();
            SeededImplGenerics::new(generics).with(value_lft).with_extra_params(
                ser.params.as_slice(),
            ).to_tokens(&mut impl_generics);
            let mut ty_generics = String::new();
            SeededTypeGenerics::new(generics).with(value_lft).to_tokens(&mut ty_generics);
            let where_clause = write_where(generics.where_clause.as_slice());
            let mut target_generics = String::new();
            SeededTypeGenerics::new(generics).to_tokens(&mut target_generics);
            proof {
                assert(SeedParams::spec_none().spec_union(value_lifetime()) == value_lifetime());
                assert(def_generics@ =~= generics_text(
                    generics@.params,
                    value_lifetime(),
                    Seq::empty(),
                    true,
                ));
                assert(impl_generics@ =~= generics_text(
                    generics@.params,
                    value_lifetime(),
                    ser@.params,
                    true,
                ));
                assert(ty_generics@ =~= generics_text(
                    generics@.params,
                    value_lifetime(),
                    Seq::empty(),
                    false,
                ));
                assert(target_generics@ =~= generics_text(
                    generics@.params,
                    SeedParams::spec_none(),
                    Seq::empty(),
                    false,
                ));
            }
            Ok(
                write_serialize_with(
                    def_generics.as_str(),
                    where_clause.as_str(),
                    ty,
                    ident,
                    target_generics.as_str(),
                    impl_generics.as_str(),
                    seed_ty.as_str(),
                    ty_generics.as_str(),
                    id.as_str(),
                    value.as_str(),
                ),
            )
        },
        None => Ok(write_plain_value(value.as_str())),
    }
}

/// One implementation of `SerializeSeeded`.
pub open spec fn implementation_text(
    impl_generics: Seq<char>,
    seed_ty: Seq<char>,
    ident: Seq<char>,
    ty_generics: Seq<char>,
    where_clause: Seq<char>,
    body: Seq<char>,
) -> Seq<char> {
    "impl "@ + impl_generics + " ::serde_seeded::SerializeSeeded<"@ + seed_ty + "> for "@
        + ident + " "@ + ty_generics + " "@ + where_clause
        + " { fn serialize_seeded<__S>(&self, seed: &"@ + seed_ty
        + ", serializer: __S) -> Result<__S::Ok, __S::Error> where __S: ::serde::Serializer \
            { "@ + body
        + " } } "@
}

fn write_implementation(
    impl_generics: &str,
    seed_ty: &str,
    ident: &str,
    ty_generics: &str,
    where_clause: &str,
    body: &str,
) -> (r: String)
    ensures
        r@ == implementation_text(
            impl_generics@,
            seed_ty@,
            ident@,
            ty_generics@,
            where_clause@,
            body@,
        ),
{
    let mut out = String::from_str("impl ");
    out.append(impl_generics);
    out.append(" ::serde_seeded::SerializeSeeded<");
    out.append(seed_ty);
    out.append("> for ");
    out.append(ident);
    out.append(" ");
    out.append(ty_generics);
    out.append(" ");
    out.append(where_clause);
    out.append(" { fn serialize_seeded<__S>(&self, seed: &");
    out.append(seed_ty);
    out.append(", serializer: __S) -> Result<__S::Ok, __S::Error> where __S: ::serde::Serializer \
        { ");
    out.append(body);
    out.append(" } } ");
    out
}

/// A transparent type hands its one field to the field's own encoding.
pub open spec fn forward_text(field: Seq<char>) -> Seq<char> {
    "::serde_seeded::SerializeSeeded::serialize_seeded(&self."@ + field
        + ", seed, serializer)"@
}

fn write_forward(field: &str) -> (r: String)
    ensures
        r@ == forward_text(field@),
{
    let mut out = String::from_str("::serde_seeded::SerializeSeeded::serialize_seeded(&self.");
    out.append(field);
    out.append(", seed, serializer)");
    out
}

/// One arm of the `match` over a union: the pattern that binds the arm's
/// fields, and the body that encodes them.
pub open spec fn case_text(
    variant: Seq<char>,
    pattern: Seq<char>,
    body: Seq<char>,
) -> Seq<char> {
    "Self::"@ + variant + " "@ + pattern + " => { "@ + body + " }, "@
}

fn write_case(variant: &str, pattern: &str, body: &str) -> (r: String)
    ensures
        r@ == case_text(variant@, pattern@, body@),
{
    let mut out = String::from_str("Self::");
    out.append(variant);
    out.append(" ");
    out.append(pattern);
    out.append(" => { ");
    out.append(body);
    out.append(" }, ");
    out
}

/// The generics of an implementation: the type's own parameters, and its
/// `where` clause followed by the generated bounds, the bounds of the seed
/// specification and its overriding bounds.
pub open spec fn extended(
    direction: Direction,
    generics: GenericsView,
    spec: SeedSpec,
) -> GenericsView {
    GenericsView {
        params: generics.params,
        where_clause: generics.where_clause + synthesized(
            direction,
            generics.params,
            generics.params.len(),
            seed_text(spec),
            spec.override_bounds,
        ) + spec.bounds + spec.override_bounds,
    }
}

/// Builds the generics of an implementation.
pub fn extend_generics(
    direction: Direction,
    generics: &Generics,
    spec: &SerializeAttributes,
) -> (r: Generics)
    ensures
        r@ == extended(direction, generics@, spec@),
{
    let seed_ty = match &spec.seed {
        Some(t) => t.as_str(),
        None => "",
    };
    proof {
        reveal_strlit("");
        assert(""@ =~= Seq::<char>::empty());
    }
    let mut result = generics.clone();
    let mut added = synthesize(
        direction,
        generics.params.as_slice(),
        seed_ty,
        spec.override_bounds.as_slice(),
    );
    let mut bounds = clone_predicates(&spec.bounds);
    let mut override_bounds = clone_predicates(&spec.override_bounds);
    let ghost a = result.where_clause@;
    let ghost b = added@;
    let ghost c = bounds@;
    let ghost d = override_bounds@;
    result.where_clause.append(&mut added);
    result.where_clause.append(&mut bounds);
    result.where_clause.append(&mut override_bounds);
    assert(predicate_views(a + b + c + d) =~= predicate_views(a) + predicate_views(b)
        + predicate_views(c) + predicate_views(d));
    result
}

/// The body of a transparent record: its first field that is not skipped
/// is encoded in its place; with no such field, the body is empty.
pub open spec fn transparent_text(shape: Shape) -> Seq<char> {
    match shape {
        Shape::Unit => Seq::empty(),
        Shape::Positional(fields) => match first_unskipped(
            positional_skips(fields),
            fields.len(),
        ) {
            Some(i) => forward_text(decimal_text(fields[i].index)),
            None => Seq::empty(),
        },
        Shape::Named(fields) => match first_unskipped(named_skips(fields), fields.len()) {
            Some(i) => forward_text(fields[i].id),
            None => Seq::empty(),
        },
    }
}

/// The bindings of the first `n` positional fields of an arm, a comma
/// after each: the field's name in generated code, or `_` for a field that
/// is skipped.
pub open spec fn bound_arguments(fields: Seq<PositionalField>, n: nat) -> Seq<char>
    decreases n,
{
    if n == 0 || n > fields.len() {
        Seq::empty()
    } else {
        bound_arguments(fields, (n - 1) as nat) + (if fields[n - 1].attrs.skip {
            "_"@
        } else {
            fields[n - 1].id
        }) + ", "@
    }
}

/// The bindings of the first `n` named fields of an arm, a comma after
/// each: the field's name, with `: _` for a field that is skipped.
pub open spec fn bound_names(fields: Seq<NamedFieldShape>, n: nat) -> Seq<char>
    decreases n,
{
    if n == 0 || n > fields.len() {
        Seq::empty()
    } else {
        bound_names(fields, (n - 1) as nat) + fields[n - 1].id + (if fields[n - 1].attrs.skip {
            ": _, "@
        } else {
            ", "@
        })
    }
}

/// The pattern that binds the fields of an arm: brackets as the arm was
/// declared with, and inside them the fields that are not skipped.
pub open spec fn pattern_text(fields: Fields, shape: Shape) -> Seq<char> {
    match fields {
        Fields::Unit => Seq::empty(),
        Fields::Unnamed(_) => "("@ + (match shape {
            Shape::Positional(f) => bound_arguments(f, f.len()),
            _ => Seq::empty(),
        }) + ")"@,
        Fields::Named(_) => "{ "@ + (match shape {
            Shape::Named(f) => bound_names(f, f.len()),
            _ => Seq::empty(),
        }) + "}"@,
    }
}

/// The arm at position `i`, with the index it has on the wire.
pub open spec fn arm_at(variants: Seq<Variant>, i: int) -> Arm {
    Arm { index: i as u32, ident: variants[i].ident@ }
}

/// The `match` arms for the first `n` variants of a union, or the first
/// error among them.
pub open spec fn cases_of(
    ident: Seq<char>,
    generics: GenericsView,
    attrs: TypeAttributesView,
    spec: SeedSpec,
    variants: Seq<Variant>,
    replies: Seq<Vec<Vec<Vec<Reply>>>>,
    n: nat,
) -> Result<Seq<char>, Error>
    decreases n,
{
    if n == 0 || n > variants.len() {
        Ok(Seq::empty())
    } else {
        match cases_of(ident, generics, attrs, spec, variants, replies, (n - 1) as nat) {
            Err(e) => Err(e),
            Ok(done) => match shape_of(variants[n - 1].fields, fields_replies(replies, n - 1)) {
                Err(e) => Err(Error::Attribute(e)),
                Ok(shape) => match fields::derive_of(
                    ident,
                    generics,
                    attrs,
                    spec,
                    Some(arm_at(variants, n - 1)),
                    shape,
                ) {
                    Err(e) => Err(e),
                    Ok(body) => Ok(
                        done + case_text(
                            variants[n - 1].ident@,
                            pattern_text(variants[n - 1].fields, shape),
                            body,
                        ),
                    ),
                },
            },
        }
    }
}

/// The body of the implementation for one seed specification, with
/// `generics` the generics of that implementation.
///
/// A transparent struct forwards to its field. A struct is encoded by its
/// shape, a union by a `match` over its arms, each encoded by its shape
/// under its index. Refused are a `union`, a transparent `enum`, and a
/// transparent struct without fields.
pub open spec fn body_of(
    input: DeriveInput,
    replies: Seq<Vec<Vec<Vec<Reply>>>>,
    generics: GenericsView,
    attrs: TypeAttributesView,
    spec: SeedSpec,
) -> Result<Seq<char>, Error> {
    match input.data {
        Data::Struct(s) => match shape_of(s.fields, fields_replies(replies, 0)) {
            Err(e) => Err(Error::Attribute(e)),
            Ok(shape) => if attrs.transparent {
                if shape is Unit {
                    Err(Error::TransparentUnit(input.span))
                } else {
                    Ok(transparent_text(shape))
                }
            } else {
                fields::derive_of(input.ident@, generics, attrs, spec, None, shape)
            },
        },
        Data::Enum(e) => if attrs.transparent {
            Err(Error::TransparentEnum(e.enum_token))
        } else {
            match cases_of(
                input.ident@,
                generics,
                attrs,
                spec,
                e.variants@,
                replies,
                e.variants@.len(),
            ) {
                Err(e) => Err(e),
                Ok(cases) => Ok("match self { "@ + cases + "}"@),
            }
        },
        Data::Union(u) => Err(Error::Union(u.union_token)),
    }
}

/// The implementation for one seed specification. A specification without
/// a seed type is refused before anything else is looked at.
#[verifier::opaque]
pub open spec fn implementation_of(
    input: DeriveInput,
    replies: Replies,
    attrs: TypeAttributesView,
    spec: SeedSpec,
) -> Result<Seq<char>, Error> {
    match spec.seed {
        None => Err(Error::Attribute(attributes::Error::MissingSeed)),
        Some(seed_ty) => {
            let generics = extended(Direction::Ser, input.generics@, spec);
            match body_of(input, replies.fields@, generics, attrs, spec) {
                Err(e) => Err(e),
                Ok(body) => Ok(
                    implementation_text(
                        generics_text(generics.params, SeedParams::spec_none(), spec.params, true),
                        seed_ty,
                        input.ident@,
                        generics_text(
                            generics.params,
                            SeedParams::spec_none(),
                            Seq::empty(),
                            false,
                        ),
                        where_text(generics.where_clause),
                        body,
                    ),
                ),
            }
        },
    }
}

/// The implementations for the first `n` seed specifications, one after
/// the other, or the first error among them.
pub open spec fn implementations_of(
    input: DeriveInput,
    replies: Replies,
    attrs: TypeAttributesView,
    n: nat,
) -> Result<Seq<char>, Error>
    decreases n,
{
    if n == 0 || n > attrs.ser.len() {
        Ok(Seq::empty())
    } else {
        match implementations_of(input, replies, attrs, (n - 1) as nat) {
            Err(e) => Err(e),
            Ok(done) => match implementation_of(input, replies, attrs, attrs.ser[n - 1]) {
                Err(e) => Err(e),
                Ok(one) => Ok(done + one),
            },
        }
    }
}

/// What `derive` gives for a declaration: the attributes of the type are
/// read, and one implementation is written for each seed specification
/// for encoding, in order. A type that declares none gets no code.
pub open spec fn derived(input: DeriveInput, replies: Replies) -> Result<Seq<char>, Error> {
    match type_attributes_of(input.attrs@, replies.attrs@, input.attrs@.len()) {
        Err(e) => Err(Error::Attribute(e)),
        Ok(attrs) => implementations_of(input, replies, attrs, attrs.ser.len()),
    }
}

proof fn lemma_cases_stop(
    ident: Seq<char>,
    generics: GenericsView,
    attrs: TypeAttributesView,
    spec: SeedSpec,
    variants: Seq<Variant>,
    replies: Seq<Vec<Vec<Vec<Reply>>>>,
    i: nat,
    n: nat,
)
    requires
        i <= n <= variants.len(),
        cases_of(ident, generics, attrs, spec, variants, replies, i) is Err,
    ensures
        cases_of(ident, generics, attrs, spec, variants, replies, n) == cases_of(
            ident,
            generics,
            attrs,
            spec,
            variants,
            replies,
            i,
        ),
    decreases n,
{
    if n > i {
        lemma_cases_stop(ident, generics, attrs, spec, variants, replies, i, (n - 1) as nat);
    }
}

proof fn lemma_implementations_stop(
    input: DeriveInput,
    replies: Replies,
    attrs: TypeAttributesView,
    i: nat,
    n: nat,
)
    requires
        i <= n <= attrs.ser.len(),
        implementations_of(input, replies, attrs, i) is Err,
    ensures
        implementations_of(
            input,
            replies,
            attrs,
            n,
        ) == implementations_of(input, replies, attrs, i),
    decreases n,
{
    if n > i {
        lemma_implementations_stop(input, replies, attrs, i, (n - 1) as nat);
    }
}

fn write_transparent(fields: &SerializedFields) -> (r: String)
    ensures
        r@ == transparent_text(fields@),
{
    match fields {
        SerializedFields::Unit => String::new(),
        SerializedFields::Unnamed(v) => {
            let skips = skips_of_unnamed(v.as_slice());
            match find_unskipped(skips.as_slice()) {
                Some(i) => {
                    proof {
                        crate::fields::lemma_unskipped(skips@, skips@.len());
                    }
                    write_forward(decimal(v[i].index as u64).as_str())
                },
                None => String::new(),
            }
        },
        SerializedFields::Named(v) => {
            let skips = skips_of_named(v.as_slice());
            match find_unskipped(skips.as_slice()) {
                Some(i) => {
                    proof {
                        crate::fields::lemma_unskipped(skips@, skips@.len());
                    }
                    write_forward(v[i].id.as_str())
                },
                None => String::new(),
            }
        },
    }
}

fn write_pattern(fields: &Fields, shape: &SerializedFields) -> (r: String)
    ensures
        r@ == pattern_text(*fields, shape@),
{
    match fields {
        Fields::Unit => String::new(),
        Fields::Unnamed(_) => {
            let mut bindings = String::new();
            match shape {
                SerializedFields::Unnamed(v) => {
                    let mut i: usize = 0;
                    while i < v.len()
                        invariant
                            i <= v.len(),
                            bindings@ == bound_arguments(positional_views(v@), i as nat),
                        decreases v.len() - i,
                    {
                        assert(positional_views(v@)[i as int] == v@[i as int]@);
                        if v[i].attrs.skip {
                            bindings.append("_");
                        } else {
                            bindings.append(v[i].id.as_str());
                        }
                        bindings.append(", ");
                        i += 1;
                    }
                },
                _ => {},
            }
            let mut out = String::from_str("(");
            out.append(bindings.as_str());
            out.append(")");
            out
        },
        Fields::Named(_) => {
            let mut bindings = String::new();
            match shape {
                SerializedFields::Named(v) => {
                    let mut i: usize = 0;
                    while i < v.len()
                        invariant
                            i <= v.len(),
                            bindings@ == bound_names(named_views(v@), i as nat),
                        decreases v.len() - i,
                    {
                        assert(named_views(v@)[i as int] == v@[i as int]@);
                        bindings.append(v[i].id.as_str());
                        if v[i].attrs.skip {
                            bindings.append(": _, ");
                        } else {
                            bindings.append(", ");
                        }
                        i += 1;
                    }
                },
                _ => {},
            }
            let mut out = String::from_str("{ ");
            out.append(bindings.as_str());
            out.append("}");
            out
        },
    }
}

fn write_cases(
    ident: &str,
    generics: &Generics,
    attrs: &TypeAttributes,
    spec: &SerializeAttributes,
    variants: &[Variant],
    replies: &Vec<Vec<Vec<Vec<Reply>>>>,
) -> (r: Result<String, Error>)
    ensures
        match r {
            Ok(s) => cases_of(
                ident@,
                generics@,
                attrs@,
                spec@,
                variants@,
                replies@,
                variants@.len(),
            ) == Ok::<
                Seq<char>,
                Error,
            >(s@),
            Err(e) => cases_of(
                ident@,
                generics@,
                attrs@,
                spec@,
                variants@,
                replies@,
                variants@.len(),
            )
                == Err::<Seq<char>, Error>(e),
        },
{
    let mut out = String::new();
    let mut i: usize = 0;
    while i < variants.len()
        invariant
            i <= variants.len(),
            cases_of(ident@, generics@, attrs@, spec@, variants@, replies@, i as nat) == Ok::<
                Seq<char>,
                Error,
            >(out@),
        decreases variants.len() - i,
    {
        let v = &variants[i];
        let variant = SerializedVariant {
            index: #[verifier::truncate]
            (i as u32),
            ident: &v.ident,
        };
        assert(variant@ == arm_at(variants@, i as int));
        let shape = match shape_with(&v.fields, replies, i) {
            Ok(s) => s,
            Err(e) => {
                proof {
                    assert(cases_of(
                        ident@,
                        generics@,
                        attrs@,
                        spec@,
                        variants@,
                        replies@,
                        (i + 1) as nat,
                    )
                        is Err);
                    lemma_cases_stop(
                        ident@,
                        generics@,
                        attrs@,
                        spec@,
                        variants@,
                        replies@,
                        (i + 1) as nat,
                        variants@.len(),
                    );
                }
                return Err(Error::Attribute(e));
            },
        };
        let body = match fields::derive(
            ident,
            generics,
            attrs,
            spec,
            Some(variant),
            &shape,
        ) {
            Ok(b) => b,
            Err(e) => {
                proof {
                    assert(cases_of(
                        ident@,
                        generics@,
                        attrs@,
                        spec@,
                        variants@,
                        replies@,
                        (i + 1) as nat,
                    )
                        is Err);
                    lemma_cases_stop(
                        ident@,
                        generics@,
                        attrs@,
                        spec@,
                        variants@,
                        replies@,
                        (i + 1) as nat,
                        variants@.len(),
                    );
                }
                return Err(e);
            },
        };
        let pattern = write_pattern(&v.fields, &shape);
        out.append(write_case(v.ident.as_str(), pattern.as_str(), body.as_str()).as_str());
        i += 1;
    }
    Ok(out)
}

fn write_body(
    input: &DeriveInput,
    replies: &Replies,
    generics: &Generics,
    attrs: &TypeAttributes,
    spec: &SerializeAttributes,
) -> (r: Result<String, Error>)
    ensures
        match r {
            Ok(s) => body_of(
                *input,
                replies.fields@,
                generics@,
                attrs@,
                spec@,
            ) == Ok::<Seq<char>, Error>(s@),
            Err(e) => body_of(
                *input,
                replies.fields@,
                generics@,
                attrs@,
                spec@,
            ) == Err::<Seq<char>, Error>(e),
        },
{
    match &input.data {
        Data::Struct(s) => {
            let shape = match shape_with(&s.fields, &replies.fields, 0) {
                Ok(shape) => shape,
                Err(e) => {
                    return Err(Error::Attribute(e));
                },
            };
            if attrs.transparent {
                match shape {
                    SerializedFields::Unit => Err(Error::TransparentUnit(input.span)),
                    _ => Ok(write_transparent(&shape)),
                }
            } else {
                fields::derive(input.ident.as_str(), generics, attrs, spec, None, &shape)
            }
        },
        Data::Enum(e) => {
            if attrs.transparent {
                return Err(Error::TransparentEnum(e.enum_token));
            }
            let cases = match write_cases(
                input.ident.as_str(),
                generics,
                attrs,
                spec,
                e.variants.as_slice(),
                &replies.fields,
            ) {
                Ok(c) => c,
                Err(e) => {
                    return Err(e);
                },
            };
            let mut out = String::from_str("match self { ");
            out.append(cases.as_str());
            out.append("}");
            Ok(out)
        },
        Data::Union(u) => Err(Error::Union(u.union_token)),
    }
}

fn write_one(
    input: &DeriveInput,
    replies: &Replies,
    attrs: &TypeAttributes,
    spec: &SerializeAttributes,
) -> (r: Result<String, Error>)
    ensures
        implementation_of(*input, *replies, attrs@, spec@) == viewed(r),
{
    reveal(implementation_of);
    let seed_ty = match spec.require_seed() {
        Ok(t) => t,
        Err(e) => {
            return Err(Error::Attribute(e));
        },
    };
    let generics = extend_generics(Direction::Ser, &input.generics, spec);
    let body = match write_body(input, replies, &generics, attrs, spec) {
        Ok(b) => b,
        Err(e) => {
            return Err(e);
        },
    };
    let (impl_generics, ty_generics, predicates) = split_ser_generics(
        &generics,
        spec.params.as_slice(),
    );
    let mut impl_text = String::new();
    impl_generics.to_tokens(&mut impl_text);
    let mut ty_text = String::new();
    ty_generics.to_tokens(&mut ty_text);
    let where_clause = write_where(predicates.as_slice());
    proof {
        assert(impl_text@ =~= impl_generics.text());
        assert(ty_text@ =~= ty_generics.text());
    }
    Ok(
        write_implementation(
            impl_text.as_str(),
            seed_ty.as_str(),
            input.ident.as_str(),
            ty_text.as_str(),
            where_clause.as_str(),
            body.as_str(),
        ),
    )
}

/// Writes the encoding implementations for a declaration: one
/// `impl SerializeSeeded` for each `ser(...)` or `serde(...)` entry of its
/// attributes, in order. The parser is asked about the arguments of the
/// attributes, and the implementations are written with the answers that
/// came back.
pub fn derive(input: DeriveInput) -> (r: Result<String, Error>)
    ensures
        exists|replies: Replies|
            asked_input(input, replies) && #[trigger] derived(input, replies) == viewed(r),
{
    let replies = ask_input(&input);
    let r = derive_with(&input, &replies);
    assert(derived(input, replies) == viewed(r));
    r
}

/// Writes the encoding implementations for a declaration, with the
/// answers that the parser gave about the arguments of its attributes.
pub fn derive_with(input: &DeriveInput, replies: &Replies) -> (r: Result<String, Error>)
    ensures
        derived(*input, *replies) == viewed(r),
{
    let attrs = match TypeAttributes::parse_attributes_with(&input.attrs, &replies.attrs) {
        Ok(a) => a,
        Err(e) => {
            return Err(Error::Attribute(e));
        },
    };
    let mut tokens = String::new();
    let mut i: usize = 0;
    while i < attrs.ser.len()
        invariant
            i <= attrs.ser.len(),
            attrs@.ser.len() == attrs.ser@.len(),
            type_attributes_of(input.attrs@, replies.attrs@, input.attrs@.len()) == Ok::<
                TypeAttributesView,
                attributes::Error,
            >(attrs@),
            implementations_of(*input, *replies, attrs@, i as nat) == Ok::<Seq<char>, Error>(
                tokens@,
            ),
        decreases attrs.ser.len() - i,
    {
        let one = match write_one(input, replies, &attrs, &attrs.ser[i]) {
            Ok(s) => s,
            Err(e) => {
                proof {
                    assert(attrs@.ser[i as int] == attrs.ser@[i as int]@);
                    assert(implementations_of(*input, *replies, attrs@, (i + 1) as nat) is Err);
                    lemma_implementations_stop(
                        *input,
                        *replies,
                        attrs@,
                        (i + 1) as nat,
                        attrs@.ser.len(),
                    );
                }
                return Err(e);
            },
        };
        proof {
            assert(attrs@.ser[i as int] == attrs.ser@[i as int]@);
        }
        tokens.append(one.as_str());
        i += 1;
    }
    Ok(tokens)
}

} // verus!
