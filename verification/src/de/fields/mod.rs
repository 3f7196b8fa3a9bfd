//! The body of a decoding implementation for one record or one arm.
//!
//! No payload: a unit is expected and the bare value is given. Positional
//! and named fields are decoded as their modules say.

use vstd::prelude::*;
use vstd::string::*;
use crate::attributes::{SeedSpec, SerializeAttributes, TypeAttributes, TypeAttributesView};
use crate::de::Error;
use crate::fields::{SerializedFields, Shape};
use crate::item::{Generics, GenericsView};

pub mod named;
pub mod unnamed;

verus! {

/// The value of a record or arm without payload.
pub open spec fn bare_value(ident: Seq<char>, variant: Option<Seq<char>>) -> Seq<char> {
    unnamed::value_path(ident, variant) + " {}"@
}

/// What `derive` gives for a record or arm of the given shape. Fields
/// cannot be decoded without a seed type; a unit can.
pub open spec fn derive_of(
    ident: Seq<char>,
    generics: GenericsView,
    attrs: TypeAttributesView,
    de: SeedSpec,
    variant: Option<Seq<char>>,
    shape: Shape,
) -> Result<Seq<char>, Error> {
    match shape {
        Shape::Unit => Ok(
            unnamed::unit_body_text(
                ident,
                generics,
                variant,
                attrs.name(ident),
                bare_value(ident, variant),
            ),
        ),
        Shape::Positional(fields) => unnamed::derive_of(
            ident,
            generics,
            attrs,
            de,
            variant,
            fields,
        ),
        Shape::Named(fields) => named::derive_of(ident, generics, attrs, de, variant, fields),
    }
}

/// Writes the body that decodes one record, or one arm where
/// `variant_ident` names it.
pub fn derive(
    ident: &str,
    generics: &Generics,
    attrs: &TypeAttributes,
    de: &SerializeAttributes,
    variant_ident: Option<&str>,
    fields: &SerializedFields,
) -> (r: Result<String, Error>)
    ensures
        match r {
            Ok(s) => derive_of(
                ident@,
                generics@,
                attrs@,
                de@,
                unnamed::name_view(variant_ident),
                fields@,
            ) == Ok::<Seq<char>, Error>(s@),
            Err(e) => derive_of(
                ident@,
                generics@,
                attrs@,
                de@,
                unnamed::name_view(variant_ident),
                fields@,
            ) == Err::<Seq<char>, Error>(e),
        },
{
    match fields {
        SerializedFields::Unit => {
            let mut value = unnamed::write_value_path(ident, variant_ident);
            value.append(" {}");
            Ok(
                unnamed::write_unit_body(
                    ident,
                    generics,
                    variant_ident,
                    attrs.name(ident).as_str(),
                    value.as_str(),
                ),
            )
        },
        SerializedFields::Unnamed(fields) => unnamed::derive(
            ident,
            generics,
            attrs,
            de,
            variant_ident,
            fields.as_slice(),
        ),
        SerializedFields::Named(fields) => named::derive(
            ident,
            generics,
            attrs,
            de,
            variant_ident,
            fields.as_slice(),
        ),
    }
}

} // verus!
