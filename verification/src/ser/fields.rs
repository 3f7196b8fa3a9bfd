//! The body of an encoding implementation for one record or one arm.
//!
//! How the fields travel is decided by their shape and by how many of
//! them are not skipped. No payload: a unit. Positional fields: a unit
//! where none is left, a newtype around the one that is left, else a tuple
//! of those that are left, in order. Named fields: a struct of those that
//! are not skipped, under their wire names, where a field whose
//! `skip_serializing_if` predicate holds is left out and not counted.

use vstd::prelude::*;
use vstd::string::*;
use crate::attributes;
use crate::attributes::{SeedSpec, SerializeAttributes, TypeAttributes, TypeAttributesView};
use crate::fields::{
    NamedFieldShape, PositionalField, SerializedFields, SerializedNamedField,
    SerializedUnnamedField, Shape, count_unskipped, find_unskipped, first_unskipped,
    lemma_unskipped, named_views, positional_skips, positional_views, skips_of_unnamed, unskipped,
};
use crate::item::{GenericParam, Generics, GenericsView};
use crate::ser::{Arm, Error, SerializedVariant, arm_view, seed_text, value_serializer, value_text};
use crate::literal::{string_literal, write_string_literal};
use crate::text::{decimal, decimal_text};

verus! {

/// The arguments that every encoder call begins with: the type's wire
/// name and, for an arm, its index and its name.
pub open spec fn head_text(name: Seq<char>, variant: Option<Arm>) -> Seq<char> {
    match variant {
        Some(v) => string_literal(name) + ", "@ + decimal_text(v.index as nat) + "u32, "@
            + string_literal(v.ident),
        None => string_literal(name),
    }
}

fn write_head(name: &str, variant: Option<SerializedVariant>) -> (r: String)
    ensures
        r@ == head_text(name@, arm_view(variant)),
{
    let mut out = write_string_literal(name);
    match variant {
        Some(v) => {
            out.append(", ");
            out.append(decimal(v.index as u64).as_str());
            out.append("u32, ");
            out.append(write_string_literal(v.ident.as_str()).as_str());
        },
        None => {},
    }
    out
}

/// One of two words: the one for an arm, or the one for a record.
pub open spec fn pick(variant: bool, for_variant: Seq<char>, for_struct: Seq<char>) -> Seq<char> {
    if variant {
        for_variant
    } else {
        for_struct
    }
}

fn pick_str(variant: bool, for_variant: &'static str, for_struct: &'static str) -> (r: &'static str)
    ensures
        r@ == pick(variant, for_variant@, for_struct@),
{
    if variant {
        for_variant
    } else {
        for_struct
    }
}

/// Encoding no payload: a unit struct, or a unit variant.
pub open spec fn unit_text(method: Seq<char>, head: Seq<char>) -> Seq<char> {
    "serializer."@ + method + "("@ + head + ")"@
}

fn write_unit(method: &str, head: &str) -> (r: String)
    ensures
        r@ == unit_text(method@, head@),
{
    let mut out = String::from_str("serializer.");
    out.append(method);
    out.append("(");
    out.append(head);
    out.append(")");
    out
}

/// Encoding one field: a newtype around its value.
pub open spec fn newtype_text(
    method: Seq<char>,
    head: Seq<char>,
    value: Seq<char>,
) -> Seq<char> {
    "serializer."@ + method + "("@ + head + ", &"@ + value + ")"@
}

fn write_newtype(method: &str, head: &str, value: &str) -> (r: String)
    ensures
        r@ == newtype_text(method@, head@, value@),
{
    let mut out = String::from_str("serializer.");
    out.append(method);
    out.append("(");
    out.append(head);
    out.append(", &");
    out.append(value);
    out.append(")");
    out
}

/// Encoding several fields: the encoder is told how many, each field is
/// written by one statement, and the compound is closed.
pub open spec fn compound_text(
    method: Seq<char>,
    head: Seq<char>,
    count: Seq<char>,
    statements: Seq<char>,
    writer: Seq<char>,
) -> Seq<char> {
    "let mut s = serializer."@ + method + "("@ + head + ", "@ + count + ")?; "@ + statements
        + writer + "::end(s)"@
}

fn write_compound(
    method: &str,
    head: &str,
    count: &str,
    statements: &str,
    writer: &str,
) -> (r: String)
    ensures
        r@ == compound_text(method@, head@, count@, statements@, writer@),
{
    let mut out = String::from_str("let mut s = serializer.");
    out.append(method);
    out.append("(");
    out.append(head);
    out.append(", ");
    out.append(count);
    out.append(")?; ");
    out.append(statements);
    out.append(writer);
    out.append("::end(s)");
    out
}

/// The statement that writes one field of a tuple.
pub open spec fn tuple_field_text(writer: Seq<char>, value: Seq<char>) -> Seq<char> {
    writer + "::serialize_field(&mut s, &"@ + value + ")?; "@
}

fn write_tuple_field(writer: &str, value: &str) -> (r: String)
    ensures
        r@ == tuple_field_text(writer@, value@),
{
    let mut out = String::from_str(writer);
    out.append("::serialize_field(&mut s, &");
    out.append(value);
    out.append(")?; ");
    out
}

/// The statement that writes one field of a struct under its wire name.
pub open spec fn struct_field_text(
    writer: Seq<char>,
    name: Seq<char>,
    value: Seq<char>,
) -> Seq<char> {
    writer + "::serialize_field(&mut s, "@ + name + ", &"@ + value + ")?; "@
}

fn write_struct_field(writer: &str, name: &str, value: &str) -> (r: String)
    ensures
        r@ == struct_field_text(writer@, name@, value@),
{
    let mut out = String::from_str(writer);
    out.append("::serialize_field(&mut s, ");
    out.append(name);
    out.append(", &");
    out.append(value);
    out.append(")?; ");
    out
}

/// The statement that writes one field of a struct unless `predicate`
/// holds of it; where it holds, the encoder is told that the field is left
/// out.
pub open spec fn optional_field_text(
    predicate: Seq<char>,
    accessor: Seq<char>,
    writer: Seq<char>,
    name: Seq<char>,
    statement: Seq<char>,
) -> Seq<char> {
    "if "@ + predicate + "("@ + accessor + ") { "@ + writer + "::skip_field(&mut s, "@ + name
        + ")?; } else { "@ + statement + "} "@
}

fn write_optional_field(
    predicate: &str,
    accessor: &str,
    writer: &str,
    name: &str,
    statement: &str,
) -> (r: String)
    ensures
        r@ == optional_field_text(predicate@, accessor@, writer@, name@, statement@),
{
    let mut out = String::from_str("if ");
    out.append(predicate);
    out.append("(");
    out.append(accessor);
    out.append(") { ");
    out.append(writer);
    out.append("::skip_field(&mut s, ");
    out.append(name);
    out.append(")?; } else { ");
    out.append(statement);
    out.append("} ");
    out
}

/// What a field with a predicate adds to the count of fields: nothing
/// where the predicate holds of it, else one.
pub open spec fn counted_text(predicate: Seq<char>, accessor: Seq<char>) -> Seq<char> {
    " + if "@ + predicate + "("@ + accessor + ") { 0 } else { 1 }"@
}

fn write_counted(predicate: &str, accessor: &str) -> (r: String)
    ensures
        r@ == counted_text(predicate@, accessor@),
{
    let mut out = String::from_str(" + if ");
    out.append(predicate);
    out.append("(");
    out.append(accessor);
    out.append(") { 0 } else { 1 }");
    out
}

/// How generated code reaches a positional field: by its binding inside an
/// arm, by its position through `self` inside a record.
pub open spec fn positional_accessor(f: PositionalField, variant: bool) -> Seq<char> {
    if variant {
        f.id
    } else {
        "&self."@ + decimal_text(f.index)
    }
}

/// How generated code reaches a named field: by its binding inside an arm,
/// by its name through `self` inside a record.
pub open spec fn named_accessor(f: NamedFieldShape, variant: bool) -> Seq<char> {
    if variant {
        f.id
    } else {
        "&self."@ + f.id
    }
}

/// The trait through which the fields of a tuple are written.
pub open spec fn tuple_writer(variant: bool) -> Seq<char> {
    pick(variant, "::serde::ser::SerializeTupleVariant"@, "::serde::ser::SerializeTupleStruct"@)
}

/// The trait through which the fields of a struct are written.
pub open spec fn struct_writer(variant: bool) -> Seq<char> {
    pick(variant, "::serde::ser::SerializeStructVariant"@, "::serde::ser::SerializeStruct"@)
}

/// What a record or arm is encoded for: the type, its parameters, the
/// extra parameters and the seed type of the seed specification, and the
/// arm, if it is one.
pub struct Target {
    pub ident: Seq<char>,
    pub generics: GenericsView,
    pub extra: Seq<GenericParam>,
    pub seed_ty: Seq<char>,
    pub variant: Option<Arm>,
}

/// The value of a positional field paired with the seed.
pub open spec fn positional_value(t: Target, f: PositionalField) -> Seq<char> {
    value_text(
        t.ident,
        t.generics,
        t.extra,
        t.seed_ty,
        f.attrs,
        f.ty,
        positional_accessor(f, t.variant is Some),
    )
}

/// The value of a named field paired with the seed.
pub open spec fn named_value(t: Target, f: NamedFieldShape) -> Seq<char> {
    value_text(
        t.ident,
        t.generics,
        t.extra,
        t.seed_ty,
        f.attrs,
        f.ty,
        named_accessor(f, t.variant is Some),
    )
}

/// The statements that write the first `n` positional fields: one for
/// each field that is not skipped, in order.
pub open spec fn tuple_statements(t: Target, fields: Seq<PositionalField>, n: nat) -> Seq<char>
    decreases n,
{
    if n == 0 || n > fields.len() {
        Seq::empty()
    } else {
        tuple_statements(t, fields, (n - 1) as nat) + (if fields[n - 1].attrs.skip {
            Seq::empty()
        } else {
            tuple_field_text(tuple_writer(t.variant is Some), positional_value(t, fields[n - 1]))
        })
    }
}

/// The statement that writes one named field.
pub open spec fn named_statement(t: Target, f: NamedFieldShape) -> Seq<char> {
    let write = struct_field_text(
        struct_writer(t.variant is Some),
        string_literal(f.name()),
        named_value(t, f),
    );
    match f.attrs.skip_serializing_if {
        Some(predicate) => optional_field_text(
            predicate,
            named_accessor(f, t.variant is Some),
            struct_writer(t.variant is Some),
            string_literal(f.name()),
            write,
        ),
        None => write,
    }
}

/// The statements that write the first `n` named fields: one for each
/// field that is not skipped, in order.
pub open spec fn struct_statements(t: Target, fields: Seq<NamedFieldShape>, n: nat) -> Seq<char>
    decreases n,
{
    if n == 0 || n > fields.len() {
        Seq::empty()
    } else {
        struct_statements(t, fields, (n - 1) as nat) + (if fields[n - 1].attrs.skip {
            Seq::empty()
        } else {
            named_statement(t, fields[n - 1])
        })
    }
}

/// What the first `n` named fields add to the count of fields that is
/// announced to the encoder: one for each field that is not skipped,
/// unless its predicate holds of its value.
pub open spec fn count_terms(fields: Seq<NamedFieldShape>, n: nat, variant: bool) -> Seq<char>
    decreases n,
{
    if n == 0 || n > fields.len() {
        Seq::empty()
    } else {
        count_terms(fields, (n - 1) as nat, variant) + (if fields[n - 1].attrs.skip {
            Seq::empty()
        } else {
            match fields[n - 1].attrs.skip_serializing_if {
                Some(predicate) => counted_text(predicate, named_accessor(fields[n - 1], variant)),
                None => " + 1"@,
            }
        })
    }
}

/// The body that encodes a record or arm of the given shape.
pub open spec fn body_text(t: Target, name: Seq<char>, shape: Shape) -> Seq<char> {
    let variant = t.variant is Some;
    let head = head_text(name, t.variant);
    let unit = unit_text(pick(variant, "serialize_unit_variant"@, "serialize_unit_struct"@), head);
    match shape {
        Shape::Unit => unit,
        Shape::Positional(fields) => {
            let skips = positional_skips(fields);
            let count = unskipped(skips, skips.len());
            if count == 0 {
                unit
            } else if count == 1 {
                newtype_text(
                    pick(variant, "serialize_newtype_variant"@, "serialize_newtype_struct"@),
                    head,
                    positional_value(t, fields[first_unskipped(skips, skips.len())->0]),
                )
            } else {
                compound_text(
                    pick(variant, "serialize_tuple_variant"@, "serialize_tuple_struct"@),
                    head,
                    decimal_text(count) + "usize"@,
                    tuple_statements(t, fields, fields.len()),
                    tuple_writer(variant),
                )
            }
        },
        Shape::Named(fields) => compound_text(
            pick(variant, "serialize_struct_variant"@, "serialize_struct"@),
            head,
            "0"@ + count_terms(fields, fields.len(), variant),
            struct_statements(t, fields, fields.len()),
            struct_writer(variant),
        ),
    }
}

/// Whether a field that is not skipped names a module with `with(...)`.
pub open spec fn uses_with(shape: Shape) -> bool {
    match shape {
        Shape::Unit => false,
        Shape::Positional(fields) => exists|i: int|
            0 <= i < fields.len() && !(#[trigger] fields[i]).attrs.skip && fields[i].attrs.with
                is Some,
        Shape::Named(fields) => exists|i: int|
            0 <= i < fields.len() && !(#[trigger] fields[i]).attrs.skip && fields[i].attrs.with
                is Some,
    }
}

/// What `derive` gives for a record or arm: the body of `body_text`, or
/// `MissingSeed` where a field names a module and the seed specification
/// names no seed type.
pub open spec fn derive_of(
    ident: Seq<char>,
    generics: GenericsView,
    attrs: TypeAttributesView,
    ser: SeedSpec,
    variant: Option<Arm>,
    shape: Shape,
) -> Result<Seq<char>, Error> {
    if ser.seed is None && uses_with(shape) {
        Err(Error::Attribute(attributes::Error::MissingSeed))
    } else {
        Ok(
            body_text(
                Target { ident, generics, extra: ser.params, seed_ty: seed_text(ser), variant },
                attrs.name(ident),
                shape,
            ),
        )
    }
}

fn shape_uses_with(fields: &SerializedFields) -> (r: bool)
    ensures
        r == uses_with(fields@),
{
    match fields {
        SerializedFields::Unit => false,
        SerializedFields::Unnamed(v) => {
            let mut i: usize = 0;
            while i < v.len()
                invariant
                    i <= v.len(),
                    fields@ == Shape::Positional(positional_views(v@)),
                    forall|j: int|
                        0 <= j < i ==> (#[trigger] positional_views(v@)[j]).attrs.skip
                            || positional_views(v@)[j].attrs.with is None,
                decreases v.len() - i,
            {
                if !v[i].attrs.skip && v[i].attrs.with.is_some() {
                    assert(!positional_views(v@)[i as int].attrs.skip);
                    return true;
                }
                i += 1;
            }
            false
        },
        SerializedFields::Named(v) => {
            let mut i: usize = 0;
            while i < v.len()
                invariant
                    i <= v.len(),
                    fields@ == Shape::Named(named_views(v@)),
                    forall|j: int|
                        0 <= j < i ==> (#[trigger] named_views(v@)[j]).attrs.skip || named_views(
                            v@,
                        )[j].attrs.with is None,
                decreases v.len() - i,
            {
                if !v[i].attrs.skip && v[i].attrs.with.is_some() {
                    assert(!named_views(v@)[i as int].attrs.skip);
                    return true;
                }
                i += 1;
            }
            false
        },
    }
}

fn write_positional_accessor(f: &SerializedUnnamedField, variant: bool) -> (r: String)
    ensures
        r@ == positional_accessor(f@, variant),
{
    if variant {
        f.id.clone()
    } else {
        let mut out = String::from_str("&self.");
        out.append(decimal(f.index as u64).as_str());
        out
    }
}

fn write_named_accessor(f: &SerializedNamedField, variant: bool) -> (r: String)
    ensures
        r@ == named_accessor(f@, variant),
{
    if variant {
        f.id.clone()
    } else {
        let mut out = String::from_str("&self.");
        out.append(f.id.as_str());
        out
    }
}

/// The target as the specification sees it.
pub open spec fn target_of(
    ident: Seq<char>,
    generics: GenericsView,
    ser: SeedSpec,
    variant: Option<Arm>,
) -> Target {
    Target { ident, generics, extra: ser.params, seed_ty: seed_text(ser), variant }
}

fn write_positional_value(
    ident: &str,
    generics: &Generics,
    ser: &SerializeAttributes,
    variant: Option<SerializedVariant>,
    f: &SerializedUnnamedField,
) -> (r: String)
    requires
        ser@.seed is Some || f@.attrs.with is None,
    ensures
        r@ == positional_value(target_of(ident@, generics@, ser@, arm_view(variant)), f@),
{
    let value = write_positional_accessor(f, variant.is_some());
    match value_serializer(ident, generics, ser, &f.attrs, f.ty.as_str(), value) {
        Ok(s) => s,
        Err(_) => String::new(),
    }
}

fn write_named_value(
    ident: &str,
    generics: &Generics,
    ser: &SerializeAttributes,
    variant: Option<SerializedVariant>,
    f: &SerializedNamedField,
) -> (r: String)
    requires
        ser@.seed is Some || f@.attrs.with is None,
    ensures
        r@ == named_value(target_of(ident@, generics@, ser@, arm_view(variant)), f@),
{
    let value = write_named_accessor(f, variant.is_some());
    match value_serializer(ident, generics, ser, &f.attrs, f.ty.as_str(), value) {
        Ok(s) => s,
        Err(_) => String::new(),
    }
}

fn write_tuple_statements(
    ident: &str,
    generics: &Generics,
    ser: &SerializeAttributes,
    variant: Option<SerializedVariant>,
    fields: &[SerializedUnnamedField],
) -> (r: String)
    requires
        ser@.seed is Some || !uses_with(Shape::Positional(positional_views(fields@))),
    ensures
        r@ == tuple_statements(
            target_of(ident@, generics@, ser@, arm_view(variant)),
            positional_views(fields@),
            fields@.len(),
        ),
{
    let ghost t = target_of(ident@, generics@, ser@, arm_view(variant));
    let writer = pick_str(
        variant.is_some(),
        "::serde::ser::SerializeTupleVariant",
        "::serde::ser::SerializeTupleStruct",
    );
    let mut out = String::new();
    let mut i: usize = 0;
    while i < fields.len()
        invariant
            i <= fields.len(),
            t == target_of(ident@, generics@, ser@, arm_view(variant)),
            writer@ == tuple_writer(variant is Some),
            ser@.seed is Some || !uses_with(Shape::Positional(positional_views(fields@))),
            out@ == tuple_statements(t, positional_views(fields@), i as nat),
        decreases fields.len() - i,
    {
        let ghost before = out@;
        if !fields[i].attrs.skip {
            assert(!positional_views(fields@)[i as int].attrs.skip);
            let value = write_positional_value(ident, generics, ser, variant, &fields[i]);
            out.append(write_tuple_field(writer, value.as_str()).as_str());
        } else {
            assert(out@ =~= before + Seq::<char>::empty());
        }
        i += 1;
    }
    out
}

fn write_named_statement(
    ident: &str,
    generics: &Generics,
    ser: &SerializeAttributes,
    variant: Option<SerializedVariant>,
    f: &SerializedNamedField,
) -> (r: String)
    requires
        ser@.seed is Some || f@.attrs.with is None,
    ensures
        r@ == named_statement(target_of(ident@, generics@, ser@, arm_view(variant)), f@),
{
    let writer = pick_str(
        variant.is_some(),
        "::serde::ser::SerializeStructVariant",
        "::serde::ser::SerializeStruct",
    );
    let name = write_string_literal(f.name().as_str());
    let value = write_named_value(ident, generics, ser, variant, f);
    let write = write_struct_field(writer, name.as_str(), value.as_str());
    match &f.attrs.skip_serializing_if {
        Some(predicate) => {
            let accessor = write_named_accessor(f, variant.is_some());
            write_optional_field(
                predicate.as_str(),
                accessor.as_str(),
                writer,
                name.as_str(),
                write.as_str(),
            )
        },
        None => write,
    }
}

fn write_struct_statements(
    ident: &str,
    generics: &Generics,
    ser: &SerializeAttributes,
    variant: Option<SerializedVariant>,
    fields: &[SerializedNamedField],
) -> (r: String)
    requires
        ser@.seed is Some || !uses_with(Shape::Named(named_views(fields@))),
    ensures
        r@ == struct_statements(
            target_of(ident@, generics@, ser@, arm_view(variant)),
            named_views(fields@),
            fields@.len(),
        ),
{
    let ghost t = target_of(ident@, generics@, ser@, arm_view(variant));
    let mut out = String::new();
    let mut i: usize = 0;
    while i < fields.len()
        invariant
            i <= fields.len(),
            t == target_of(ident@, generics@, ser@, arm_view(variant)),
            ser@.seed is Some || !uses_with(Shape::Named(named_views(fields@))),
            out@ == struct_statements(t, named_views(fields@), i as nat),
        decreases fields.len() - i,
    {
        let ghost before = out@;
        if !fields[i].attrs.skip {
            assert(!named_views(fields@)[i as int].attrs.skip);
            let statement = write_named_statement(ident, generics, ser, variant, &fields[i]);
            out.append(statement.as_str());
        } else {
            assert(out@ =~= before + Seq::<char>::empty());
        }
        i += 1;
    }
    out
}

fn write_count_terms(fields: &[SerializedNamedField], variant: bool) -> (r: String)
    ensures
        r@ == count_terms(named_views(fields@), fields@.len(), variant),
{
    let mut out = String::new();
    let mut i: usize = 0;
    while i < fields.len()
        invariant
            i <= fields.len(),
            out@ == count_terms(named_views(fields@), i as nat, variant),
        decreases fields.len() - i,
    {
        let ghost before = out@;
        if !fields[i].attrs.skip {
            match &fields[i].attrs.skip_serializing_if {
                Some(predicate) => {
                    let accessor = write_named_accessor(&fields[i], variant);
                    out.append(write_counted(predicate.as_str(), accessor.as_str()).as_str());
                },
                None => {
                    out.append(" + 1");
                },
            }
        } else {
            assert(out@ =~= before + Seq::<char>::empty());
        }
        i += 1;
    }
    out
}

/// Writes the body that encodes one record, or one arm where `variant`
/// names it.
pub fn derive(
    ident: &str,
    generics: &Generics,
    attrs: &TypeAttributes,
    ser: &SerializeAttributes,
    variant: Option<SerializedVariant>,
    fields: &SerializedFields,
) -> (r: Result<String, Error>)
    ensures
        match r {
            Ok(s) => derive_of(ident@, generics@, attrs@, ser@, arm_view(variant), fields@) == Ok::<
                Seq<char>,
                Error,
            >(s@),
            Err(e) => derive_of(ident@, generics@, attrs@, ser@, arm_view(variant), fields@)
                == Err::<Seq<char>, Error>(e),
        },
{
    if ser.seed.is_none() && shape_uses_with(fields) {
        return Err(Error::Attribute(attributes::Error::MissingSeed));
    }
    let is_variant = variant.is_some();
    let name = attrs.name(ident);
    let head = write_head(name.as_str(), variant);
    match fields {
        SerializedFields::Unit => Ok(
            write_unit(
                pick_str(is_variant, "serialize_unit_variant", "serialize_unit_struct"),
                head.as_str(),
            ),
        ),
        SerializedFields::Unnamed(v) => {
            let skips = skips_of_unnamed(v.as_slice());
            let count = count_unskipped(skips.as_slice());
            proof {
                lemma_unskipped(skips@, skips@.len());
            }
            if count == 0 {
                Ok(
                    write_unit(
                        pick_str(is_variant, "serialize_unit_variant", "serialize_unit_struct"),
                        head.as_str(),
                    ),
                )
            } else if count == 1 {
                let first = match find_unskipped(skips.as_slice()) {
                    Some(i) => i,
                    None => 0,
                };
                assert(!positional_views(v@)[first as int].attrs.skip);
                let value = write_positional_value(ident, generics, ser, variant, &v[first]);
                Ok(
                    write_newtype(
                        pick_str(
                            is_variant,
                            "serialize_newtype_variant",
                            "serialize_newtype_struct",
                        ),
                        head.as_str(),
                        value.as_str(),
                    ),
                )
            } else {
                let statements = write_tuple_statements(
                    ident,
                    generics,
                    ser,
                    variant,
                    v.as_slice(),
                );
                let mut len = decimal(count as u64);
                len.append("usize");
                Ok(
                    write_compound(
                        pick_str(is_variant, "serialize_tuple_variant", "serialize_tuple_struct"),
                        head.as_str(),
                        len.as_str(),
                        statements.as_str(),
                        pick_str(
                            is_variant,
                            "::serde::ser::SerializeTupleVariant",
                            "::serde::ser::SerializeTupleStruct",
                        ),
                    ),
                )
            }
        },
        SerializedFields::Named(v) => {
            let statements = write_struct_statements(ident, generics, ser, variant, v.as_slice());
            let mut len = String::from_str("0");
            len.append(write_count_terms(v.as_slice(), is_variant).as_str());
            Ok(
                write_compound(
                    pick_str(is_variant, "serialize_struct_variant", "serialize_struct"),
                    head.as_str(),
                    len.as_str(),
                    statements.as_str(),
                    pick_str(
                        is_variant,
                        "::serde::ser::SerializeStructVariant",
                        "::serde::ser::SerializeStruct",
                    ),
                ),
            )
        },
    }
}

} // verus!
