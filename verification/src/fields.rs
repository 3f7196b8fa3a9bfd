//! The shape of a record or of one arm of a union: no fields, fields known
//! by position, or fields known by name, each with what its attributes
//! configure.

use vstd::prelude::*;
use vstd::string::*;
use crate::attributes::{
    Error, FieldAttributes, FieldAttributesView, Reply, ask_attributes, asked_attributes,
    field_attributes_of, viewed,
};
use crate::item::{Data, DeriveInput, Fields, NamedField, UnnamedField, Variant};
use crate::text::{decimal, decimal_text};
use crate::token::Span;

verus! {

/// A field known by its position.
#[derive(Debug)]
pub struct SerializedUnnamedField {
    pub attrs: FieldAttributes,
    /// The field's position among the declared fields, from zero.
    pub index: usize,
    /// The name the field is bound to inside generated code: `arg_` and
    /// the position.
    pub id: String,
    /// The field's type as source text.
    pub ty: String,
}

/// A field known by its name.
#[derive(Debug)]
pub struct SerializedNamedField {
    pub attrs: FieldAttributes,
    /// The field's identifier as written.
    pub id: String,
    /// The field's type as source text.
    pub ty: String,
    /// Where the field stands.
    pub span: Span,
}

/// The fields of a record or of one arm of a union.
#[derive(Debug)]
pub enum SerializedFields {
    Unit,
    Unnamed(Vec<SerializedUnnamedField>),
    Named(Vec<SerializedNamedField>),
}

/// A field known by its position, as plain values.
pub struct PositionalField {
    pub attrs: FieldAttributesView,
    pub index: nat,
    pub id: Seq<char>,
    pub ty: Seq<char>,
}

/// A field known by its name, as plain values.
pub struct NamedFieldShape {
    pub attrs: FieldAttributesView,
    pub id: Seq<char>,
    pub ty: Seq<char>,
    pub span: Span,
}

impl NamedFieldShape {
    /// The field's name on the wire.
    pub open spec fn name(self) -> Seq<char> {
        self.attrs.name(self.id)
    }
}

/// The shape of a record or arm: what `SerializedFields` holds, as plain
/// values.
pub enum Shape {
    /// No payload.
    Unit,
    /// Fields in order of position.
    Positional(Seq<PositionalField>),
    /// Fields in order of declaration, each with a name.
    Named(Seq<NamedFieldShape>),
}

impl View for SerializedUnnamedField {
    type V = PositionalField;

    open spec fn view(&self) -> PositionalField {
        PositionalField { attrs: self.attrs@, index: self.index as nat, id: self.id@, ty: self.ty@ }
    }
}

impl View for SerializedNamedField {
    type V = NamedFieldShape;

    open spec fn view(&self) -> NamedFieldShape {
        NamedFieldShape { attrs: self.attrs@, id: self.id@, ty: self.ty@, span: self.span }
    }
}

/// The views of a sequence of positional fields.
pub open spec fn positional_views(v: Seq<SerializedUnnamedField>) -> Seq<PositionalField> {
    v.map_values(|f: SerializedUnnamedField| f@)
}

/// The views of a sequence of named fields.
pub open spec fn named_views(v: Seq<SerializedNamedField>) -> Seq<NamedFieldShape> {
    v.map_values(|f: SerializedNamedField| f@)
}

impl View for SerializedFields {
    type V = Shape;

    open spec fn view(&self) -> Shape {
        match *self {
            SerializedFields::Unit => Shape::Unit,
            SerializedFields::Unnamed(v) => Shape::Positional(positional_views(v@)),
            SerializedFields::Named(v) => Shape::Named(named_views(v@)),
        }
    }
}

/// The answers about the attributes of the field at position `i`; none
/// where no answers were given for it.
pub open spec fn field_replies(replies: Seq<Vec<Vec<Reply>>>, i: int) -> Seq<Vec<Reply>> {
    if 0 <= i < replies.len() {
        replies[i]@
    } else {
        Seq::empty()
    }
}

/// The name that the field at position `i` is bound to in generated code.
pub open spec fn arg_name(i: nat) -> Seq<char> {
    "arg_"@ + decimal_text(i)
}

/// The first `n` positional fields with their attributes read; the first
/// field whose attributes are refused gives the error.
pub open spec fn positional_shape(
    fields: Seq<UnnamedField>,
    replies: Seq<Vec<Vec<Reply>>>,
    n: nat,
) -> Result<
    Seq<PositionalField>,
    Error,
>
    decreases n,
{
    if n == 0 || n > fields.len() {
        Ok(Seq::empty())
    } else {
        match positional_shape(fields, replies, (n - 1) as nat) {
            Err(err) => Err(err),
            Ok(done) => {
                let f = fields[n - 1];
                match field_attributes_of(
                    f.attrs@,
                    field_replies(replies, n - 1),
                    f.attrs@.len(),
                ) {
                    Err(err) => Err(err),
                    Ok(attrs) => Ok(
                        done.push(
                            PositionalField {
                                attrs,
                                index: (n - 1) as nat,
                                id: arg_name((n - 1) as nat),
                                ty: f.ty@,
                            },
                        ),
                    ),
                }
            },
        }
    }
}

/// The first `n` named fields with their attributes read; the first field
/// whose attributes are refused gives the error.
pub open spec fn named_shape(
    fields: Seq<NamedField>,
    replies: Seq<Vec<Vec<Reply>>>,
    n: nat,
) -> Result<
    Seq<NamedFieldShape>,
    Error,
>
    decreases n,
{
    if n == 0 || n > fields.len() {
        Ok(Seq::empty())
    } else {
        match named_shape(fields, replies, (n - 1) as nat) {
            Err(err) => Err(err),
            Ok(done) => {
                let f = fields[n - 1];
                match field_attributes_of(
                    f.attrs@,
                    field_replies(replies, n - 1),
                    f.attrs@.len(),
                ) {
                    Err(err) => Err(err),
                    Ok(attrs) => Ok(
                        done.push(NamedFieldShape { attrs, id: f.ident@, ty: f.ty@, span: f.span }),
                    ),
                }
            },
        }
    }
}

/// The shape of a field list: an empty list has no payload, a list
/// without names is positional, a list with names is named.
pub open spec fn shape_of(fields: Fields, replies: Seq<Vec<Vec<Reply>>>) -> Result<Shape, Error> {
    match fields {
        Fields::Unit => Ok(Shape::Unit),
        Fields::Unnamed(v) => if v@.len() == 0 {
            Ok(Shape::Unit)
        } else {
            match positional_shape(v@, replies, v@.len()) {
                Ok(s) => Ok(Shape::Positional(s)),
                Err(err) => Err(err),
            }
        },
        Fields::Named(v) => if v@.len() == 0 {
            Ok(Shape::Unit)
        } else {
            match named_shape(v@, replies, v@.len()) {
                Ok(s) => Ok(Shape::Named(s)),
                Err(err) => Err(err),
            }
        },
    }
}

proof fn lemma_positional_stop(
    fields: Seq<UnnamedField>,
    replies: Seq<Vec<Vec<Reply>>>,
    i: nat,
    n: nat,
)
    requires
        i <= n <= fields.len(),
        positional_shape(fields, replies, i) is Err,
    ensures
        positional_shape(fields, replies, n) == positional_shape(fields, replies, i),
    decreases n,
{
    if n > i {
        lemma_positional_stop(fields, replies, i, (n - 1) as nat);
    }
}

proof fn lemma_named_stop(
    fields: Seq<NamedField>,
    replies: Seq<Vec<Vec<Reply>>>,
    i: nat,
    n: nat,
)
    requires
        i <= n <= fields.len(),
        named_shape(fields, replies, i) is Err,
    ensures
        named_shape(fields, replies, n) == named_shape(fields, replies, i),
    decreases n,
{
    if n > i {
        lemma_named_stop(fields, replies, i, (n - 1) as nat);
    }
}

/// A shape keeps every declared field, in order.
pub proof fn lemma_shape_keeps_fields(fields: Fields, replies: Seq<Vec<Vec<Reply>>>)
    ensures
        match shape_of(fields, replies) {
            Ok(Shape::Unit) => match fields {
                Fields::Unit => true,
                Fields::Unnamed(v) => v@.len() == 0,
                Fields::Named(v) => v@.len() == 0,
            },
            Ok(Shape::Positional(s)) => fields is Unnamed && s.len() == fields->Unnamed_0@.len()
                && s.len() > 0 && forall|i: int|
                0 <= i < s.len() ==> (#[trigger] s[i]).index == i && s[i].ty
                    == fields->Unnamed_0@[i].ty@,
            Ok(Shape::Named(s)) => fields is Named && s.len() == fields->Named_0@.len() && s.len()
                > 0 && forall|i: int|
                0 <= i < s.len() ==> (#[trigger] s[i]).id == fields->Named_0@[i].ident@ && s[i].ty
                    == fields->Named_0@[i].ty@,
            Err(_) => true,
        },
{
    match fields {
        Fields::Unit => {},
        Fields::Unnamed(v) => {
            lemma_positional_keeps(v@, replies, v@.len());
        },
        Fields::Named(v) => {
            lemma_named_keeps(v@, replies, v@.len());
        },
    }
}

proof fn lemma_positional_keeps(
    fields: Seq<UnnamedField>,
    replies: Seq<Vec<Vec<Reply>>>,
    n: nat,
)
    requires
        n <= fields.len(),
    ensures
        match positional_shape(fields, replies, n) {
            Ok(s) => s.len() == n && forall|i: int|
                0 <= i < s.len() ==> (#[trigger] s[i]).index == i && s[i].ty == fields[i].ty@,
            Err(_) => true,
        },
    decreases n,
{
    if n > 0 {
        lemma_positional_keeps(fields, replies, (n - 1) as nat);
    }
}

proof fn lemma_named_keeps(fields: Seq<NamedField>, replies: Seq<Vec<Vec<Reply>>>, n: nat)
    requires
        n <= fields.len(),
    ensures
        match named_shape(fields, replies, n) {
            Ok(s) => s.len() == n && forall|i: int|
                0 <= i < s.len() ==> (#[trigger] s[i]).id == fields[i].ident@ && s[i].ty
                    == fields[i].ty@,
            Err(_) => true,
        },
    decreases n,
{
    if n > 0 {
        lemma_named_keeps(fields, replies, (n - 1) as nat);
    }
}

impl SerializedFields {
    /// Reads the attributes of every field and gives the list its shape.
    /// The first field whose attributes are refused gives the error. The
    /// parser is asked about the arguments of the attributes, and they are
    /// read with the answers that came back.
    pub fn new(fields: &Fields) -> (r: Result<SerializedFields, Error>)
        ensures
            exists|replies: Seq<Vec<Vec<Reply>>>|
                asked_fields(*fields, replies) && #[trigger] shape_of(*fields, replies) == viewed(
                    r,
                ),
    {
        let replies = ask_fields(fields);
        let r = SerializedFields::new_with(fields, &replies);
        assert(shape_of(*fields, replies@) == viewed(r));
        r
    }

    /// Gives a field list its shape, reading the attributes of every field
    /// with the answers that the parser gave about their arguments: for
    /// each field and each of its attributes, one answer for each token.
    pub fn new_with(fields: &Fields, replies: &Vec<Vec<Vec<Reply>>>) -> (r: Result<
        SerializedFields,
        Error,
    >)
        ensures
            shape_of(*fields, replies@) == viewed(r),
    {
        let none: Vec<Vec<Reply>> = Vec::new();
        match fields {
            Fields::Unit => Ok(SerializedFields::Unit),
            Fields::Unnamed(v) => {
                if v.len() == 0 {
                    return Ok(SerializedFields::Unit);
                }
                let mut out: Vec<SerializedUnnamedField> = Vec::new();
                let mut i: usize = 0;
                assert(positional_views(out@) =~= Seq::empty());
                while i < v.len()
                    invariant
                        i <= v.len(),
                        v.len() > 0,
                        none@.len() == 0,
                        *fields == Fields::Unnamed(*v),
                        positional_shape(
                            v@,
                            replies@,
                            i as nat,
                        ) == Ok::<Seq<PositionalField>, Error>(
                            positional_views(out@),
                        ),
                    decreases v.len() - i,
                {
                    let answers = if i < replies.len() {
                        &replies[i]
                    } else {
                        &none
                    };
                    assert(answers@ =~= field_replies(replies@, i as int));
                    let attrs = match FieldAttributes::parse_attributes_with(
                        &v[i].attrs,
                        answers,
                    ) {
                        Ok(a) => a,
                        Err(err) => {
                            proof {
                                assert(positional_shape(v@, replies@, (i + 1) as nat) is Err);
                                lemma_positional_stop(v@, replies@, (i + 1) as nat, v@.len());
                            }
                            return Err(err);
                        },
                    };
                    let mut id = String::from_str("arg_");
                    id.append(decimal(i as u64).as_str());
                    let f = SerializedUnnamedField { attrs, index: i, id, ty: v[i].ty.clone() };
                    let ghost before = out@;
                    let ghost shape = f@;
                    out.push(f);
                    assert(positional_views(out@) =~= positional_views(before).push(shape));
                    i += 1;
                }
                Ok(SerializedFields::Unnamed(out))
            },
            Fields::Named(v) => {
                if v.len() == 0 {
                    return Ok(SerializedFields::Unit);
                }
                let mut out: Vec<SerializedNamedField> = Vec::new();
                let mut i: usize = 0;
                assert(named_views(out@) =~= Seq::empty());
                while i < v.len()
                    invariant
                        i <= v.len(),
                        v.len() > 0,
                        none@.len() == 0,
                        *fields == Fields::Named(*v),
                        named_shape(v@, replies@, i as nat) == Ok::<Seq<NamedFieldShape>, Error>(
                            named_views(out@),
                        ),
                    decreases v.len() - i,
                {
                    let answers = if i < replies.len() {
                        &replies[i]
                    } else {
                        &none
                    };
                    assert(answers@ =~= field_replies(replies@, i as int));
                    let attrs = match FieldAttributes::parse_attributes_with(
                        &v[i].attrs,
                        answers,
                    ) {
                        Ok(a) => a,
                        Err(err) => {
                            proof {
                                assert(named_shape(v@, replies@, (i + 1) as nat) is Err);
                                lemma_named_stop(v@, replies@, (i + 1) as nat, v@.len());
                            }
                            return Err(err);
                        },
                    };
                    let f = SerializedNamedField {
                        attrs,
                        id: v[i].ident.clone(),
                        ty: v[i].ty.clone(),
                        span: v[i].span,
                    };
                    let ghost before = out@;
                    let ghost shape = f@;
                    out.push(f);
                    assert(named_views(out@) =~= named_views(before).push(shape));
                    i += 1;
                }
                Ok(SerializedFields::Named(out))
            },
        }
    }
}

/// Whether `replies` are answers about the arguments in the attributes of
/// the fields: for each field, answers about its attributes.
pub open spec fn asked_fields(fields: Fields, replies: Seq<Vec<Vec<Reply>>>) -> bool {
    match fields {
        Fields::Unit => replies.len() == 0,
        Fields::Unnamed(v) => replies.len() == v@.len() && forall|i: int|
            0 <= i < v@.len() ==> asked_attributes((#[trigger] v@[i]).attrs@, replies[i]@),
        Fields::Named(v) => replies.len() == v@.len() && forall|i: int|
            0 <= i < v@.len() ==> asked_attributes((#[trigger] v@[i]).attrs@, replies[i]@),
    }
}

/// Asks the parser about the arguments in the attributes of every field:
/// for each field and each of its attributes, one answer for each token.
pub fn ask_fields(fields: &Fields) -> (replies: Vec<Vec<Vec<Reply>>>)
    ensures
        asked_fields(*fields, replies@),
{
    let mut replies: Vec<Vec<Vec<Reply>>> = Vec::new();
    match fields {
        Fields::Unit => {},
        Fields::Unnamed(v) => {
            let mut i: usize = 0;
            while i < v.len()
                invariant
                    i <= v.len(),
                    replies@.len() == i,
                    forall|j: int|
                        0 <= j < i ==> asked_attributes((#[trigger] v@[j]).attrs@, replies@[j]@),
                decreases v.len() - i,
            {
                replies.push(ask_attributes(&v[i].attrs));
                i += 1;
            }
        },
        Fields::Named(v) => {
            let mut i: usize = 0;
            while i < v.len()
                invariant
                    i <= v.len(),
                    replies@.len() == i,
                    forall|j: int|
                        0 <= j < i ==> asked_attributes((#[trigger] v@[j]).attrs@, replies@[j]@),
                decreases v.len() - i,
            {
                replies.push(ask_attributes(&v[i].attrs));
                i += 1;
            }
        },
    }
    replies
}

/// What the parser answered about the arguments in the attributes of a
/// whole declaration.
#[derive(Debug)]
pub struct Replies {
    /// About the attributes of the type: for each attribute, one answer
    /// for each token of its list.
    pub attrs: Vec<Vec<Reply>>,
    /// About the attributes of the fields: one list for the fields of a
    /// struct, one list for each arm of an enum, in order.
    pub fields: Vec<Vec<Vec<Vec<Reply>>>>,
}

/// The answers about the fields of the arm at position `i` (of a struct,
/// at position zero); none where no answers were given for it.
pub open spec fn fields_replies(replies: Seq<Vec<Vec<Vec<Reply>>>>, i: int) -> Seq<
    Vec<Vec<Reply>>,
> {
    if 0 <= i < replies.len() {
        replies[i]@
    } else {
        Seq::empty()
    }
}

/// Gives the field list of the arm at position `i` (of a struct, at
/// position zero) its shape, with the answers about that list.
pub fn shape_with(fields: &Fields, replies: &Vec<Vec<Vec<Vec<Reply>>>>, i: usize) -> (r: Result<
    SerializedFields,
    Error,
>)
    ensures
        shape_of(*fields, fields_replies(replies@, i as int)) == viewed(r),
{
    if i < replies.len() {
        SerializedFields::new_with(fields, &replies[i])
    } else {
        let none: Vec<Vec<Vec<Reply>>> = Vec::new();
        assert(none@ =~= fields_replies(replies@, i as int));
        SerializedFields::new_with(fields, &none)
    }
}

/// Whether `replies` are answers about the arguments in the attributes of
/// the arms' fields: for each arm, answers about its fields.
pub open spec fn asked_variants(
    variants: Seq<Variant>,
    replies: Seq<Vec<Vec<Vec<Reply>>>>,
) -> bool {
    replies.len() == variants.len() && forall|i: int|
        0 <= i < variants.len() ==> asked_fields((#[trigger] variants[i]).fields, replies[i]@)
}

/// Whether `replies` are answers about the arguments in the attributes of
/// a declaration: about those of the type, and about those of the fields
/// of a struct or of each arm of an enum.
pub open spec fn asked_input(input: DeriveInput, replies: Replies) -> bool {
    asked_attributes(input.attrs@, replies.attrs@) && match input.data {
        Data::Struct(s) => replies.fields@.len() == 1 && asked_fields(
            s.fields,
            replies.fields@[0]@,
        ),
        Data::Enum(e) => asked_variants(e.variants@, replies.fields@),
        Data::Union(_) => replies.fields@.len() == 0,
    }
}

/// Asks the parser about the arguments in the attributes of the fields of
/// each arm.
pub fn ask_variants(variants: &Vec<Variant>) -> (replies: Vec<Vec<Vec<Vec<Reply>>>>)
    ensures
        asked_variants(variants@, replies@),
{
    let mut replies: Vec<Vec<Vec<Vec<Reply>>>> = Vec::new();
    let mut i: usize = 0;
    while i < variants.len()
        invariant
            i <= variants.len(),
            replies@.len() == i,
            forall|j: int|
                0 <= j < i ==> asked_fields((#[trigger] variants@[j]).fields, replies@[j]@),
        decreases variants.len() - i,
    {
        replies.push(ask_fields(&variants[i].fields));
        i += 1;
    }
    replies
}

/// Asks the parser about the arguments in every `seeded` attribute of a
/// declaration: those of the type, and those of each field.
pub fn ask_input(input: &DeriveInput) -> (replies: Replies)
    ensures
        asked_input(*input, replies),
{
    let attrs = ask_attributes(&input.attrs);
    let fields = match &input.data {
        Data::Struct(s) => {
            let mut fields: Vec<Vec<Vec<Vec<Reply>>>> = Vec::new();
            fields.push(ask_fields(&s.fields));
            fields
        },
        Data::Enum(e) => ask_variants(&e.variants),
        Data::Union(_) => Vec::new(),
    };
    Replies { attrs, fields }
}

impl SerializedNamedField {
    /// The field's name on the wire.
    pub fn name(&self) -> (r: String)
        ensures
            r@ == self@.name(),
    {
        self.attrs.name(self.id.as_str())
    }
}

/// For each positional field, whether it is skipped.
pub open spec fn positional_skips(fields: Seq<PositionalField>) -> Seq<bool> {
    fields.map_values(|f: PositionalField| f.attrs.skip)
}

/// For each named field, whether it is skipped.
pub open spec fn named_skips(fields: Seq<NamedFieldShape>) -> Seq<bool> {
    fields.map_values(|f: NamedFieldShape| f.attrs.skip)
}

/// How many of the first `n` fields are not skipped.
pub open spec fn unskipped(skips: Seq<bool>, n: nat) -> nat
    decreases n,
{
    if n == 0 || n > skips.len() {
        0
    } else {
        unskipped(skips, (n - 1) as nat) + if skips[n - 1] {
            0nat
        } else {
            1nat
        }
    }
}

/// The first of the first `n` fields that is not skipped.
pub open spec fn first_unskipped(skips: Seq<bool>, n: nat) -> Option<int>
    decreases n,
{
    if n == 0 || n > skips.len() {
        None
    } else {
        match first_unskipped(skips, (n - 1) as nat) {
            Some(i) => Some(i),
            None => if skips[n - 1] {
                None
            } else {
                Some(n - 1)
            },
        }
    }
}

/// The count of fields that are not skipped is at most the count of
/// fields, and there is a first such field exactly when the count is not
/// zero.
pub proof fn lemma_unskipped(skips: Seq<bool>, n: nat)
    requires
        n <= skips.len(),
    ensures
        unskipped(skips, n) <= n,
        first_unskipped(skips, n) is Some <==> unskipped(skips, n) > 0,
        match first_unskipped(skips, n) {
            Some(i) => 0 <= i < n && !skips[i] && forall|j: int| 0 <= j < i ==> skips[j],
            None => forall|j: int| 0 <= j < n ==> skips[j],
        },
    decreases n,
{
    if n > 0 {
        lemma_unskipped(skips, (n - 1) as nat);
    }
}

/// For each field of a list with names, whether it is skipped.
pub fn skips_of_named(fields: &[SerializedNamedField]) -> (r: Vec<bool>)
    ensures
        r@ == named_skips(named_views(fields@)),
{
    let mut r: Vec<bool> = Vec::new();
    let mut i: usize = 0;
    while i < fields.len()
        invariant
            i <= fields.len(),
            r@ == named_skips(named_views(fields@)).take(i as int),
        decreases fields.len() - i,
    {
        r.push(fields[i].attrs.skip);
        assert(r@ =~= named_skips(named_views(fields@)).take(i + 1));
        i += 1;
    }
    assert(r@ =~= named_skips(named_views(fields@)));
    r
}

/// For each field of a list without names, whether it is skipped.
pub fn skips_of_unnamed(fields: &[SerializedUnnamedField]) -> (r: Vec<bool>)
    ensures
        r@ == positional_skips(positional_views(fields@)),
{
    let mut r: Vec<bool> = Vec::new();
    let mut i: usize = 0;
    while i < fields.len()
        invariant
            i <= fields.len(),
            r@ == positional_skips(positional_views(fields@)).take(i as int),
        decreases fields.len() - i,
    {
        r.push(fields[i].attrs.skip);
        assert(r@ =~= positional_skips(positional_views(fields@)).take(i + 1));
        i += 1;
    }
    assert(r@ =~= positional_skips(positional_views(fields@)));
    r
}

/// Counts the fields that are not skipped.
pub fn count_unskipped(skips: &[bool]) -> (r: usize)
    ensures
        r == unskipped(skips@, skips@.len()),
{
    let mut count: usize = 0;
    let mut i: usize = 0;
    while i < skips.len()
        invariant
            i <= skips.len(),
            count <= i,
            count == unskipped(skips@, i as nat),
        decreases skips.len() - i,
    {
        if !skips[i] {
            count += 1;
        }
        i += 1;
    }
    count
}

/// Finds the first field that is not skipped.
pub fn find_unskipped(skips: &[bool]) -> (r: Option<usize>)
    ensures
        match r {
            Some(i) => first_unskipped(skips@, skips@.len()) == Some(i as int),
            None => first_unskipped(skips@, skips@.len()) is None,
        },
{
    let mut i: usize = 0;
    while i < skips.len()
        invariant
            i <= skips.len(),
            first_unskipped(skips@, i as nat) is None,
        decreases skips.len() - i,
    {
        if !skips[i] {
            proof {
                lemma_first_unskipped_stays(skips@, (i + 1) as nat, skips@.len());
            }
            return Some(i);
        }
        i += 1;
    }
    None
}

proof fn lemma_first_unskipped_stays(skips: Seq<bool>, i: nat, n: nat)
    requires
        i <= n <= skips.len(),
        first_unskipped(skips, i) is Some,
    ensures
        first_unskipped(skips, n) == first_unskipped(skips, i),
    decreases n,
{
    if n > i {
        lemma_first_unskipped_stays(skips, i, (n - 1) as nat);
    }
}

} // verus!
