//! The declaration a derive is asked for, as plain values: its name, its
//! generic parameters, and its fields or variants with their attributes.

use vstd::prelude::*;
use vstd::string::*;
use crate::token::{Span, TokenTree};

verus! {

/// What follows an attribute's path.
#[derive(Debug)]
pub enum Meta {
    /// Nothing: `#[seeded]`.
    Path,
    /// A bracketed list of tokens: `#[seeded(...)]`.
    List(Vec<TokenTree>),
    /// A value: `#[seeded = ...]`.
    NameValue,
}

/// One attribute written on a type or on a field.
#[derive(Debug)]
pub struct Attribute {
    /// The attribute's path as source text, `seeded` for the ones read here.
    pub path: String,
    /// What follows the path.
    pub meta: Meta,
    /// Where the attribute stands.
    pub span: Span,
}

/// The three kinds of generic parameter.
#[derive(Clone, Copy, Debug, PartialEq, Eq, Structural)]
pub enum ParamKind {
    /// `'a: 'b`
    Lifetime,
    /// `T: Bound`
    Type,
    /// `const N: usize`
    Const,
}

/// One generic parameter of a declaration. A default (`= ...`) is not
/// kept: no generated header repeats it.
#[derive(Debug)]
pub struct GenericParam {
    pub kind: ParamKind,
    /// The outer attributes on the parameter as source text, a blank
    /// after each; empty where there are none.
    pub attrs: String,
    /// The parameter's name; a lifetime's comes with its apostrophe.
    pub ident: String,
    /// What follows the colon: the bounds of a lifetime or of a type
    /// parameter (empty where there are none), the type of a const
    /// parameter.
    pub bounds: String,
}

impl Clone for GenericParam {
    fn clone(&self) -> (r: Self)
        ensures
            r == *self,
    {
        GenericParam {
            kind: self.kind,
            attrs: self.attrs.clone(),
            ident: self.ident.clone(),
            bounds: self.bounds.clone(),
        }
    }
}

/// One attribute written on a generic parameter.
#[derive(Debug)]
pub struct ParamAttribute {
    /// Whether the attribute is an outer one, `#[...]`, and not an inner
    /// one, `#![...]`.
    pub outer: bool,
    /// The attribute as source text.
    pub text: String,
}

/// The outer attributes among the first `n`, as they stand before a
/// parameter: each as written, a blank after it.
pub open spec fn outer_text(attrs: Seq<ParamAttribute>, n: nat) -> Seq<char>
    decreases n,
{
    if n == 0 || n > attrs.len() {
        Seq::empty()
    } else if attrs[n - 1].outer {
        outer_text(attrs, (n - 1) as nat) + attrs[n - 1].text@ + " "@
    } else {
        outer_text(attrs, (n - 1) as nat)
    }
}

impl GenericParam {
    /// The parameter of the given kind, name and bounds, with those of
    /// `attrs` that are outer attributes written before it.
    pub fn new(kind: ParamKind, attrs: &[ParamAttribute], ident: String, bounds: String) -> (r:
        GenericParam)
        ensures
            r.kind == kind,
            r.attrs@ == outer_text(attrs@, attrs@.len()),
            r.ident == ident,
            r.bounds == bounds,
    {
        let mut text = String::new();
        let mut i: usize = 0;
        while i < attrs.len()
            invariant
                i <= attrs.len(),
                text@ == outer_text(attrs@, i as nat),
            decreases attrs.len() - i,
        {
            if attrs[i].outer {
                text.append(attrs[i].text.as_str());
                text.append(" ");
            }
            i += 1;
        }
        GenericParam { kind, attrs: text, ident, bounds }
    }

    /// Whether this is a lifetime parameter.
    pub open spec fn spec_is_lifetime(&self) -> bool {
        self.kind == ParamKind::Lifetime
    }

    /// Whether this is a lifetime parameter.
    #[verifier::when_used_as_spec(spec_is_lifetime)]
    pub fn is_lifetime(&self) -> (r: bool)
        ensures
            r == self.spec_is_lifetime(),
    {
        self.kind == ParamKind::Lifetime
    }
}

/// One predicate of a `where` clause.
#[derive(Debug)]
pub struct WherePredicate {
    /// What the predicate bounds, as source text: the type left of the colon
    /// (`T` in `T: Clone`), or the lifetime (`'a` in `'a: 'b`).
    pub subject: String,
    /// The whole predicate as source text.
    pub text: String,
}

/// A predicate as plain text.
pub struct WherePredicateView {
    pub subject: Seq<char>,
    pub text: Seq<char>,
}

impl View for WherePredicate {
    type V = WherePredicateView;

    open spec fn view(&self) -> WherePredicateView {
        WherePredicateView { subject: self.subject@, text: self.text@ }
    }
}

/// The views of a sequence of predicates.
pub open spec fn predicate_views(v: Seq<WherePredicate>) -> Seq<WherePredicateView> {
    v.map_values(|p: WherePredicate| p@)
}

impl Clone for WherePredicate {
    fn clone(&self) -> (r: Self)
        ensures
            r == *self,
    {
        WherePredicate { subject: self.subject.clone(), text: self.text.clone() }
    }
}

/// The generic parameters of a declaration and its `where` clause.
#[derive(Debug)]
pub struct Generics {
    pub params: Vec<GenericParam>,
    pub where_clause: Vec<WherePredicate>,
}

/// Generic parameters and `where` predicates as plain values.
pub struct GenericsView {
    pub params: Seq<GenericParam>,
    pub where_clause: Seq<WherePredicateView>,
}

impl View for Generics {
    type V = GenericsView;

    open spec fn view(&self) -> GenericsView {
        GenericsView { params: self.params@, where_clause: predicate_views(self.where_clause@) }
    }
}

/// A copy of a list of generic parameters.
pub fn clone_params(v: &Vec<GenericParam>) -> (r: Vec<GenericParam>)
    ensures
        r@ == v@,
{
    let mut r: Vec<GenericParam> = Vec::new();
    let mut i: usize = 0;
    while i < v.len()
        invariant
            i <= v.len(),
            r@ == v@.take(i as int),
        decreases v.len() - i,
    {
        r.push(v[i].clone());
        assert(r@ =~= v@.take(i + 1));
        i += 1;
    }
    assert(v@.take(v.len() as int) =~= v@);
    r
}

/// A copy of a list of predicates.
pub fn clone_predicates(v: &Vec<WherePredicate>) -> (r: Vec<WherePredicate>)
    ensures
        r@ == v@,
{
    let mut r: Vec<WherePredicate> = Vec::new();
    let mut i: usize = 0;
    while i < v.len()
        invariant
            i <= v.len(),
            r@ == v@.take(i as int),
        decreases v.len() - i,
    {
        r.push(v[i].clone());
        assert(r@ =~= v@.take(i + 1));
        i += 1;
    }
    assert(v@.take(v.len() as int) =~= v@);
    r
}

impl Clone for Generics {
    fn clone(&self) -> (r: Self)
        ensures
            r@ == self@,
    {
        Generics {
            params: clone_params(&self.params),
            where_clause: clone_predicates(&self.where_clause),
        }
    }
}

/// A field with a name, `name: Type`.
#[derive(Debug)]
pub struct NamedField {
    pub attrs: Vec<Attribute>,
    /// The field's name as written (a raw identifier keeps its `r#`).
    pub ident: String,
    /// The field's type as source text.
    pub ty: String,
    /// Where the field stands.
    pub span: Span,
}

/// A field without a name, known by its position.
#[derive(Debug)]
pub struct UnnamedField {
    pub attrs: Vec<Attribute>,
    /// The field's type as source text.
    pub ty: String,
}

/// The fields of a struct or of an enum's variant, as they were declared.
#[derive(Debug)]
pub enum Fields {
    /// `{ a: A, b: B }`
    Named(Vec<NamedField>),
    /// `(A, B)`
    Unnamed(Vec<UnnamedField>),
    /// No field list at all.
    Unit,
}

/// One variant of an enum.
#[derive(Debug)]
pub struct Variant {
    pub ident: String,
    pub fields: Fields,
}

/// A struct's body.
#[derive(Debug)]
pub struct DataStruct {
    pub fields: Fields,
}

/// An enum's body.
#[derive(Debug)]
pub struct DataEnum {
    /// Where the word `enum` stands.
    pub enum_token: Span,
    pub variants: Vec<Variant>,
}

/// A union's body, of which only the place is needed.
#[derive(Debug)]
pub struct DataUnion {
    /// Where the word `union` stands.
    pub union_token: Span,
}

/// What kind of type is declared.
#[derive(Debug)]
pub enum Data {
    Struct(DataStruct),
    Enum(DataEnum),
    Union(DataUnion),
}

/// The declaration that a derive was requested on.
#[derive(Debug)]
pub struct DeriveInput {
    pub attrs: Vec<Attribute>,
    pub ident: String,
    pub generics: Generics,
    pub data: Data,
    /// Where the declaration stands.
    pub span: Span,
}

} // verus!
