//! The Rust grammar, asked of `syn`.
//!
//! The arguments of a `#[seeded(...)]` attribute hold types, paths, string
//! literals, generic parameters and `where` predicates. What these are is
//! Rust's own grammar; this module hands their source text to `syn` and
//! takes back plain values. Nothing is promised of an answer: which lexer
//! reads a text, and which printer writes one, is the host's choice. The
//! grammar of the attribute takes every answer as it comes.

use vstd::prelude::*;
use quote::ToTokens;
use syn::punctuated::Punctuated;
use crate::item::{ParamAttribute, ParamKind, WherePredicate};

verus! {

/// `syn::parse_str::<syn::Type>`: whether the whole of `text` is one type,
/// or else the parser's message.
#[verifier::external_body]
pub(crate) fn parse_type(text: &str) -> Result<(), String> {
    match syn::parse_str::<syn::Type>(text) {
        Ok(_) => Ok(()),
        Err(e) => Err(e.to_string()),
    }
}

/// `syn::parse_str::<syn::Path>`: whether the whole of `text` is one path,
/// or else the parser's message.
#[verifier::external_body]
pub(crate) fn parse_path(text: &str) -> Result<(), String> {
    match syn::parse_str::<syn::Path>(text) {
        Ok(_) => Ok(()),
        Err(e) => Err(e.to_string()),
    }
}

/// `syn::parse_str::<syn::LitStr>` and `LitStr::value`: the string that a
/// literal denotes, escapes resolved, or else the parser's message.
#[verifier::external_body]
pub(crate) fn parse_string_literal(text: &str) -> Result<String, String> {
    match syn::parse_str::<syn::LitStr>(text) {
        Ok(lit) => Ok(lit.value()),
        Err(e) => Err(e.to_string()),
    }
}

/// `Punctuated::<syn::GenericParam, _>::parse_terminated` on the whole of
/// `text`: each parameter as source text, in order, or else the parser's
/// message.
#[verifier::external_body]
pub(crate) fn parse_generic_params(text: &str) -> Result<Vec<String>, String> {
    let list = Punctuated::<syn::GenericParam, syn::token::Comma>::parse_terminated;
    match syn::parse::Parser::parse_str(list, text) {
        Ok(params) => Ok(params.iter().map(|p| p.to_token_stream().to_string()).collect()),
        Err(e) => Err(e.to_string()),
    }
}

/// `syn::parse_str::<syn::GenericParam>`: the parts of one parameter, each
/// as source text: its kind, its name, and its bounds or, for a const
/// parameter, its type; or else the parser's message. A default is left
/// behind.
#[verifier::external_body]
pub(crate) fn parse_generic_param(text: &str) -> Result<(ParamKind, String, String), String> {
    let code = |t: &dyn ToTokens| t.to_token_stream().to_string();
    match syn::parse_str(text) {
        Ok(syn::GenericParam::Lifetime(p)) => Ok(
            (ParamKind::Lifetime, code(&p.lifetime), code(&p.bounds)),
        ),
        Ok(syn::GenericParam::Type(p)) => Ok((ParamKind::Type, code(&p.ident), code(&p.bounds))),
        Ok(syn::GenericParam::Const(p)) => Ok((ParamKind::Const, code(&p.ident), code(&p.ty))),
        Err(e) => Err(e.to_string()),
    }
}

/// `syn::parse_str::<syn::GenericParam>`: the attributes written on one
/// parameter, each as source text and with its style; none where the
/// parser refuses the parameter.
#[verifier::external_body]
pub(crate) fn parse_param_attributes(text: &str) -> Vec<ParamAttribute> {
    let attrs = match syn::parse_str(text) {
        Ok(syn::GenericParam::Lifetime(p)) => p.attrs,
        Ok(syn::GenericParam::Type(p)) => p.attrs,
        Ok(syn::GenericParam::Const(p)) => p.attrs,
        Err(_) => Vec::new(),
    };
    attrs.iter().map(|a| ParamAttribute {
        outer: matches!(a.style, syn::AttrStyle::Outer),
        text: a.to_token_stream().to_string(),
    }).collect()
}

/// `Punctuated::<syn::WherePredicate, _>::parse_terminated` on the whole of
/// `text`: each predicate with the type or lifetime that it bounds, as
/// source text, or else the parser's message.
#[verifier::external_body]
pub(crate) fn parse_where_predicates(text: &str) -> Result<Vec<WherePredicate>, String> {
    let list = Punctuated::<syn::WherePredicate, syn::token::Comma>::parse_terminated;
    match syn::parse::Parser::parse_str(list, text) {
        Ok(predicates) => Ok(predicates.iter().map(|p| WherePredicate {
            subject: match p {
                syn::WherePredicate::Type(t) => t.bounded_ty.to_token_stream().to_string(),
                syn::WherePredicate::Lifetime(l) => l.lifetime.to_string(),
                _ => String::new(),
            },
            text: p.to_token_stream().to_string(),
        }).collect()),
        Err(e) => Err(e.to_string()),
    }
}

} // verus!
