use serde_seeded::token::{render, Delimiter, Spacing, Span, TokenTree};

fn ident(s: &str) -> TokenTree {
    TokenTree::Ident(s.to_string(), Span::CallSite)
}

fn punct(c: char, spacing: Spacing) -> TokenTree {
    TokenTree::Punct(c, spacing, Span::CallSite)
}

fn group(d: Delimiter, inner: Vec<TokenTree>) -> TokenTree {
    TokenTree::Group(d, inner, Span::CallSite)
}

#[test]
fn nothing_renders_as_nothing() {
    assert_eq!(render(&vec![]), "");
}

#[test]
fn tokens_are_followed_by_a_blank() {
    let tokens = vec![ident("a"), punct('+', Spacing::Alone), TokenTree::Literal("1".to_string(), Span::CallSite)];
    assert_eq!(render(&tokens), "a + 1 ");
}

#[test]
fn joint_punctuation_is_glued_to_what_follows() {
    let tokens = vec![
        ident("std"),
        punct(':', Spacing::Joint),
        punct(':', Spacing::Alone),
        ident("vec"),
        punct(':', Spacing::Joint),
        punct(':', Spacing::Alone),
        ident("Vec"),
        punct('<', Spacing::Alone),
        punct('&', Spacing::Alone),
        punct('\'', Spacing::Joint),
        ident("a"),
        ident("T"),
        punct('>', Spacing::Alone),
    ];
    let text = render(&tokens);
    assert_eq!(text, "std :: vec :: Vec < & 'a T > ");
    assert!(syn::parse_str::<syn::Type>(&text).is_ok());
}

#[test]
fn groups_are_rendered_with_their_brackets() {
    let tokens = vec![
        group(Delimiter::Parenthesis, vec![ident("A"), punct(',', Spacing::Alone), ident("B")]),
        group(Delimiter::Bracket, vec![ident("u8"), punct(';', Spacing::Alone), TokenTree::Literal("4".to_string(), Span::CallSite)]),
        group(Delimiter::Brace, vec![]),
        group(Delimiter::Invisible, vec![ident("x"), group(Delimiter::Parenthesis, vec![group(Delimiter::Bracket, vec![ident("y")])])]),
    ];
    assert_eq!(render(&tokens), "( A , B ) [ u8 ; 4 ] { } x ( [ y ] ) ");
}

#[test]
fn a_token_knows_where_it_stands() {
    assert_eq!(TokenTree::Ident("a".to_string(), Span::At(3)).span(), Span::At(3));
    assert_eq!(TokenTree::Punct(',', Spacing::Alone, Span::At(4)).span(), Span::At(4));
    assert_eq!(TokenTree::Literal("1".to_string(), Span::At(5)).span(), Span::At(5));
    assert_eq!(TokenTree::Group(Delimiter::Brace, vec![], Span::At(6)).span(), Span::At(6));
    assert_eq!(Span::call_site(), Span::CallSite);
}
