//! The tokens of an attribute's argument list, as plain values.
//!
//! A front end hands over what it lexed: identifiers, punctuation, literals
//! and delimited groups, each with the source location it was read at. The
//! grammar of `#[seeded(...)]` is read from these trees.

use vstd::prelude::*;
use vstd::string::*;

verus! {

/// A source location. The front end numbers the locations it hands over;
/// the library carries them into the errors it reports.
#[derive(Clone, Copy, Debug, PartialEq, Eq, Structural)]
pub enum Span {
    /// The place where the derive was requested.
    CallSite,
    /// A location of the front end's own numbering.
    At(u64),
}

impl Span {
    /// The location of the derive request itself.
    pub fn call_site() -> (r: Span)
        ensures
            r == Span::CallSite,
    {
        Span::CallSite
    }
}

/// The brackets around a group of tokens.
#[derive(Clone, Copy, Debug, PartialEq, Eq, Structural)]
pub enum Delimiter {
    /// `( ... )`
    Parenthesis,
    /// `{ ... }`
    Brace,
    /// `[ ... ]`
    Bracket,
    /// No visible bracket.
    Invisible,
}

/// Whether a punctuation character is glued to the token after it.
#[derive(Clone, Copy, Debug, PartialEq, Eq, Structural)]
pub enum Spacing {
    /// Followed by something else: `+` in `+ 1`.
    Alone,
    /// Glued to the next punctuation or identifier: the first `:` of `::`,
    /// the `'` of a lifetime.
    Joint,
}

/// One token, or a bracketed group of them.
#[derive(Debug)]
pub enum TokenTree {
    /// A bracketed sequence of tokens.
    Group(Delimiter, Vec<TokenTree>, Span),
    /// A word, as written (a raw identifier keeps its `r#`).
    Ident(String, Span),
    /// One punctuation character.
    Punct(char, Spacing, Span),
    /// A literal, as written in the source.
    Literal(String, Span),
}

impl TokenTree {
    /// Where the token was read.
    pub open spec fn spec_span(&self) -> Span {
        match *self {
            TokenTree::Group(_, _, s) => s,
            TokenTree::Ident(_, s) => s,
            TokenTree::Punct(_, _, s) => s,
            TokenTree::Literal(_, s) => s,
        }
    }

    /// Where the token was read.
    #[verifier::when_used_as_spec(spec_span)]
    pub fn span(&self) -> (r: Span)
        ensures
            r == self.spec_span(),
    {
        match self {
            TokenTree::Group(_, _, s) => *s,
            TokenTree::Ident(_, s) => *s,
            TokenTree::Punct(_, _, s) => *s,
            TokenTree::Literal(_, s) => *s,
        }
    }
}

/// The opening bracket of a group, as text.
pub open spec fn open_text(d: Delimiter) -> Seq<char> {
    match d {
        Delimiter::Parenthesis => seq!['(', ' '],
        Delimiter::Brace => seq!['{', ' '],
        Delimiter::Bracket => seq!['[', ' '],
        Delimiter::Invisible => Seq::empty(),
    }
}

/// The closing bracket of a group, as text.
pub open spec fn close_text(d: Delimiter) -> Seq<char> {
    match d {
        Delimiter::Parenthesis => seq![')', ' '],
        Delimiter::Brace => seq!['}', ' '],
        Delimiter::Bracket => seq![']', ' '],
        Delimiter::Invisible => Seq::empty(),
    }
}

/// The source text of one token tree: every token is followed by a blank,
/// except punctuation that is glued to what follows.
pub open spec fn tree_text(t: TokenTree) -> Seq<char>
    decreases t,
{
    match t {
        TokenTree::Group(d, inner, _) => open_text(d) + trees_text(inner@, inner@.len())
            + close_text(d),
        TokenTree::Ident(s, _) => s@.push(' '),
        TokenTree::Punct(c, spacing, _) => if spacing == Spacing::Joint {
            seq![c]
        } else {
            seq![c, ' ']
        },
        TokenTree::Literal(s, _) => s@.push(' '),
    }
}

/// The source text of the first `n` trees of `ts`.
pub open spec fn trees_text(ts: Seq<TokenTree>, n: nat) -> Seq<char>
    decreases ts, n,
{
    if n == 0 || n > ts.len() {
        Seq::empty()
    } else {
        trees_text(ts, (n - 1) as nat) + tree_text(ts[n - 1])
    }
}

/// The source text of a token sequence.
pub open spec fn tokens_text(ts: Seq<TokenTree>) -> Seq<char> {
    trees_text(ts, ts.len())
}

fn push_open(out: &mut String, d: Delimiter)
    ensures
        final(out)@ == old(out)@ + open_text(d),
{
    match d {
        Delimiter::Parenthesis => {
            out.push('(');
            out.push(' ');
        },
        Delimiter::Brace => {
            out.push('{');
            out.push(' ');
        },
        Delimiter::Bracket => {
            out.push('[');
            out.push(' ');
        },
        Delimiter::Invisible => {},
    }
    assert(out@ =~= old(out)@ + open_text(d));
}

fn push_close(out: &mut String, d: Delimiter)
    ensures
        final(out)@ == old(out)@ + close_text(d),
{
    match d {
        Delimiter::Parenthesis => {
            out.push(')');
            out.push(' ');
        },
        Delimiter::Brace => {
            out.push('}');
            out.push(' ');
        },
        Delimiter::Bracket => {
            out.push(']');
            out.push(' ');
        },
        Delimiter::Invisible => {},
    }
    assert(out@ =~= old(out)@ + close_text(d));
}

/// Writes a token sequence back as source text.
pub fn render(ts: &Vec<TokenTree>) -> (out: String)
    ensures
        out@ == tokens_text(ts@),
    decreases ts,
{
    let mut out = String::new();
    let mut i: usize = 0;
    while i < ts.len()
        invariant
            i <= ts.len(),
            out@ == trees_text(ts@, i as nat),
        decreases ts.len() - i,
    {
        let ghost before = out@;
        match &ts[i] {
            TokenTree::Group(d, inner, _) => {
                let s = render(inner);
                push_open(&mut out, *d);
                out.append(s.as_str());
                push_close(&mut out, *d);
            },
            TokenTree::Ident(s, _) => {
                out.append(s.as_str());
                out.push(' ');
            },
            TokenTree::Punct(c, spacing, _) => {
                out.push(*c);
                match spacing {
                    Spacing::Joint => {},
                    Spacing::Alone => {
                        out.push(' ');
                    },
                }
            },
            TokenTree::Literal(s, _) => {
                out.append(s.as_str());
                out.push(' ');
            },
        }
        assert(out@ =~= before + tree_text(ts@[i as int]));
        i += 1;
    }
    out
}

} // verus!
