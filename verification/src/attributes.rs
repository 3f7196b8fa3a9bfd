//! The `#[seeded(...)]` attribute: its grammar, and what it configures.
//!
//! An attribute holds a list of entries with commas between them. An entry
//! is a key, or a key with an argument in parentheses. Which keys exist,
//! and what their arguments are, depends on where the attribute stands: on
//! a field, on a type, or inside a `ser(...)`, `de(...)` or `serde(...)`
//! entry of a type. Attributes are read in the order they are written and
//! merged from left to right.

use vstd::prelude::*;
use vstd::string::*;
use crate::item::{
    Attribute, GenericParam, Meta, WherePredicate, WherePredicateView, clone_params,
    clone_predicates, predicate_views,
};
use crate::syntax::{
    parse_generic_param, parse_generic_params, parse_param_attributes, parse_path,
    parse_string_literal, parse_type, parse_where_predicates,
};
use crate::text::{clone_opt, opt_view, str_eq};
use crate::token::{Delimiter, Span, TokenTree, render, tokens_text};

verus! {

/// What is wrong inside an attribute's list.
#[derive(Debug)]
pub enum ParseErrorKind {
    /// An entry does not begin with a key.
    ExpectedIdent,
    /// The key is none of those that can stand here.
    UnexpectedIdent,
    /// The key needs an argument in parentheses, and none follows.
    ExpectedParentheses,
    /// Something other than a comma follows an entry.
    ExpectedComma,
    /// The argument is not what the key asks for; the parser's message.
    Syntax(String),
}

/// An error in an attribute's list, with the place it was found at.
#[derive(Debug)]
pub struct ParseError {
    pub span: Span,
    pub kind: ParseErrorKind,
}

/// Why a type's or a field's attributes could not be read.
#[derive(Debug)]
pub enum Error {
    /// A `seeded` attribute that is not of the form `#[seeded(...)]`.
    ExpectedMetaList(Span),
    /// The list inside the attribute is not well formed.
    Parse(ParseError),
    /// A seed specification that names no seed type.
    MissingSeed,
}

impl Error {
    /// Where the error is to be reported.
    pub open spec fn spec_span(&self) -> Span {
        match *self {
            Error::ExpectedMetaList(s) => s,
            Error::Parse(e) => e.span,
            Error::MissingSeed => Span::CallSite,
        }
    }

    /// Where the error is to be reported.
    #[verifier::when_used_as_spec(spec_span)]
    pub fn span(&self) -> (r: Span)
        ensures
            r == self.spec_span(),
    {
        match self {
            Error::ExpectedMetaList(s) => *s,
            Error::Parse(e) => e.span,
            Error::MissingSeed => Span::call_site(),
        }
    }

    /// The message of the error.
    pub open spec fn message(&self) -> Seq<char> {
        match *self {
            Error::ExpectedMetaList(_) => "expected an attribute of the form `#[seeded(...)]`"@,
            Error::Parse(e) => match e.kind {
                ParseErrorKind::ExpectedIdent => "expected identifier"@,
                ParseErrorKind::UnexpectedIdent => "unexpected ident"@,
                ParseErrorKind::ExpectedParentheses => "expected parentheses"@,
                ParseErrorKind::ExpectedComma => "expected `,`"@,
                ParseErrorKind::Syntax(m) => m@,
            },
            Error::MissingSeed => "missing seed type"@,
        }
    }

    /// The message of the error.
    pub fn to_string(&self) -> (r: String)
        ensures
            r@ == self.message(),
    {
        match self {
            Error::ExpectedMetaList(_) => String::from_str(
                "expected an attribute of the form `#[seeded(...)]`",
            ),
            Error::Parse(e) => match &e.kind {
                ParseErrorKind::ExpectedIdent => String::from_str("expected identifier"),
                ParseErrorKind::UnexpectedIdent => String::from_str("unexpected ident"),
                ParseErrorKind::ExpectedParentheses => String::from_str("expected parentheses"),
                ParseErrorKind::ExpectedComma => String::from_str("expected `,`"),
                ParseErrorKind::Syntax(m) => m.clone(),
            },
            Error::MissingSeed => String::from_str("missing seed type"),
        }
    }
}

/// What the parser answered about the argument of one entry. What it is
/// asked depends on the entry's key.
#[derive(Debug)]
pub enum Reply {
    /// Nothing was asked.
    Nothing,
    /// Whether the argument is a path, or a type: fine, or the parser's
    /// message.
    Syntax(Result<(), String>),
    /// The string that the argument denotes as a literal, or the parser's
    /// message.
    Literal(Result<String, String>),
    /// The generic parameters that the argument lists, each with the
    /// parser's answer about it, or the parser's message about the list.
    Params(Result<Vec<Result<GenericParam, String>>, String>),
    /// The `where` predicates that the argument lists, or the parser's
    /// message.
    Predicates(Result<Vec<WherePredicate>, String>),
    /// The argument is a list of entries itself: the answers about their
    /// arguments, one for each token of the list.
    Entries(Vec<Reply>),
}

/// The answer about the token at `pos`, if there is one.
pub open spec fn reply_at(replies: Seq<Reply>, pos: int) -> Option<Reply> {
    if 0 <= pos < replies.len() {
        Some(replies[pos])
    } else {
        None
    }
}

/// One entry of an attribute's list: a key, and the argument that follows
/// it in parentheses, if one does.
pub struct Entry {
    pub key: Seq<char>,
    /// Where the key stands.
    pub key_span: Span,
    /// The tokens inside the parentheses after the key, and where the
    /// parentheses stand.
    pub arg: Option<(Seq<TokenTree>, Span)>,
    /// What the parser answered about the argument.
    pub reply: Option<Reply>,
    /// Where the token after the key stands; where nothing follows, the
    /// place of the list itself.
    pub after: Span,
}

impl Entry {
    /// How many tokens the entry takes up.
    pub open spec fn width(self) -> int {
        if self.arg is Some {
            2
        } else {
            1
        }
    }
}

/// The parenthesised group at `pos`, if one stands there.
pub open spec fn arg_at(tokens: Seq<TokenTree>, pos: int) -> Option<(Seq<TokenTree>, Span)> {
    if 0 <= pos < tokens.len() {
        match tokens[pos] {
            TokenTree::Group(Delimiter::Parenthesis, inner, span) => Some((inner@, span)),
            _ => None,
        }
    } else {
        None
    }
}

/// Where the token at `pos` stands; past the end, the place of the list.
pub open spec fn span_at(tokens: Seq<TokenTree>, pos: int, scope: Span) -> Span {
    if 0 <= pos < tokens.len() {
        tokens[pos].span()
    } else {
        scope
    }
}

/// The entry that begins at `pos`, with the answer about its argument;
/// where no key stands there, the error.
pub open spec fn entry_at(
    tokens: Seq<TokenTree>,
    replies: Seq<Reply>,
    pos: int,
    scope: Span,
) -> Result<Entry, ParseError> {
    if 0 <= pos < tokens.len() && tokens[pos] is Ident {
        Ok(
            Entry {
                key: tokens[pos]->Ident_0@,
                key_span: tokens[pos]->Ident_1,
                arg: arg_at(tokens, pos + 1),
                reply: reply_at(replies, pos + 1),
                after: span_at(tokens, pos + 1, scope),
            },
        )
    } else {
        Err(ParseError { span: span_at(tokens, pos, scope), kind: ParseErrorKind::ExpectedIdent })
    }
}

/// Whether the token is a comma.
pub open spec fn is_comma(t: TokenTree) -> bool {
    t is Punct && t->Punct_0 == ','
}

/// The error of a key that takes no argument and is followed by one.
pub open spec fn stray_argument(e: Entry) -> ParseError {
    ParseError { span: e.after, kind: ParseErrorKind::ExpectedComma }
}

/// The error of a key that needs an argument and has none.
pub open spec fn missing_argument(e: Entry) -> ParseError {
    ParseError { span: e.after, kind: ParseErrorKind::ExpectedParentheses }
}

/// What becomes of the parser's answer about an argument: the value it
/// gave, or the error with its message, at the place of the argument.
pub open spec fn accepted<T>(span: Span, answer: Result<T, String>) -> Result<T, ParseError> {
    match answer {
        Ok(value) => Ok(value),
        Err(message) => Err(ParseError { span, kind: ParseErrorKind::Syntax(message) }),
    }
}

/// An entry as the functions below take it: borrowed from the token list
/// and from the answers.
pub struct EntryRef<'a> {
    pub key: &'a String,
    pub key_span: Span,
    pub arg: Option<(&'a Vec<TokenTree>, Span)>,
    pub reply: Option<&'a Reply>,
    pub after: Span,
}

impl<'a> View for EntryRef<'a> {
    type V = Entry;

    open spec fn view(&self) -> Entry {
        Entry {
            key: self.key@,
            key_span: self.key_span,
            arg: match self.arg {
                Some((inner, span)) => Some((inner@, span)),
                None => None,
            },
            reply: match self.reply {
                Some(reply) => Some(*reply),
                None => None,
            },
            after: self.after,
        }
    }
}

fn token_span_at(tokens: &Vec<TokenTree>, pos: usize, scope: Span) -> (r: Span)
    ensures
        r == span_at(tokens@, pos as int, scope),
{
    if pos < tokens.len() {
        tokens[pos].span()
    } else {
        scope
    }
}

/// Reads the entry that begins at `pos`.
pub fn read_entry<'a>(
    tokens: &'a Vec<TokenTree>,
    replies: &'a Vec<Reply>,
    pos: usize,
    scope: Span,
) -> (r: Result<EntryRef<'a>, ParseError>)
    ensures
        match r {
            Ok(e) => entry_at(tokens@, replies@, pos as int, scope) == Ok::<Entry, ParseError>(e@),
            Err(e) => entry_at(tokens@, replies@, pos as int, scope) == Err::<Entry, ParseError>(
                e,
            ),
        },
{
    if pos < tokens.len() {
        match &tokens[pos] {
            TokenTree::Ident(key, key_span) => {
                let mut arg: Option<(&'a Vec<TokenTree>, Span)> = None;
                let mut reply: Option<&'a Reply> = None;
                let mut after = scope;
                if pos + 1 < tokens.len() {
                    after = tokens[pos + 1].span();
                    match &tokens[pos + 1] {
                        TokenTree::Group(Delimiter::Parenthesis, inner, span) => {
                            arg = Some((inner, *span));
                        },
                        _ => {},
                    }
                }
                if pos + 1 < replies.len() {
                    reply = Some(&replies[pos + 1]);
                }
                return Ok(EntryRef { key, key_span: *key_span, arg, reply, after });
            },
            _ => {},
        }
    }
    Err(
        ParseError {
            span: token_span_at(tokens, pos, scope),
            kind: ParseErrorKind::ExpectedIdent,
        },
    )
}

/// A result with what it holds on success taken by its view.
pub open spec fn viewed<T: View, E>(r: Result<T, E>) -> Result<T::V, E> {
    match r {
        Ok(value) => Ok(value@),
        Err(e) => Err(e),
    }
}

/// The answers about the tokens of the attribute at position `i`; none
/// where no answers were given for it.
pub open spec fn replies_at(replies: Seq<Vec<Reply>>, i: int) -> Seq<Reply> {
    if 0 <= i < replies.len() {
        replies[i]@
    } else {
        Seq::empty()
    }
}

/// A key that takes no argument: fine unless one follows.
pub open spec fn no_arg(e: Entry) -> Result<(), ParseError> {
    if e.arg is Some {
        Err(stray_argument(e))
    } else {
        Ok(())
    }
}

/// The argument read as a path or as a type: its source text, where the
/// parser found it to be one. An argument that is not there, or that was
/// not asked about as one, counts as missing.
pub open spec fn text_arg(e: Entry) -> Result<Seq<char>, ParseError> {
    match (e.arg, e.reply) {
        (Some((inner, span)), Some(Reply::Syntax(answer))) => match accepted(span, answer) {
            Ok(_) => Ok(tokens_text(inner)),
            Err(err) => Err(err),
        },
        _ => Err(missing_argument(e)),
    }
}

/// The argument read as a string literal: the string it denotes.
pub open spec fn string_arg(e: Entry) -> Result<Seq<char>, ParseError> {
    match (e.arg, e.reply) {
        (Some((inner, span)), Some(Reply::Literal(answer))) => match accepted(span, answer) {
            Ok(value) => Ok(value@),
            Err(err) => Err(err),
        },
        _ => Err(missing_argument(e)),
    }
}

fn expect_no_arg(e: &EntryRef) -> (r: Result<(), ParseError>)
    ensures
        r == no_arg(e@),
{
    match e.arg {
        Some(_) => Err(ParseError { span: e.after, kind: ParseErrorKind::ExpectedComma }),
        None => Ok(()),
    }
}

fn missing(e: &EntryRef) -> (r: ParseError)
    ensures
        r == missing_argument(e@),
{
    ParseError { span: e.after, kind: ParseErrorKind::ExpectedParentheses }
}

fn refused(span: Span, message: &String) -> (r: ParseError)
    ensures
        r == (ParseError { span, kind: ParseErrorKind::Syntax(*message) }),
{
    ParseError { span, kind: ParseErrorKind::Syntax(message.clone()) }
}

fn read_text_arg(e: &EntryRef) -> (r: Result<String, ParseError>)
    ensures
        match r {
            Ok(s) => text_arg(e@) == Ok::<Seq<char>, ParseError>(s@),
            Err(err) => text_arg(e@) == Err::<Seq<char>, ParseError>(err),
        },
{
    match (e.arg, e.reply) {
        (Some((inner, span)), Some(Reply::Syntax(answer))) => match answer {
            Ok(_) => Ok(render(inner)),
            Err(m) => Err(refused(span, m)),
        },
        _ => Err(missing(e)),
    }
}

fn read_string_arg(e: &EntryRef) -> (r: Result<String, ParseError>)
    ensures
        match r {
            Ok(s) => string_arg(e@) == Ok::<Seq<char>, ParseError>(s@),
            Err(err) => string_arg(e@) == Err::<Seq<char>, ParseError>(err),
        },
{
    match (e.arg, e.reply) {
        (Some((inner, span)), Some(Reply::Literal(answer))) => match answer {
            Ok(value) => Ok(value.clone()),
            Err(m) => Err(refused(span, m)),
        },
        _ => Err(missing(e)),
    }
}

/// What is asked of the parser about an argument.
#[derive(Clone, Copy, Debug, PartialEq, Eq, Structural)]
pub enum Question {
    /// Nothing.
    Nothing,
    /// Whether it is a path, or a type.
    Syntax,
    /// Which string it denotes as a literal.
    Literal,
    /// Which generic parameters it lists.
    Params,
    /// Which `where` predicates it lists.
    Predicates,
    /// What is asked about a list of entries: the same of each of them.
    Entries,
}

/// What a key asks about its argument: a path for `with` and
/// `skip_serializing_if`, a type for `seed`, a string literal for
/// `rename`, generic parameters for `params`, `where` predicates for
/// `bounds` and `override_bounds`; the arguments of `ser`, `de` and `serde`
/// are lists of entries; any other key asks nothing.
pub open spec fn question_of(key: Seq<char>) -> Question {
    if key == "ser"@ || key == "de"@ || key == "serde"@ {
        Question::Entries
    } else if key == "with"@ || key == "skip_serializing_if"@ || key == "seed"@ {
        Question::Syntax
    } else if key == "rename"@ {
        Question::Literal
    } else if key == "params"@ {
        Question::Params
    } else if key == "bounds"@ || key == "override_bounds"@ {
        Question::Predicates
    } else {
        Question::Nothing
    }
}

/// What is asked about the token at `pos`: what the key before it asks,
/// where the token is a group in parentheses that follows a key; nothing
/// about any other token.
pub open spec fn question_at(tokens: Seq<TokenTree>, pos: int) -> Question {
    if 0 < pos < tokens.len() && tokens[pos - 1] is Ident && arg_at(tokens, pos) is Some {
        question_of(tokens[pos - 1]->Ident_0@)
    } else {
        Question::Nothing
    }
}

/// Whether a reply answers the question.
pub open spec fn answers(reply: Reply, question: Question) -> bool {
    match question {
        Question::Nothing => reply is Nothing,
        Question::Syntax => reply is Syntax,
        Question::Literal => reply is Literal,
        Question::Params => reply is Params,
        Question::Predicates => reply is Predicates,
        Question::Entries => reply is Entries,
    }
}

/// Whether `replies` are answers about the arguments in `tokens`: one for
/// each token, each to the question that is asked about it.
pub open spec fn asked(tokens: Seq<TokenTree>, replies: Seq<Reply>) -> bool {
    replies.len() == tokens.len() && forall|i: int|
        0 <= i < tokens.len() ==> answers(#[trigger] replies[i], question_at(tokens, i))
}

/// Whether `replies` are answers about the arguments in the `seeded`
/// attributes among `attrs`: for each attribute a list of answers, which
/// for a `seeded` attribute with a list are answers about that list.
pub open spec fn asked_attributes(attrs: Seq<Attribute>, replies: Seq<Vec<Reply>>) -> bool {
    replies.len() == attrs.len() && forall|i: int|
        0 <= i < attrs.len() && (#[trigger] attrs[i]).path@ == "seeded"@ && attrs[i].meta
            is List ==> asked(attrs[i].meta->List_0@, replies[i]@)
}

/// Asks the parser about one generic parameter, and puts its answer
/// together as a parameter.
fn ask_param(text: &str) -> Result<GenericParam, String> {
    match parse_generic_param(text) {
        Ok((kind, ident, bounds)) => {
            let attrs = parse_param_attributes(text);
            Ok(GenericParam::new(kind, attrs.as_slice(), ident, bounds))
        },
        Err(m) => Err(m),
    }
}

/// Asks the parser about a list of generic parameters, and then about
/// each parameter of the list.
fn ask_params(text: &str) -> Result<Vec<Result<GenericParam, String>>, String> {
    match parse_generic_params(text) {
        Err(m) => Err(m),
        Ok(texts) => {
            let mut answers: Vec<Result<GenericParam, String>> = Vec::new();
            let mut i: usize = 0;
            while i < texts.len()
                invariant
                    i <= texts.len(),
                decreases texts.len() - i,
            {
                answers.push(ask_param(texts[i].as_str()));
                i += 1;
            }
            Ok(answers)
        },
    }
}

/// Asks the parser what the key asks of its argument: a path for `with`
/// and `skip_serializing_if`, a type for `seed`, a string literal for
/// `rename`, generic parameters for `params`, `where` predicates for
/// `bounds` and `override_bounds`; nothing for any other key.
fn ask_text(key: &str, text: &str) -> (reply: Reply)
    requires
        question_of(key@) != Question::Entries,
    ensures
        answers(reply, question_of(key@)),
{
    if str_eq(key, "with") || str_eq(key, "skip_serializing_if") {
        Reply::Syntax(parse_path(text))
    } else if str_eq(key, "seed") {
        Reply::Syntax(parse_type(text))
    } else if str_eq(key, "rename") {
        Reply::Literal(parse_string_literal(text))
    } else if str_eq(key, "params") {
        Reply::Params(ask_params(text))
    } else if str_eq(key, "bounds") || str_eq(key, "override_bounds") {
        Reply::Predicates(parse_where_predicates(text))
    } else {
        Reply::Nothing
    }
}

/// Asks the parser about the arguments in a list of entries: one answer
/// for each token, which is `Nothing` for a token that is no argument. The
/// arguments of `ser`, `de` and `serde` are lists of entries themselves,
/// and are asked about in the same way.
pub fn ask(tokens: &Vec<TokenTree>) -> (replies: Vec<Reply>)
    ensures
        asked(tokens@, replies@),
    decreases tokens,
{
    let mut replies: Vec<Reply> = Vec::new();
    let mut i: usize = 0;
    while i < tokens.len()
        invariant
            i <= tokens.len(),
            replies@.len() == i,
            forall|j: int| 0 <= j < i ==> answers(#[trigger] replies@[j], question_at(tokens@, j)),
        decreases tokens.len() - i,
    {
        let mut reply = Reply::Nothing;
        if i > 0 {
            match &tokens[i - 1] {
                TokenTree::Ident(key, _) => match &tokens[i] {
                    TokenTree::Group(Delimiter::Parenthesis, inner, _) => {
                        let key = key.as_str();
                        if str_eq(key, "ser") || str_eq(key, "de") || str_eq(key, "serde") {
                            reply = Reply::Entries(ask(inner));
                        } else {
                            reply = ask_text(key, render(inner).as_str());
                        }
                    },
                    _ => {},
                },
                _ => {},
            }
        }
        replies.push(reply);
        i += 1;
    }
    replies
}

/// Asks the parser about the arguments in every `seeded` attribute: for
/// each attribute, one answer for each token of its list.
pub fn ask_attributes(attrs: &Vec<Attribute>) -> (replies: Vec<Vec<Reply>>)
    ensures
        asked_attributes(attrs@, replies@),
{
    let mut replies: Vec<Vec<Reply>> = Vec::new();
    let mut i: usize = 0;
    while i < attrs.len()
        invariant
            i <= attrs.len(),
            replies@.len() == i,
            forall|j: int|
                0 <= j < i && (#[trigger] attrs@[j]).path@ == "seeded"@ && attrs@[j].meta is List
                    ==> asked(attrs@[j].meta->List_0@, replies@[j]@),
        decreases attrs.len() - i,
    {
        let mut answers: Vec<Reply> = Vec::new();
        if str_eq(attrs[i].path.as_str(), "seeded") {
            match &attrs[i].meta {
                Meta::List(tokens) => {
                    answers = ask(tokens);
                },
                _ => {},
            }
        }
        replies.push(answers);
        i += 1;
    }
    replies
}

/// One entry of a field's attribute.
#[derive(Debug)]
pub enum FieldAttribute {
    /// `skip`
    Skip,
    /// `default`
    Default,
    /// `with(path)`
    With(String),
    /// `skip_serializing_if(path)`
    SkipSerializingIf(String),
    /// `rename("name")`
    Rename(String),
}

/// One entry of a field's attribute, as plain text.
pub enum FieldAttributeView {
    Skip,
    Default,
    With(Seq<char>),
    SkipSerializingIf(Seq<char>),
    Rename(Seq<char>),
}

impl View for FieldAttribute {
    type V = FieldAttributeView;

    open spec fn view(&self) -> FieldAttributeView {
        match *self {
            FieldAttribute::Skip => FieldAttributeView::Skip,
            FieldAttribute::Default => FieldAttributeView::Default,
            FieldAttribute::With(p) => FieldAttributeView::With(p@),
            FieldAttribute::SkipSerializingIf(p) => FieldAttributeView::SkipSerializingIf(p@),
            FieldAttribute::Rename(n) => FieldAttributeView::Rename(n@),
        }
    }
}

/// What an entry of a field's attribute says: `skip`, `default`,
/// `with(path)`, `skip_serializing_if(path)` or `rename("name")`. Any other
/// key is refused at the key.
pub open spec fn field_attribute_of(e: Entry) -> Result<FieldAttributeView, ParseError> {
    if e.key == "skip"@ {
        match no_arg(e) {
            Ok(_) => Ok(FieldAttributeView::Skip),
            Err(err) => Err(err),
        }
    } else if e.key == "default"@ {
        match no_arg(e) {
            Ok(_) => Ok(FieldAttributeView::Default),
            Err(err) => Err(err),
        }
    } else if e.key == "with"@ {
        match text_arg(e) {
            Ok(p) => Ok(FieldAttributeView::With(p)),
            Err(err) => Err(err),
        }
    } else if e.key == "skip_serializing_if"@ {
        match text_arg(e) {
            Ok(p) => Ok(FieldAttributeView::SkipSerializingIf(p)),
            Err(err) => Err(err),
        }
    } else if e.key == "rename"@ {
        match string_arg(e) {
            Ok(n) => Ok(FieldAttributeView::Rename(n)),
            Err(err) => Err(err),
        }
    } else {
        Err(ParseError { span: e.key_span, kind: ParseErrorKind::UnexpectedIdent })
    }
}

impl FieldAttribute {
    /// Reads one entry of a field's attribute.
    pub fn parse(e: &EntryRef) -> (r: Result<FieldAttribute, ParseError>)
        ensures
            match r {
                Ok(a) => field_attribute_of(e@) == Ok::<FieldAttributeView, ParseError>(a@),
                Err(err) => field_attribute_of(e@) == Err::<FieldAttributeView, ParseError>(err),
            },
    {
        let key = e.key.as_str();
        if str_eq(key, "skip") {
            match expect_no_arg(e) {
                Ok(_) => Ok(FieldAttribute::Skip),
                Err(err) => Err(err),
            }
        } else if str_eq(key, "default") {
            match expect_no_arg(e) {
                Ok(_) => Ok(FieldAttribute::Default),
                Err(err) => Err(err),
            }
        } else if str_eq(key, "with") {
            match read_text_arg(e) {
                Ok(p) => Ok(FieldAttribute::With(p)),
                Err(err) => Err(err),
            }
        } else if str_eq(key, "skip_serializing_if") {
            match read_text_arg(e) {
                Ok(p) => Ok(FieldAttribute::SkipSerializingIf(p)),
                Err(err) => Err(err),
            }
        } else if str_eq(key, "rename") {
            match read_string_arg(e) {
                Ok(n) => Ok(FieldAttribute::Rename(n)),
                Err(err) => Err(err),
            }
        } else {
            Err(ParseError { span: e.key_span, kind: ParseErrorKind::UnexpectedIdent })
        }
    }
}

/// What the attributes of one field configure.
#[derive(Debug)]
pub struct FieldAttributes {
    /// The field stays off the wire and is filled with its default.
    pub skip: bool,
    /// When decoding, a missing field is filled with its default.
    pub default: bool,
    /// The module whose routines encode and decode the field.
    pub with: Option<String>,
    /// The predicate that, when it holds of the field, keeps it off the
    /// wire.
    pub skip_serializing_if: Option<String>,
    /// The field's name on the wire, where it is not the field's own.
    pub rename: Option<String>,
}

/// What the attributes of one field configure, as plain text.
pub struct FieldAttributesView {
    pub skip: bool,
    pub default: bool,
    pub with: Option<Seq<char>>,
    pub skip_serializing_if: Option<Seq<char>>,
    pub rename: Option<Seq<char>>,
}

impl View for FieldAttributes {
    type V = FieldAttributesView;

    open spec fn view(&self) -> FieldAttributesView {
        FieldAttributesView {
            skip: self.skip,
            default: self.default,
            with: opt_view(self.with),
            skip_serializing_if: opt_view(self.skip_serializing_if),
            rename: opt_view(self.rename),
        }
    }
}

/// The later value where there is one, else the earlier.
pub open spec fn later<T>(a: Option<T>, b: Option<T>) -> Option<T> {
    if b is Some {
        b
    } else {
        a
    }
}

/// An identifier without the `r#` of a raw identifier.
pub open spec fn unraw(ident: Seq<char>) -> Seq<char> {
    if ident.len() >= 2 && ident[0] == 'r' && ident[1] == '#' {
        ident.skip(2)
    } else {
        ident
    }
}

impl FieldAttributesView {
    /// Nothing configured.
    pub open spec fn empty() -> FieldAttributesView {
        FieldAttributesView {
            skip: false,
            default: false,
            with: None,
            skip_serializing_if: None,
            rename: None,
        }
    }

    /// The configuration after one more entry.
    pub open spec fn with_entry(self, a: FieldAttributeView) -> FieldAttributesView {
        match a {
            FieldAttributeView::Skip => FieldAttributesView { skip: true, ..self },
            FieldAttributeView::Default => FieldAttributesView { default: true, ..self },
            FieldAttributeView::With(p) => FieldAttributesView { with: Some(p), ..self },
            FieldAttributeView::SkipSerializingIf(p) => FieldAttributesView {
                skip_serializing_if: Some(p),
                ..self
            },
            FieldAttributeView::Rename(n) => FieldAttributesView { rename: Some(n), ..self },
        }
    }

    /// Two configurations merged: a flag is set if either sets it, and a
    /// value is the later one where there is one.
    pub open spec fn merge(self, other: FieldAttributesView) -> FieldAttributesView {
        FieldAttributesView {
            skip: self.skip || other.skip,
            default: self.default || other.default,
            with: later(self.with, other.with),
            skip_serializing_if: later(self.skip_serializing_if, other.skip_serializing_if),
            rename: later(self.rename, other.rename),
        }
    }

    /// The field's name on the wire: the override, else the field's own
    /// identifier without the `r#` of a raw identifier.
    pub open spec fn name(self, ident: Seq<char>) -> Seq<char> {
        match self.rename {
            Some(n) => n,
            None => unraw(ident),
        }
    }
}

/// Merging is done from left to right, and how the attributes are grouped
/// does not matter: merging nothing changes nothing, and merging a third
/// configuration into the merge of two gives what merging the merge of
/// the last two into the first gives.
pub proof fn lemma_field_merge(
    a: FieldAttributesView,
    b: FieldAttributesView,
    c: FieldAttributesView,
)
    ensures
        a.merge(FieldAttributesView::empty()) == a,
        FieldAttributesView::empty().merge(a) == a,
        a.merge(b).merge(c) == a.merge(b.merge(c)),
{
}

/// The entries of a field's attribute from `pos` on, applied to `acc` in
/// order. An entry must be followed by a comma or by the end of the list.
pub open spec fn field_entries_from(
    tokens: Seq<TokenTree>,
    replies: Seq<Reply>,
    pos: int,
    scope: Span,
    acc: FieldAttributesView,
) -> Result<FieldAttributesView, ParseError>
    decreases tokens.len() - pos,
{
    if pos < 0 || pos >= tokens.len() {
        Ok(acc)
    } else {
        match entry_at(tokens, replies, pos, scope) {
            Err(err) => Err(err),
            Ok(e) => match field_attribute_of(e) {
                Err(err) => Err(err),
                Ok(a) => {
                    let next = pos + e.width();
                    if next >= tokens.len() {
                        Ok(acc.with_entry(a))
                    } else if is_comma(tokens[next]) {
                        field_entries_from(tokens, replies, next + 1, scope, acc.with_entry(a))
                    } else {
                        Err(
                            ParseError {
                                span: tokens[next].span(),
                                kind: ParseErrorKind::ExpectedComma,
                            },
                        )
                    }
                },
            },
        }
    }
}

/// The tokens of every `seeded` attribute among the first `n`, read as a
/// field's attribute and merged in order. A `seeded` attribute without a
/// list in parentheses is refused.
pub open spec fn field_attributes_of(
    attrs: Seq<Attribute>,
    replies: Seq<Vec<Reply>>,
    n: nat,
) -> Result<
    FieldAttributesView,
    Error,
>
    decreases n,
{
    if n == 0 || n > attrs.len() {
        Ok(FieldAttributesView::empty())
    } else {
        match field_attributes_of(attrs, replies, (n - 1) as nat) {
            Err(err) => Err(err),
            Ok(acc) => {
                let attr = attrs[n - 1];
                if attr.path@ == "seeded"@ {
                    match attr.meta {
                        Meta::List(tokens) => match field_entries_from(
                            tokens@,
                            replies_at(replies, n - 1),
                            0,
                            Span::CallSite,
                            FieldAttributesView::empty(),
                        ) {
                            Ok(a) => Ok(acc.merge(a)),
                            Err(err) => Err(Error::Parse(err)),
                        },
                        _ => Err(Error::ExpectedMetaList(attr.span)),
                    }
                } else {
                    Ok(acc)
                }
            },
        }
    }
}

/// Once an attribute is refused, the attributes after it are not read.
proof fn lemma_field_attributes_stop(
    attrs: Seq<Attribute>,
    replies: Seq<Vec<Reply>>,
    i: nat,
    n: nat,
)
    requires
        i <= n <= attrs.len(),
        field_attributes_of(attrs, replies, i) is Err,
    ensures
        field_attributes_of(attrs, replies, n) == field_attributes_of(attrs, replies, i),
    decreases n,
{
    if n > i {
        lemma_field_attributes_stop(attrs, replies, i, (n - 1) as nat);
    }
}

fn is_comma_token(t: &TokenTree) -> (r: bool)
    ensures
        r == is_comma(*t),
{
    match t {
        TokenTree::Punct(c, _, _) => *c == ',',
        _ => false,
    }
}

/// The characters of `s` from the third on.
fn skip_two(s: &str) -> (r: String)
    requires
        s@.len() >= 2,
    ensures
        r@ == s@.skip(2),
{
    let n = s.unicode_len();
    String::from_str(s.substring_char(2, n))
}

fn strip_raw(ident: &str) -> (r: String)
    ensures
        r@ == unraw(ident@),
{
    let n = ident.unicode_len();
    if n >= 2 && ident.get_char(0) == 'r' && ident.get_char(1) == '#' {
        skip_two(ident)
    } else {
        String::from_str(ident)
    }
}

impl FieldAttributes {
    /// Nothing configured.
    pub fn new() -> (r: FieldAttributes)
        ensures
            r@ == FieldAttributesView::empty(),
    {
        FieldAttributes {
            skip: false,
            default: false,
            with: None,
            skip_serializing_if: None,
            rename: None,
        }
    }

    fn apply(&mut self, a: FieldAttribute)
        ensures
            final(self)@ == old(self)@.with_entry(a@),
    {
        match a {
            FieldAttribute::Skip => {
                self.skip = true;
            },
            FieldAttribute::Default => {
                self.default = true;
            },
            FieldAttribute::With(p) => {
                self.with = Some(p);
            },
            FieldAttribute::SkipSerializingIf(p) => {
                self.skip_serializing_if = Some(p);
            },
            FieldAttribute::Rename(n) => {
                self.rename = Some(n);
            },
        }
    }

    /// Reads the list inside one attribute of a field. `scope` is where
    /// the list stands: an error at the list's end is reported there.
    /// The parser is asked about the arguments, and the list is read with
    /// the answers that came back.
    pub fn parse(tokens: &Vec<TokenTree>, scope: Span) -> (r: Result<FieldAttributes, ParseError>)
        ensures
            exists|replies: Seq<Reply>|
                asked(tokens@, replies) && #[trigger] field_entries_from(
                    tokens@,
                    replies,
                    0,
                    scope,
                    FieldAttributesView::empty(),
                ) == viewed(r),
    {
        let replies = ask(tokens);
        let r = FieldAttributes::parse_with(tokens, &replies, scope);
        assert(field_entries_from(tokens@, replies@, 0, scope, FieldAttributesView::empty())
            == viewed(r));
        r
    }

    /// Reads the list with the answers that the parser gave about its
    /// arguments, one answer for each token of the list.
    pub fn parse_with(tokens: &Vec<TokenTree>, replies: &Vec<Reply>, scope: Span) -> (r: Result<
        FieldAttributes,
        ParseError,
    >)
        ensures
            match r {
                Ok(a) => field_entries_from(
                    tokens@,
                    replies@,
                    0,
                    scope,
                    FieldAttributesView::empty(),
                )
                    == Ok::<FieldAttributesView, ParseError>(a@),
                Err(err) => field_entries_from(
                    tokens@,
                    replies@,
                    0,
                    scope,
                    FieldAttributesView::empty(),
                )
                    == Err::<FieldAttributesView, ParseError>(err),
            },
    {
        let mut result = FieldAttributes::new();
        let mut pos: usize = 0;
        while pos < tokens.len()
            invariant
                field_entries_from(tokens@, replies@, 0, scope, FieldAttributesView::empty())
                    == field_entries_from(tokens@, replies@, pos as int, scope, result@),
            decreases tokens.len() - pos,
        {
            let e = match read_entry(tokens, replies, pos, scope) {
                Ok(e) => e,
                Err(err) => {
                    return Err(err);
                },
            };
            let a = match FieldAttribute::parse(&e) {
                Ok(a) => a,
                Err(err) => {
                    return Err(err);
                },
            };
            let next: usize = if e.arg.is_some() {
                pos + 2
            } else {
                pos + 1
            };
            result.apply(a);
            if next >= tokens.len() {
                return Ok(result);
            }
            if !is_comma_token(&tokens[next]) {
                return Err(
                    ParseError { span: tokens[next].span(), kind: ParseErrorKind::ExpectedComma },
                );
            }
            pos = next + 1;
        }
        Ok(result)
    }

    /// Reads the attributes written on a field. Every `seeded` attribute
    /// counts, in order; the others are passed over. The parser is asked
    /// about the arguments, and the attributes are read with the answers
    /// that came back.
    pub fn parse_attributes(attrs: &Vec<Attribute>) -> (r: Result<FieldAttributes, Error>)
        ensures
            exists|replies: Seq<Vec<Reply>>|
                asked_attributes(attrs@, replies) && #[trigger] field_attributes_of(
                    attrs@,
                    replies,
                    attrs@.len(),
                ) == viewed(r),
    {
        let replies = ask_attributes(attrs);
        let r = FieldAttributes::parse_attributes_with(attrs, &replies);
        assert(field_attributes_of(attrs@, replies@, attrs@.len()) == viewed(r));
        r
    }

    /// Reads the attributes written on a field with the answers that the
    /// parser gave about their arguments: for each attribute, one answer
    /// for each token of its list.
    pub fn parse_attributes_with(attrs: &Vec<Attribute>, replies: &Vec<Vec<Reply>>) -> (r: Result<
        FieldAttributes,
        Error,
    >)
        ensures
            field_attributes_of(attrs@, replies@, attrs@.len()) == viewed(r),
    {
        let none: Vec<Reply> = Vec::new();
        let mut result = FieldAttributes::new();
        let mut i: usize = 0;
        while i < attrs.len()
            invariant
                i <= attrs.len(),
                none@.len() == 0,
                field_attributes_of(
                    attrs@,
                    replies@,
                    i as nat,
                ) == Ok::<FieldAttributesView, Error>(result@),
            decreases attrs.len() - i,
        {
            let attr = &attrs[i];
            if str_eq(attr.path.as_str(), "seeded") {
                match &attr.meta {
                    Meta::List(tokens) => {
                        let answers = if i < replies.len() {
                            &replies[i]
                        } else {
                            &none
                        };
                        assert(answers@ =~= replies_at(replies@, i as int));
                        match FieldAttributes::parse_with(tokens, answers, Span::call_site()) {
                            Ok(a) => {
                                result.merge_with(a);
                            },
                            Err(err) => {
                                proof {
                                    lemma_field_attributes_stop(
                                        attrs@,
                                        replies@,
                                        (i + 1) as nat,
                                        attrs@.len(),
                                    );
                                }
                                return Err(Error::Parse(err));
                            },
                        }
                    },
                    _ => {
                        proof {
                            lemma_field_attributes_stop(
                                attrs@,
                                replies@,
                                (i + 1) as nat,
                                attrs@.len(),
                            );
                        }
                        return Err(Error::ExpectedMetaList(attr.span));
                    },
                }
            }
            i += 1;
        }
        Ok(result)
    }

    /// Merges what a later attribute of the same field configures into
    /// `self`: flags add up, and a later value replaces an earlier one.
    pub fn merge_with(&mut self, other: FieldAttributes)
        ensures
            final(self)@ == old(self)@.merge(other@),
    {
        self.skip = self.skip || other.skip;
        self.default = self.default || other.default;
        if let Some(path) = other.with {
            self.with = Some(path);
        }
        if let Some(path) = other.skip_serializing_if {
            self.skip_serializing_if = Some(path);
        }
        if let Some(name) = other.rename {
            self.rename = Some(name);
        }
    }

    /// The field's name on the wire: the override, else the field's own
    /// identifier without the `r#` of a raw identifier.
    pub fn name(&self, ident: &str) -> (r: String)
        ensures
            r@ == self@.name(ident@),
    {
        match &self.rename {
            Some(name) => name.clone(),
            None => strip_raw(ident),
        }
    }
}

/// The parameters that the first `n` answers give, or the error of the
/// first answer that is one.
pub open spec fn gathered(span: Span, answers: Seq<Result<GenericParam, String>>, n: nat) -> Result<
    Seq<GenericParam>,
    ParseError,
>
    decreases n,
{
    if n == 0 || n > answers.len() {
        Ok(Seq::empty())
    } else {
        match gathered(span, answers, (n - 1) as nat) {
            Err(err) => Err(err),
            Ok(params) => match accepted(span, answers[n - 1]) {
                Ok(p) => Ok(params.push(p)),
                Err(err) => Err(err),
            },
        }
    }
}

/// The argument read as a list of generic parameters: the parameters in
/// order, where the parser accepted the list and each of them.
pub open spec fn params_arg(e: Entry) -> Result<Seq<GenericParam>, ParseError> {
    match (e.arg, e.reply) {
        (Some((inner, span)), Some(Reply::Params(answer))) => match accepted(span, answer) {
            Err(err) => Err(err),
            Ok(answers) => gathered(span, answers@, answers@.len()),
        },
        _ => Err(missing_argument(e)),
    }
}

/// The argument read as a list of `where` predicates.
pub open spec fn predicates_arg(e: Entry) -> Result<Seq<WherePredicateView>, ParseError> {
    match (e.arg, e.reply) {
        (Some((inner, span)), Some(Reply::Predicates(answer))) => match accepted(span, answer) {
            Ok(predicates) => Ok(predicate_views(predicates@)),
            Err(err) => Err(err),
        },
        _ => Err(missing_argument(e)),
    }
}

proof fn lemma_gathered_stop(span: Span, answers: Seq<Result<GenericParam, String>>, i: nat, n: nat)
    requires
        i <= n <= answers.len(),
        gathered(span, answers, i) is Err,
    ensures
        gathered(span, answers, n) == gathered(span, answers, i),
    decreases n,
{
    if n > i {
        lemma_gathered_stop(span, answers, i, (n - 1) as nat);
    }
}

/// Takes the parser's answers about the parameters of a list that stands
/// at `span`: the parameters in order, or the error of the first answer
/// that is one.
pub fn gather(span: Span, answers: &[Result<GenericParam, String>]) -> (r: Result<
    Vec<GenericParam>,
    ParseError,
>)
    ensures
        match r {
            Ok(v) => gathered(span, answers@, answers@.len()) == Ok::<
                Seq<GenericParam>,
                ParseError,
            >(v@),
            Err(err) => gathered(span, answers@, answers@.len()) == Err::<
                Seq<GenericParam>,
                ParseError,
            >(err),
        },
{
    let mut params: Vec<GenericParam> = Vec::new();
    let mut i: usize = 0;
    while i < answers.len()
        invariant
            i <= answers.len(),
            gathered(span, answers@, i as nat) == Ok::<Seq<GenericParam>, ParseError>(params@),
        decreases answers.len() - i,
    {
        match &answers[i] {
            Ok(p) => {
                params.push(p.clone());
            },
            Err(m) => {
                proof {
                    assert(gathered(span, answers@, (i + 1) as nat) is Err);
                    lemma_gathered_stop(span, answers@, (i + 1) as nat, answers@.len());
                }
                return Err(ParseError { span, kind: ParseErrorKind::Syntax(m.clone()) });
            },
        }
        i += 1;
    }
    Ok(params)
}

fn read_params_arg(e: &EntryRef) -> (r: Result<Vec<GenericParam>, ParseError>)
    ensures
        match r {
            Ok(v) => params_arg(e@) == Ok::<Seq<GenericParam>, ParseError>(v@),
            Err(err) => params_arg(e@) == Err::<Seq<GenericParam>, ParseError>(err),
        },
{
    match (e.arg, e.reply) {
        (Some((inner, span)), Some(Reply::Params(answer))) => match answer {
            Ok(answers) => gather(span, answers.as_slice()),
            Err(m) => Err(refused(span, m)),
        },
        _ => Err(missing(e)),
    }
}

fn read_predicates_arg(e: &EntryRef) -> (r: Result<Vec<WherePredicate>, ParseError>)
    ensures
        match r {
            Ok(v) => predicates_arg(e@) == Ok::<Seq<WherePredicateView>, ParseError>(
                predicate_views(v@),
            ),
            Err(err) => predicates_arg(e@) == Err::<Seq<WherePredicateView>, ParseError>(err),
        },
{
    match (e.arg, e.reply) {
        (Some((inner, span)), Some(Reply::Predicates(answer))) => match answer {
            Ok(predicates) => Ok(clone_predicates(predicates)),
            Err(m) => Err(refused(span, m)),
        },
        _ => Err(missing(e)),
    }
}

/// One entry of a seed specification.
#[derive(Debug)]
pub enum SerializeAttribute {
    /// `seed(Type)`
    Seed(String),
    /// `params(T, 'a, const N: usize)`
    Params(Vec<GenericParam>),
    /// `bounds(T: Bound, ...)`
    Bounds(Vec<WherePredicate>),
    /// `override_bounds(T: Bound, ...)`
    OverrideBounds(Vec<WherePredicate>),
}

/// One entry of a seed specification, as plain values.
pub enum SerializeAttributeView {
    Seed(Seq<char>),
    Params(Seq<GenericParam>),
    Bounds(Seq<WherePredicateView>),
    OverrideBounds(Seq<WherePredicateView>),
}

impl View for SerializeAttribute {
    type V = SerializeAttributeView;

    open spec fn view(&self) -> SerializeAttributeView {
        match *self {
            SerializeAttribute::Seed(t) => SerializeAttributeView::Seed(t@),
            SerializeAttribute::Params(p) => SerializeAttributeView::Params(p@),
            SerializeAttribute::Bounds(b) => SerializeAttributeView::Bounds(predicate_views(b@)),
            SerializeAttribute::OverrideBounds(b) => SerializeAttributeView::OverrideBounds(
                predicate_views(b@),
            ),
        }
    }
}

/// What an entry of a seed specification says: `seed(Type)`,
/// `params(...)`, `bounds(...)` or `override_bounds(...)`. Any other key is
/// refused at the key.
pub open spec fn serialize_attribute_of(e: Entry) -> Result<SerializeAttributeView, ParseError> {
    if e.key == "seed"@ {
        match text_arg(e) {
            Ok(t) => Ok(SerializeAttributeView::Seed(t)),
            Err(err) => Err(err),
        }
    } else if e.key == "params"@ {
        match params_arg(e) {
            Ok(p) => Ok(SerializeAttributeView::Params(p)),
            Err(err) => Err(err),
        }
    } else if e.key == "bounds"@ {
        match predicates_arg(e) {
            Ok(b) => Ok(SerializeAttributeView::Bounds(b)),
            Err(err) => Err(err),
        }
    } else if e.key == "override_bounds"@ {
        match predicates_arg(e) {
            Ok(b) => Ok(SerializeAttributeView::OverrideBounds(b)),
            Err(err) => Err(err),
        }
    } else {
        Err(ParseError { span: e.key_span, kind: ParseErrorKind::UnexpectedIdent })
    }
}

impl SerializeAttribute {
    /// Reads one entry of a seed specification.
    pub fn parse(e: &EntryRef) -> (r: Result<SerializeAttribute, ParseError>)
        ensures
            match r {
                Ok(a) => serialize_attribute_of(e@) == Ok::<SerializeAttributeView, ParseError>(
                    a@,
                ),
                Err(err) => serialize_attribute_of(e@) == Err::<
                    SerializeAttributeView,
                    ParseError,
                >(err),
            },
    {
        let key = e.key.as_str();
        if str_eq(key, "seed") {
            match read_text_arg(e) {
                Ok(t) => Ok(SerializeAttribute::Seed(t)),
                Err(err) => Err(err),
            }
        } else if str_eq(key, "params") {
            match read_params_arg(e) {
                Ok(p) => Ok(SerializeAttribute::Params(p)),
                Err(err) => Err(err),
            }
        } else if str_eq(key, "bounds") {
            match read_predicates_arg(e) {
                Ok(b) => Ok(SerializeAttribute::Bounds(b)),
                Err(err) => Err(err),
            }
        } else if str_eq(key, "override_bounds") {
            match read_predicates_arg(e) {
                Ok(b) => Ok(SerializeAttribute::OverrideBounds(b)),
                Err(err) => Err(err),
            }
        } else {
            Err(ParseError { span: e.key_span, kind: ParseErrorKind::UnexpectedIdent })
        }
    }
}

/// One seed specification: the seed's type, and what the implementation
/// generated for it carries besides.
#[derive(Debug)]
pub struct SerializeAttributes {
    /// The seed's type.
    pub seed: Option<String>,
    /// Generic parameters added to the implementation.
    pub params: Vec<GenericParam>,
    /// Predicates added to the implementation's `where` clause.
    pub bounds: Vec<WherePredicate>,
    /// Predicates that stand in for the bound that would otherwise be
    /// generated for the parameter they bound.
    pub override_bounds: Vec<WherePredicate>,
}

/// One seed specification, as plain values.
pub struct SeedSpec {
    pub seed: Option<Seq<char>>,
    pub params: Seq<GenericParam>,
    pub bounds: Seq<WherePredicateView>,
    pub override_bounds: Seq<WherePredicateView>,
}

impl View for SerializeAttributes {
    type V = SeedSpec;

    open spec fn view(&self) -> SeedSpec {
        SeedSpec {
            seed: opt_view(self.seed),
            params: self.params@,
            bounds: predicate_views(self.bounds@),
            override_bounds: predicate_views(self.override_bounds@),
        }
    }
}

impl SeedSpec {
    /// Nothing specified.
    pub open spec fn empty() -> SeedSpec {
        SeedSpec {
            seed: None,
            params: Seq::empty(),
            bounds: Seq::empty(),
            override_bounds: Seq::empty(),
        }
    }

    /// The specification after one more entry: a seed type replaces an
    /// earlier one, lists grow.
    pub open spec fn with_entry(self, a: SerializeAttributeView) -> SeedSpec {
        match a {
            SerializeAttributeView::Seed(t) => SeedSpec { seed: Some(t), ..self },
            SerializeAttributeView::Params(p) => SeedSpec { params: self.params + p, ..self },
            SerializeAttributeView::Bounds(b) => SeedSpec { bounds: self.bounds + b, ..self },
            SerializeAttributeView::OverrideBounds(b) => SeedSpec {
                override_bounds: self.override_bounds + b,
                ..self
            },
        }
    }
}

/// The entries of a seed specification from `pos` on, applied to `acc` in
/// order.
pub open spec fn seed_entries_from(
    tokens: Seq<TokenTree>,
    replies: Seq<Reply>,
    pos: int,
    scope: Span,
    acc: SeedSpec,
) -> Result<SeedSpec, ParseError>
    decreases tokens.len() - pos,
{
    if pos < 0 || pos >= tokens.len() {
        Ok(acc)
    } else {
        match entry_at(tokens, replies, pos, scope) {
            Err(err) => Err(err),
            Ok(e) => match serialize_attribute_of(e) {
                Err(err) => Err(err),
                Ok(a) => {
                    let next = pos + e.width();
                    if next >= tokens.len() {
                        Ok(acc.with_entry(a))
                    } else if is_comma(tokens[next]) {
                        seed_entries_from(tokens, replies, next + 1, scope, acc.with_entry(a))
                    } else {
                        Err(
                            ParseError {
                                span: tokens[next].span(),
                                kind: ParseErrorKind::ExpectedComma,
                            },
                        )
                    }
                },
            },
        }
    }
}

impl Clone for SerializeAttributes {
    fn clone(&self) -> (r: Self)
        ensures
            r@ == self@,
    {
        SerializeAttributes {
            seed: clone_opt(&self.seed),
            params: clone_params(&self.params),
            bounds: clone_predicates(&self.bounds),
            override_bounds: clone_predicates(&self.override_bounds),
        }
    }
}

impl SerializeAttributes {
    /// Nothing specified.
    pub fn new() -> (r: SerializeAttributes)
        ensures
            r@ == SeedSpec::empty(),
    {
        let r = SerializeAttributes {
            seed: None,
            params: Vec::new(),
            bounds: Vec::new(),
            override_bounds: Vec::new(),
        };
        assert(r@.bounds =~= Seq::empty());
        assert(r@.override_bounds =~= Seq::empty());
        r
    }

    fn apply(&mut self, a: SerializeAttribute)
        ensures
            final(self)@ == old(self)@.with_entry(a@),
    {
        match a {
            SerializeAttribute::Seed(t) => {
                self.seed = Some(t);
            },
            SerializeAttribute::Params(p) => {
                let mut p = p;
                self.params.append(&mut p);
            },
            SerializeAttribute::Bounds(b) => {
                let mut b = b;
                let ghost added = b@;
                self.bounds.append(&mut b);
                assert(predicate_views(old(self).bounds@ + added) =~= predicate_views(
                    old(self).bounds@,
                ) + predicate_views(added));
            },
            SerializeAttribute::OverrideBounds(b) => {
                let mut b = b;
                let ghost added = b@;
                self.override_bounds.append(&mut b);
                assert(predicate_views(old(self).override_bounds@ + added) =~= predicate_views(
                    old(self).override_bounds@,
                ) + predicate_views(added));
            },
        }
    }

    /// Reads the list inside `ser(...)`, `de(...)` or `serde(...)`.
    /// `scope` is where the list stands.
    /// The parser is asked about the arguments, and the list is read with
    /// the answers that came back.
    pub fn parse(tokens: &Vec<TokenTree>, scope: Span) -> (r: Result<
        SerializeAttributes,
        ParseError,
    >)
        ensures
            exists|replies: Seq<Reply>|
                asked(tokens@, replies) && #[trigger] seed_entries_from(
                    tokens@,
                    replies,
                    0,
                    scope,
                    SeedSpec::empty(),
                ) == viewed(r),
    {
        let replies = ask(tokens);
        let r = SerializeAttributes::parse_with(tokens, &replies, scope);
        assert(seed_entries_from(tokens@, replies@, 0, scope, SeedSpec::empty()) == viewed(r));
        r
    }

    /// Reads the list with the answers that the parser gave about its
    /// arguments, one answer for each token of the list.
    pub fn parse_with(tokens: &Vec<TokenTree>, replies: &Vec<Reply>, scope: Span) -> (r: Result<
        SerializeAttributes,
        ParseError,
    >)
        ensures
            match r {
                Ok(a) => seed_entries_from(tokens@, replies@, 0, scope, SeedSpec::empty()) == Ok::<
                    SeedSpec,
                    ParseError,
                >(a@),
                Err(err) => seed_entries_from(
                    tokens@,
                    replies@,
                    0,
                    scope,
                    SeedSpec::empty(),
                ) == Err::<
                    SeedSpec,
                    ParseError,
                >(err),
            },
    {
        let mut result = SerializeAttributes::new();
        let mut pos: usize = 0;
        while pos < tokens.len()
            invariant
                seed_entries_from(
                    tokens@,
                    replies@,
                    0,
                    scope,
                    SeedSpec::empty(),
                ) == seed_entries_from(
                    tokens@,
                    replies@,
                    pos as int,
                    scope,
                    result@,
                ),
            decreases tokens.len() - pos,
        {
            let e = match read_entry(tokens, replies, pos, scope) {
                Ok(e) => e,
                Err(err) => {
                    return Err(err);
                },
            };
            let a = match SerializeAttribute::parse(&e) {
                Ok(a) => a,
                Err(err) => {
                    return Err(err);
                },
            };
            let next: usize = if e.arg.is_some() {
                pos + 2
            } else {
                pos + 1
            };
            result.apply(a);
            if next >= tokens.len() {
                return Ok(result);
            }
            if !is_comma_token(&tokens[next]) {
                return Err(
                    ParseError { span: tokens[next].span(), kind: ParseErrorKind::ExpectedComma },
                );
            }
            pos = next + 1;
        }
        Ok(result)
    }

    /// The seed's type, which every seed specification must name.
    pub fn require_seed(&self) -> (r: Result<&String, Error>)
        ensures
            match r {
                Ok(t) => self.seed == Some(*t),
                Err(err) => self.seed is None && err == Error::MissingSeed,
            },
    {
        match &self.seed {
            Some(t) => Ok(t),
            None => Err(Error::MissingSeed),
        }
    }
}

/// The argument read as a seed specification, with the answers about the
/// arguments of its own entries.
pub open spec fn seed_spec_arg(e: Entry) -> Result<SeedSpec, ParseError> {
    match (e.arg, e.reply) {
        (Some((inner, span)), Some(Reply::Entries(replies))) => seed_entries_from(
            inner,
            replies@,
            0,
            span,
            SeedSpec::empty(),
        ),
        _ => Err(missing_argument(e)),
    }
}

fn read_seed_spec_arg(e: &EntryRef) -> (r: Result<SerializeAttributes, ParseError>)
    ensures
        match r {
            Ok(a) => seed_spec_arg(e@) == Ok::<SeedSpec, ParseError>(a@),
            Err(err) => seed_spec_arg(e@) == Err::<SeedSpec, ParseError>(err),
        },
{
    match (e.arg, e.reply) {
        (Some((inner, span)), Some(Reply::Entries(replies))) => SerializeAttributes::parse_with(
            inner,
            replies,
            span,
        ),
        _ => Err(missing(e)),
    }
}

/// One entry of a type's attribute.
#[derive(Debug)]
pub enum TypeAttribute {
    /// `ser(...)`: a seed specification for encoding.
    Ser(SerializeAttributes),
    /// `de(...)`: a seed specification for decoding.
    De(SerializeAttributes),
    /// `serde(...)`: one seed specification for both.
    Serde(SerializeAttributes),
    /// `transparent`
    Transparent,
    /// `rename("name")`
    Rename(String),
}

/// One entry of a type's attribute, as plain values.
pub enum TypeAttributeView {
    Ser(SeedSpec),
    De(SeedSpec),
    Serde(SeedSpec),
    Transparent,
    Rename(Seq<char>),
}

impl View for TypeAttribute {
    type V = TypeAttributeView;

    open spec fn view(&self) -> TypeAttributeView {
        match *self {
            TypeAttribute::Ser(a) => TypeAttributeView::Ser(a@),
            TypeAttribute::De(a) => TypeAttributeView::De(a@),
            TypeAttribute::Serde(a) => TypeAttributeView::Serde(a@),
            TypeAttribute::Transparent => TypeAttributeView::Transparent,
            TypeAttribute::Rename(n) => TypeAttributeView::Rename(n@),
        }
    }
}

/// What an entry of a type's attribute says: `ser(...)`, `de(...)`,
/// `serde(...)`, `transparent` or `rename("name")`. Any other key is
/// refused at the key.
pub open spec fn type_attribute_of(e: Entry) -> Result<TypeAttributeView, ParseError> {
    if e.key == "ser"@ {
        match seed_spec_arg(e) {
            Ok(a) => Ok(TypeAttributeView::Ser(a)),
            Err(err) => Err(err),
        }
    } else if e.key == "de"@ {
        match seed_spec_arg(e) {
            Ok(a) => Ok(TypeAttributeView::De(a)),
            Err(err) => Err(err),
        }
    } else if e.key == "serde"@ {
        match seed_spec_arg(e) {
            Ok(a) => Ok(TypeAttributeView::Serde(a)),
            Err(err) => Err(err),
        }
    } else if e.key == "transparent"@ {
        match no_arg(e) {
            Ok(_) => Ok(TypeAttributeView::Transparent),
            Err(err) => Err(err),
        }
    } else if e.key == "rename"@ {
        match string_arg(e) {
            Ok(n) => Ok(TypeAttributeView::Rename(n)),
            Err(err) => Err(err),
        }
    } else {
        Err(ParseError { span: e.key_span, kind: ParseErrorKind::UnexpectedIdent })
    }
}

impl TypeAttribute {
    /// Reads one entry of a type's attribute.
    pub fn parse(e: &EntryRef) -> (r: Result<TypeAttribute, ParseError>)
        ensures
            match r {
                Ok(a) => type_attribute_of(e@) == Ok::<TypeAttributeView, ParseError>(a@),
                Err(err) => type_attribute_of(e@) == Err::<TypeAttributeView, ParseError>(err),
            },
    {
        let key = e.key.as_str();
        if str_eq(key, "ser") {
            match read_seed_spec_arg(e) {
                Ok(a) => Ok(TypeAttribute::Ser(a)),
                Err(err) => Err(err),
            }
        } else if str_eq(key, "de") {
            match read_seed_spec_arg(e) {
                Ok(a) => Ok(TypeAttribute::De(a)),
                Err(err) => Err(err),
            }
        } else if str_eq(key, "serde") {
            match read_seed_spec_arg(e) {
                Ok(a) => Ok(TypeAttribute::Serde(a)),
                Err(err) => Err(err),
            }
        } else if str_eq(key, "transparent") {
            match expect_no_arg(e) {
                Ok(_) => Ok(TypeAttribute::Transparent),
                Err(err) => Err(err),
            }
        } else if str_eq(key, "rename") {
            match read_string_arg(e) {
                Ok(n) => Ok(TypeAttribute::Rename(n)),
                Err(err) => Err(err),
            }
        } else {
            Err(ParseError { span: e.key_span, kind: ParseErrorKind::UnexpectedIdent })
        }
    }
}

/// What the attributes of a type configure.
#[derive(Debug)]
pub struct TypeAttributes {
    /// The seed specifications for encoding: one implementation each.
    pub ser: Vec<SerializeAttributes>,
    /// The seed specifications for decoding: one implementation each.
    pub de: Vec<SerializeAttributes>,
    /// The type travels as its one field does, without a wrapper.
    pub transparent: bool,
    /// The type's name on the wire, where it is not the type's own.
    pub rename: Option<String>,
}

/// The views of a sequence of seed specifications.
pub open spec fn seed_specs(v: Seq<SerializeAttributes>) -> Seq<SeedSpec> {
    v.map_values(|a: SerializeAttributes| a@)
}

/// What the attributes of a type configure, as plain values.
pub struct TypeAttributesView {
    pub ser: Seq<SeedSpec>,
    pub de: Seq<SeedSpec>,
    pub transparent: bool,
    pub rename: Option<Seq<char>>,
}

impl View for TypeAttributes {
    type V = TypeAttributesView;

    open spec fn view(&self) -> TypeAttributesView {
        TypeAttributesView {
            ser: seed_specs(self.ser@),
            de: seed_specs(self.de@),
            transparent: self.transparent,
            rename: opt_view(self.rename),
        }
    }
}

impl TypeAttributesView {
    /// Nothing configured.
    pub open spec fn empty() -> TypeAttributesView {
        TypeAttributesView { ser: Seq::empty(), de: Seq::empty(), transparent: false, rename: None }
    }

    /// The configuration after one more entry. `serde(...)` adds its seed
    /// specification to both directions.
    pub open spec fn with_entry(self, a: TypeAttributeView) -> TypeAttributesView {
        match a {
            TypeAttributeView::Ser(s) => TypeAttributesView { ser: self.ser.push(s), ..self },
            TypeAttributeView::De(s) => TypeAttributesView { de: self.de.push(s), ..self },
            TypeAttributeView::Serde(s) => TypeAttributesView {
                ser: self.ser.push(s),
                de: self.de.push(s),
                ..self
            },
            TypeAttributeView::Transparent => TypeAttributesView { transparent: true, ..self },
            TypeAttributeView::Rename(n) => TypeAttributesView { rename: Some(n), ..self },
        }
    }

    /// Two configurations merged: the seed specifications of both in
    /// order, a flag set if either sets it, the later name where there is
    /// one.
    pub open spec fn merge(self, other: TypeAttributesView) -> TypeAttributesView {
        TypeAttributesView {
            ser: self.ser + other.ser,
            de: self.de + other.de,
            transparent: self.transparent || other.transparent,
            rename: later(self.rename, other.rename),
        }
    }

    /// The type's name on the wire: the override, else the type's own
    /// identifier.
    pub open spec fn name(self, ident: Seq<char>) -> Seq<char> {
        match self.rename {
            Some(n) => n,
            None => ident,
        }
    }
}

/// Merging is done from left to right, and how the attributes are grouped
/// does not matter: merging nothing changes nothing, and merging a third
/// configuration into the merge of two gives what merging the merge of
/// the last two into the first gives.
pub proof fn lemma_type_merge(a: TypeAttributesView, b: TypeAttributesView, c: TypeAttributesView)
    ensures
        a.merge(TypeAttributesView::empty()) == a,
        TypeAttributesView::empty().merge(a) == a,
        a.merge(b).merge(c) == a.merge(b.merge(c)),
{
    assert(a.ser + Seq::<SeedSpec>::empty() =~= a.ser);
    assert(a.de + Seq::<SeedSpec>::empty() =~= a.de);
    assert(Seq::<SeedSpec>::empty() + a.ser =~= a.ser);
    assert(Seq::<SeedSpec>::empty() + a.de =~= a.de);
    assert(a.ser + b.ser + c.ser =~= a.ser + (b.ser + c.ser));
    assert(a.de + b.de + c.de =~= a.de + (b.de + c.de));
}

/// The entries of a type's attribute from `pos` on, applied to `acc` in
/// order.
pub open spec fn type_entries_from(
    tokens: Seq<TokenTree>,
    replies: Seq<Reply>,
    pos: int,
    scope: Span,
    acc: TypeAttributesView,
) -> Result<TypeAttributesView, ParseError>
    decreases tokens.len() - pos,
{
    if pos < 0 || pos >= tokens.len() {
        Ok(acc)
    } else {
        match entry_at(tokens, replies, pos, scope) {
            Err(err) => Err(err),
            Ok(e) => match type_attribute_of(e) {
                Err(err) => Err(err),
                Ok(a) => {
                    let next = pos + e.width();
                    if next >= tokens.len() {
                        Ok(acc.with_entry(a))
                    } else if is_comma(tokens[next]) {
                        type_entries_from(tokens, replies, next + 1, scope, acc.with_entry(a))
                    } else {
                        Err(
                            ParseError {
                                span: tokens[next].span(),
                                kind: ParseErrorKind::ExpectedComma,
                            },
                        )
                    }
                },
            },
        }
    }
}

/// The tokens of every `seeded` attribute among the first `n`, read as a
/// type's attribute and merged in order. A `seeded` attribute without a
/// list in parentheses is refused.
pub open spec fn type_attributes_of(
    attrs: Seq<Attribute>,
    replies: Seq<Vec<Reply>>,
    n: nat,
) -> Result<
    TypeAttributesView,
    Error,
>
    decreases n,
{
    if n == 0 || n > attrs.len() {
        Ok(TypeAttributesView::empty())
    } else {
        match type_attributes_of(attrs, replies, (n - 1) as nat) {
            Err(err) => Err(err),
            Ok(acc) => {
                let attr = attrs[n - 1];
                if attr.path@ == "seeded"@ {
                    match attr.meta {
                        Meta::List(tokens) => match type_entries_from(
                            tokens@,
                            replies_at(replies, n - 1),
                            0,
                            Span::CallSite,
                            TypeAttributesView::empty(),
                        ) {
                            Ok(a) => Ok(acc.merge(a)),
                            Err(err) => Err(Error::Parse(err)),
                        },
                        _ => Err(Error::ExpectedMetaList(attr.span)),
                    }
                } else {
                    Ok(acc)
                }
            },
        }
    }
}

proof fn lemma_type_attributes_stop(
    attrs: Seq<Attribute>,
    replies: Seq<Vec<Reply>>,
    i: nat,
    n: nat,
)
    requires
        i <= n <= attrs.len(),
        type_attributes_of(attrs, replies, i) is Err,
    ensures
        type_attributes_of(attrs, replies, n) == type_attributes_of(attrs, replies, i),
    decreases n,
{
    if n > i {
        lemma_type_attributes_stop(attrs, replies, i, (n - 1) as nat);
    }
}

impl TypeAttributes {
    /// Nothing configured.
    pub fn new() -> (r: TypeAttributes)
        ensures
            r@ == TypeAttributesView::empty(),
    {
        let r = TypeAttributes {
            ser: Vec::new(),
            de: Vec::new(),
            transparent: false,
            rename: None,
        };
        assert(r@.ser =~= Seq::empty());
        assert(r@.de =~= Seq::empty());
        r
    }

    fn apply(&mut self, a: TypeAttribute)
        ensures
            final(self)@ == old(self)@.with_entry(a@),
    {
        match a {
            TypeAttribute::Ser(s) => {
                self.ser.push(s);
                assert(seed_specs(self.ser@) =~= seed_specs(old(self).ser@).push(s@));
            },
            TypeAttribute::De(s) => {
                self.de.push(s);
                assert(seed_specs(self.de@) =~= seed_specs(old(self).de@).push(s@));
            },
            TypeAttribute::Serde(s) => {
                let copy = s.clone();
                self.ser.push(copy);
                self.de.push(s);
                assert(seed_specs(self.ser@) =~= seed_specs(old(self).ser@).push(s@));
                assert(seed_specs(self.de@) =~= seed_specs(old(self).de@).push(s@));
            },
            TypeAttribute::Transparent => {
                self.transparent = true;
            },
            TypeAttribute::Rename(n) => {
                self.rename = Some(n);
            },
        }
    }

    /// Reads the list inside one attribute of a type. `scope` is where the
    /// list stands.
    /// The parser is asked about the arguments, and the list is read with
    /// the answers that came back.
    pub fn parse(tokens: &Vec<TokenTree>, scope: Span) -> (r: Result<TypeAttributes, ParseError>)
        ensures
            exists|replies: Seq<Reply>|
                asked(tokens@, replies) && #[trigger] type_entries_from(
                    tokens@,
                    replies,
                    0,
                    scope,
                    TypeAttributesView::empty(),
                ) == viewed(r),
    {
        let replies = ask(tokens);
        let r = TypeAttributes::parse_with(tokens, &replies, scope);
        assert(type_entries_from(tokens@, replies@, 0, scope, TypeAttributesView::empty())
            == viewed(r));
        r
    }

    /// Reads the list with the answers that the parser gave about its
    /// arguments, one answer for each token of the list.
    pub fn parse_with(tokens: &Vec<TokenTree>, replies: &Vec<Reply>, scope: Span) -> (r: Result<
        TypeAttributes,
        ParseError,
    >)
        ensures
            match r {
                Ok(a) => type_entries_from(tokens@, replies@, 0, scope, TypeAttributesView::empty())
                    == Ok::<TypeAttributesView, ParseError>(a@),
                Err(err) => type_entries_from(
                    tokens@,
                    replies@,
                    0,
                    scope,
                    TypeAttributesView::empty(),
                )
                    == Err::<TypeAttributesView, ParseError>(err),
            },
    {
        let mut result = TypeAttributes::new();
        let mut pos: usize = 0;
        while pos < tokens.len()
            invariant
                type_entries_from(tokens@, replies@, 0, scope, TypeAttributesView::empty())
                    == type_entries_from(tokens@, replies@, pos as int, scope, result@),
            decreases tokens.len() - pos,
        {
            let e = match read_entry(tokens, replies, pos, scope) {
                Ok(e) => e,
                Err(err) => {
                    return Err(err);
                },
            };
            let a = match TypeAttribute::parse(&e) {
                Ok(a) => a,
                Err(err) => {
                    return Err(err);
                },
            };
            let next: usize = if e.arg.is_some() {
                pos + 2
            } else {
                pos + 1
            };
            result.apply(a);
            if next >= tokens.len() {
                return Ok(result);
            }
            if !is_comma_token(&tokens[next]) {
                return Err(
                    ParseError { span: tokens[next].span(), kind: ParseErrorKind::ExpectedComma },
                );
            }
            pos = next + 1;
        }
        Ok(result)
    }

    /// Reads the attributes written on a type. Every `seeded` attribute
    /// counts, in order; the others are passed over. The parser is asked
    /// about the arguments, and the attributes are read with the answers
    /// that came back.
    pub fn parse_attributes(attrs: &Vec<Attribute>) -> (r: Result<TypeAttributes, Error>)
        ensures
            exists|replies: Seq<Vec<Reply>>|
                asked_attributes(attrs@, replies) && #[trigger] type_attributes_of(
                    attrs@,
                    replies,
                    attrs@.len(),
                ) == viewed(r),
    {
        let replies = ask_attributes(attrs);
        let r = TypeAttributes::parse_attributes_with(attrs, &replies);
        assert(type_attributes_of(attrs@, replies@, attrs@.len()) == viewed(r));
        r
    }

    /// Reads the attributes written on a type with the answers that the
    /// parser gave about their arguments: for each attribute, one answer
    /// for each token of its list.
    pub fn parse_attributes_with(attrs: &Vec<Attribute>, replies: &Vec<Vec<Reply>>) -> (r: Result<
        TypeAttributes,
        Error,
    >)
        ensures
            type_attributes_of(attrs@, replies@, attrs@.len()) == viewed(r),
    {
        let none: Vec<Reply> = Vec::new();
        let mut result = TypeAttributes::new();
        let mut i: usize = 0;
        while i < attrs.len()
            invariant
                i <= attrs.len(),
                none@.len() == 0,
                type_attributes_of(
                    attrs@,
                    replies@,
                    i as nat,
                ) == Ok::<TypeAttributesView, Error>(result@),
            decreases attrs.len() - i,
        {
            let attr = &attrs[i];
            if str_eq(attr.path.as_str(), "seeded") {
                match &attr.meta {
                    Meta::List(tokens) => {
                        let answers = if i < replies.len() {
                            &replies[i]
                        } else {
                            &none
                        };
                        assert(answers@ =~= replies_at(replies@, i as int));
                        match TypeAttributes::parse_with(tokens, answers, Span::call_site()) {
                            Ok(a) => {
                                result.merge_with(a);
                            },
                            Err(err) => {
                                proof {
                                    lemma_type_attributes_stop(
                                        attrs@,
                                        replies@,
                                        (i + 1) as nat,
                                        attrs@.len(),
                                    );
                                }
                                return Err(Error::Parse(err));
                            },
                        }
                    },
                    _ => {
                        proof {
                            lemma_type_attributes_stop(
                                attrs@,
                                replies@,
                                (i + 1) as nat,
                                attrs@.len(),
                            );
                        }
                        return Err(Error::ExpectedMetaList(attr.span));
                    },
                }
            }
            i += 1;
        }
        Ok(result)
    }

    /// Merges what a later attribute of the same type configures into
    /// `self`: seed specifications are added at the end, the flag adds up,
    /// and a later name replaces an earlier one.
    pub fn merge_with(&mut self, other: TypeAttributes)
        ensures
            final(self)@ == old(self)@.merge(other@),
    {
        let mut other = other;
        let ghost ser = other.ser@;
        let ghost de = other.de@;
        self.ser.append(&mut other.ser);
        self.de.append(&mut other.de);
        self.transparent = self.transparent || other.transparent;
        if let Some(name) = other.rename {
            self.rename = Some(name);
        }
        assert(seed_specs(old(self).ser@ + ser) =~= seed_specs(old(self).ser@) + seed_specs(ser));
        assert(seed_specs(old(self).de@ + de) =~= seed_specs(old(self).de@) + seed_specs(de));
    }

    /// The type's name on the wire: the override, else the type's own
    /// identifier.
    pub fn name(&self, ident: &str) -> (r: String)
        ensures
            r@ == self@.name(ident@),
    {
        match &self.rename {
            Some(name) => name.clone(),
            None => String::from_str(ident),
        }
    }
}

} // verus!
