//! The generic parameter lists of generated items.
//!
//! A generated implementation repeats the parameters of the type it is
//! for, and may need more: a lifetime for the seed's reference, for the
//! decoder's input, for a borrowed value, and the extra parameters of a
//! seed specification. Lifetimes come before types and constants, the
//! added lifetimes before the type's own, and extra parameters after the
//! type's own; within each group the declared order is kept.

use vstd::prelude::*;
use vstd::string::*;
use crate::item::{
    GenericParam, Generics, ParamKind, WherePredicate, WherePredicateView, predicate_views,
};

verus! {

/// One of the lifetimes that generated code adds.
#[derive(Clone, Copy, Debug, PartialEq, Eq, Structural)]
pub enum SeedParam {
    /// `'value`: how long a borrowed field lives.
    ValueLifetime,
    /// `'seed`: how long the seed's reference lives.
    SeedLifetime,
    /// `'de`: how long the decoder's input lives.
    DeLifetime,
}

/// A set of the lifetimes that generated code adds.
#[derive(Clone, Copy, Debug, PartialEq, Eq, Structural)]
pub struct SeedParams {
    pub value_lft: bool,
    pub seed_lft: bool,
    pub de_lft: bool,
}

impl SeedParams {
    /// No lifetime.
    pub open spec fn spec_none() -> SeedParams {
        SeedParams { value_lft: false, seed_lft: false, de_lft: false }
    }

    /// No lifetime.
    #[verifier::when_used_as_spec(spec_none)]
    pub fn none() -> (r: SeedParams)
        ensures
            r == SeedParams::spec_none(),
    {
        SeedParams { value_lft: false, seed_lft: false, de_lft: false }
    }

    /// The set of one lifetime.
    pub open spec fn spec_of(p: SeedParam) -> SeedParams {
        SeedParams {
            value_lft: p == SeedParam::ValueLifetime,
            seed_lft: p == SeedParam::SeedLifetime,
            de_lft: p == SeedParam::DeLifetime,
        }
    }

    /// The set of one lifetime.
    #[verifier::when_used_as_spec(spec_of)]
    pub fn of(p: SeedParam) -> (r: SeedParams)
        ensures
            r == SeedParams::spec_of(p),
    {
        match p {
            SeedParam::ValueLifetime => SeedParams {
                value_lft: true,
                seed_lft: false,
                de_lft: false,
            },
            SeedParam::SeedLifetime => SeedParams {
                value_lft: false,
                seed_lft: true,
                de_lft: false,
            },
            SeedParam::DeLifetime => SeedParams { value_lft: false, seed_lft: false, de_lft: true },
        }
    }

    /// Whether the set holds no lifetime.
    pub open spec fn spec_is_empty(&self) -> bool {
        !self.value_lft && !self.seed_lft && !self.de_lft
    }

    /// Whether the set holds no lifetime.
    #[verifier::when_used_as_spec(spec_is_empty)]
    pub fn is_empty(&self) -> (r: bool)
        ensures
            r == self.spec_is_empty(),
    {
        !self.value_lft && !self.seed_lft && !self.de_lft
    }

    /// The lifetimes of either set.
    pub open spec fn spec_union(self, rhs: SeedParams) -> SeedParams {
        SeedParams {
            value_lft: self.value_lft || rhs.value_lft,
            seed_lft: self.seed_lft || rhs.seed_lft,
            de_lft: self.de_lft || rhs.de_lft,
        }
    }

    /// The lifetimes of either set.
    #[verifier::when_used_as_spec(spec_union)]
    pub fn union(self, rhs: SeedParams) -> (r: SeedParams)
        ensures
            r == self.spec_union(rhs),
    {
        SeedParams {
            value_lft: self.value_lft || rhs.value_lft,
            seed_lft: self.seed_lft || rhs.seed_lft,
            de_lft: self.de_lft || rhs.de_lft,
        }
    }

    /// The set with one more lifetime.
    pub open spec fn spec_and(self, p: SeedParam) -> SeedParams {
        self.spec_union(SeedParams::spec_of(p))
    }

    /// The set with one more lifetime.
    #[verifier::when_used_as_spec(spec_and)]
    pub fn and(self, p: SeedParam) -> (r: SeedParams)
        ensures
            r == self.spec_and(p),
    {
        self.union(SeedParams::of(p))
    }
}

/// The added lifetimes as they stand in a parameter list, a comma after
/// each: `'value`, `'seed`, `'de`, in this order.
pub open spec fn seed_params_text(p: SeedParams) -> Seq<char> {
    (if p.value_lft {
        "'value, "@
    } else {
        Seq::empty()
    }) + (if p.seed_lft {
        "'seed, "@
    } else {
        Seq::empty()
    }) + (if p.de_lft {
        "'de, "@
    } else {
        Seq::empty()
    })
}

/// The bounds or type of a parameter after its colon; nothing where a
/// lifetime or type parameter has no bound.
pub open spec fn param_bounds_text(p: GenericParam) -> Seq<char> {
    if p.kind == ParamKind::Const || p.bounds@.len() > 0 {
        ": "@ + p.bounds@
    } else {
        Seq::empty()
    }
}

/// A parameter as it is declared in a header: attributes, name and
/// bounds, without a default.
pub open spec fn param_decl_text(p: GenericParam) -> Seq<char> {
    p.attrs@ + (if p.kind == ParamKind::Const {
        "const "@
    } else {
        Seq::empty()
    }) + p.ident@ + param_bounds_text(p)
}

/// A parameter as it stands in a list: declared in full, or by its name
/// alone.
pub open spec fn param_text(p: GenericParam, declare: bool) -> Seq<char> {
    if declare {
        param_decl_text(p)
    } else {
        p.ident@
    }
}

/// Those of the first `n` parameters that are lifetimes (or, with
/// `lifetimes` false, those that are not), in order, a comma after each.
pub open spec fn params_text(
    params: Seq<GenericParam>,
    n: nat,
    lifetimes: bool,
    declare: bool,
) -> Seq<char>
    decreases n,
{
    if n == 0 || n > params.len() {
        Seq::empty()
    } else {
        params_text(params, (n - 1) as nat, lifetimes, declare) + (if params[n - 1].is_lifetime()
            == lifetimes {
            param_text(params[n - 1], declare) + ", "@
        } else {
            Seq::empty()
        })
    }
}

/// A parameter list in angle brackets: the added lifetimes, the type's
/// lifetimes, the extra lifetimes, the type's other parameters, the extra
/// other parameters. With nothing to list, nothing at all.
pub open spec fn generics_text(
    params: Seq<GenericParam>,
    seed_params: SeedParams,
    extra: Seq<GenericParam>,
    declare: bool,
) -> Seq<char> {
    if params.len() == 0 && seed_params.is_empty() && extra.len() == 0 {
        Seq::empty()
    } else {
        "<"@ + seed_params_text(seed_params) + params_text(params, params.len(), true, declare)
            + params_text(extra, extra.len(), true, declare) + params_text(
            params,
            params.len(),
            false,
            declare,
        ) + params_text(extra, extra.len(), false, declare) + ">"@
    }
}

fn render_seed_params(p: SeedParams) -> (r: String)
    ensures
        r@ == seed_params_text(p),
{
    let mut out = String::new();
    if p.value_lft {
        out.append("'value, ");
    }
    if p.seed_lft {
        out.append("'seed, ");
    }
    if p.de_lft {
        out.append("'de, ");
    }
    assert(out@ =~= seed_params_text(p));
    out
}

fn render_param(p: &GenericParam, declare: bool) -> (r: String)
    ensures
        r@ == param_text(*p, declare),
{
    if declare {
        let mut out = p.attrs.clone();
        match p.kind {
            ParamKind::Const => {
                out.append("const ");
            },
            _ => {},
        }
        out.append(p.ident.as_str());
        let is_const = match p.kind {
            ParamKind::Const => true,
            _ => false,
        };
        if is_const || p.bounds.as_str().unicode_len() > 0 {
            out.append(": ");
            out.append(p.bounds.as_str());
        }
        assert(out@ =~= param_decl_text(*p));
        out
    } else {
        p.ident.clone()
    }
}

fn render_params(params: &[GenericParam], lifetimes: bool, declare: bool) -> (r: String)
    ensures
        r@ == params_text(params@, params@.len(), lifetimes, declare),
{
    let mut out = String::new();
    let mut i: usize = 0;
    while i < params.len()
        invariant
            i <= params.len(),
            out@ == params_text(params@, i as nat, lifetimes, declare),
        decreases params.len() - i,
    {
        let ghost before = out@;
        if params[i].is_lifetime() == lifetimes {
            let p = render_param(&params[i], declare);
            let ghost item = p@;
            out.append(p.as_str());
            out.append(", ");
            assert(out@ =~= before + (item + ", "@));
        } else {
            assert(out@ =~= before + Seq::<char>::empty());
        }
        i += 1;
    }
    out
}

fn render_generics(
    params: &[GenericParam],
    seed_params: SeedParams,
    extra: &[GenericParam],
    declare: bool,
) -> (r: String)
    ensures
        r@ == generics_text(params@, seed_params, extra@, declare),
{
    if params.len() == 0 && seed_params.is_empty() && extra.len() == 0 {
        return String::new();
    }
    let mut out = String::from_str("<");
    out.append(render_seed_params(seed_params).as_str());
    out.append(render_params(params, true, declare).as_str());
    out.append(render_params(extra, true, declare).as_str());
    out.append(render_params(params, false, declare).as_str());
    out.append(render_params(extra, false, declare).as_str());
    out.append(">");
    out
}

/// The parameter list of a generated item where it is declared: every
/// parameter with its bounds, defaults left off.
pub struct SeededImplGenerics<'a> {
    generics: &'a Generics,
    seed_params: SeedParams,
    extra_params: &'a [GenericParam],
}

impl<'a> SeededImplGenerics<'a> {
    /// The type's parameters `self` was made for.
    pub closed spec fn params(&self) -> Seq<GenericParam> {
        self.generics.params@
    }

    /// The added lifetimes asked for so far.
    pub closed spec fn seed_params(&self) -> SeedParams {
        self.seed_params
    }

    /// The extra parameters asked for.
    pub closed spec fn extra_params(&self) -> Seq<GenericParam> {
        self.extra_params@
    }

    /// The list as source text.
    pub open spec fn text(&self) -> Seq<char> {
        generics_text(self.params(), self.seed_params(), self.extra_params(), true)
    }

    /// The parameters of the type alone.
    pub fn new(generics: &'a Generics) -> (r: Self)
        ensures
            r.params() == generics.params@,
            r.seed_params() == SeedParams::spec_none(),
            r.extra_params() == Seq::<GenericParam>::empty(),
    {
        Self { generics, seed_params: SeedParams::none(), extra_params: &[] }
    }

    /// The same list with the lifetimes of `params` added.
    pub fn with(self, params: SeedParams) -> (r: Self)
        ensures
            r.params() == self.params(),
            r.seed_params() == self.seed_params().union(params),
            r.extra_params() == self.extra_params(),
    {
        Self {
            generics: self.generics,
            seed_params: self.seed_params.union(params),
            extra_params: self.extra_params,
        }
    }

    /// The same list with `params` as its extra parameters.
    pub fn with_extra_params(self, params: &'a [GenericParam]) -> (r: Self)
        ensures
            r.params() == self.params(),
            r.seed_params() == self.seed_params(),
            r.extra_params() == params@,
    {
        Self { generics: self.generics, seed_params: self.seed_params, extra_params: params }
    }

    /// Writes the list at the end of `tokens`.
    pub fn to_tokens(&self, tokens: &mut String)
        ensures
            final(tokens)@ == old(tokens)@ + self.text(),
    {
        let s = render_generics(
            self.generics.params.as_slice(),
            self.seed_params,
            self.extra_params,
            true,
        );
        tokens.append(s.as_str());
    }
}

/// The parameter list of a generated item where it is referred to: the
/// name of every parameter, nothing else.
pub struct SeededTypeGenerics<'a> {
    generics: &'a Generics,
    params: SeedParams,
    extra_params: &'a [GenericParam],
}

impl<'a> SeededTypeGenerics<'a> {
    /// The type's parameters `self` was made for.
    pub closed spec fn params(&self) -> Seq<GenericParam> {
        self.generics.params@
    }

    /// The added lifetimes asked for so far.
    pub closed spec fn seed_params(&self) -> SeedParams {
        self.params
    }

    /// The extra parameters asked for.
    pub closed spec fn extra_params(&self) -> Seq<GenericParam> {
        self.extra_params@
    }

    /// The list as source text.
    pub open spec fn text(&self) -> Seq<char> {
        generics_text(self.params(), self.seed_params(), self.extra_params(), false)
    }

    /// The parameters of the type alone.
    pub fn new(generics: &'a Generics) -> (r: Self)
        ensures
            r.params() == generics.params@,
            r.seed_params() == SeedParams::spec_none(),
            r.extra_params() == Seq::<GenericParam>::empty(),
    {
        Self { generics, params: SeedParams::none(), extra_params: &[] }
    }

    /// The same list with the lifetimes of `params` added.
    pub fn with(self, params: SeedParams) -> (r: Self)
        ensures
            r.params() == self.params(),
            r.seed_params() == self.seed_params().union(params),
            r.extra_params() == self.extra_params(),
    {
        Self {
            generics: self.generics,
            params: self.params.union(params),
            extra_params: self.extra_params,
        }
    }

    /// The same list with `params` as its extra parameters.
    pub fn with_extra_params(self, params: &'a [GenericParam]) -> (r: Self)
        ensures
            r.params() == self.params(),
            r.seed_params() == self.seed_params(),
            r.extra_params() == params@,
    {
        Self { generics: self.generics, params: self.params, extra_params: params }
    }

    /// Writes the list at the end of `tokens`.
    pub fn to_tokens(&self, tokens: &mut String)
        ensures
            final(tokens)@ == old(tokens)@ + self.text(),
    {
        let s = render_generics(
            self.generics.params.as_slice(),
            self.params,
            self.extra_params,
            false,
        );
        tokens.append(s.as_str());
    }
}

/// One entry of a parameter list.
pub enum Listed {
    /// A lifetime that generated code adds.
    Added(SeedParam),
    /// The type's own parameter at this position of its declaration.
    Own(int),
    /// The extra parameter at this position of the seed specification.
    Extra(int),
}

/// The added lifetimes of a set, in the order they are listed.
pub open spec fn added(p: SeedParams) -> Seq<Listed> {
    (if p.value_lft {
        seq![Listed::Added(SeedParam::ValueLifetime)]
    } else {
        Seq::empty()
    }) + (if p.seed_lft {
        seq![Listed::Added(SeedParam::SeedLifetime)]
    } else {
        Seq::empty()
    }) + (if p.de_lft {
        seq![Listed::Added(SeedParam::DeLifetime)]
    } else {
        Seq::empty()
    })
}

/// Those of the first `n` parameters that are lifetimes (or, with
/// `lifetimes` false, those that are not), in order; `own` says whose
/// parameters they are.
pub open spec fn selected(params: Seq<GenericParam>, n: nat, lifetimes: bool, own: bool) -> Seq<
    Listed,
>
    decreases n,
{
    if n == 0 || n > params.len() {
        Seq::empty()
    } else if params[n - 1].is_lifetime() == lifetimes {
        selected(params, (n - 1) as nat, lifetimes, own).push(
            if own {
                Listed::Own(n - 1)
            } else {
                Listed::Extra(n - 1)
            },
        )
    } else {
        selected(params, (n - 1) as nat, lifetimes, own)
    }
}

/// What a parameter list lists, in order.
pub open spec fn listing(
    params: Seq<GenericParam>,
    seed_params: SeedParams,
    extra: Seq<GenericParam>,
) -> Seq<Listed> {
    added(seed_params) + selected(params, params.len(), true, true) + selected(
        extra,
        extra.len(),
        true,
        false,
    ) + selected(params, params.len(), false, true) + selected(extra, extra.len(), false, false)
}

/// One entry as it stands in a list.
pub open spec fn listed_text(
    params: Seq<GenericParam>,
    extra: Seq<GenericParam>,
    entry: Listed,
    declare: bool,
) -> Seq<char> {
    match entry {
        Listed::Added(SeedParam::ValueLifetime) => "'value"@,
        Listed::Added(SeedParam::SeedLifetime) => "'seed"@,
        Listed::Added(SeedParam::DeLifetime) => "'de"@,
        Listed::Own(i) => param_text(params[i], declare),
        Listed::Extra(i) => param_text(extra[i], declare),
    }
}

/// The first `n` entries as they stand in a list, a comma after each.
pub open spec fn listing_text(
    params: Seq<GenericParam>,
    extra: Seq<GenericParam>,
    entries: Seq<Listed>,
    n: nat,
    declare: bool,
) -> Seq<char>
    decreases n,
{
    if n == 0 || n > entries.len() {
        Seq::empty()
    } else {
        listing_text(params, extra, entries, (n - 1) as nat, declare) + listed_text(
            params,
            extra,
            entries[n - 1],
            declare,
        ) + ", "@
    }
}

/// Where an entry belongs: first the added lifetimes, then the type's
/// lifetimes, the extra lifetimes, the type's other parameters, the extra
/// other parameters; inside each group, the position it was declared at.
pub open spec fn place(params: Seq<GenericParam>, extra: Seq<GenericParam>, entry: Listed) -> (
    int,
    int,
) {
    match entry {
        Listed::Added(SeedParam::ValueLifetime) => (0, 0),
        Listed::Added(SeedParam::SeedLifetime) => (0, 1),
        Listed::Added(SeedParam::DeLifetime) => (0, 2),
        Listed::Own(i) => (
            if params[i].is_lifetime() {
                1
            } else {
                3
            },
            i,
        ),
        Listed::Extra(i) => (
            if extra[i].is_lifetime() {
                2
            } else {
                4
            },
            i,
        ),
    }
}

/// Whether one place comes before another.
pub open spec fn before(a: (int, int), b: (int, int)) -> bool {
    a.0 < b.0 || (a.0 == b.0 && a.1 < b.1)
}

proof fn lemma_selected(params: Seq<GenericParam>, n: nat, lifetimes: bool, own: bool)
    requires
        n <= params.len(),
    ensures
        forall|k: int|
            0 <= k < selected(params, n, lifetimes, own).len() ==> match #[trigger] selected(
                params,
                n,
                lifetimes,
                own,
            )[k] {
                Listed::Own(i) => own && 0 <= i < n && params[i].is_lifetime() == lifetimes,
                Listed::Extra(i) => !own && 0 <= i < n && params[i].is_lifetime() == lifetimes,
                Listed::Added(_) => false,
            },
        forall|j: int, k: int|
            0 <= j < k < selected(params, n, lifetimes, own).len() ==> (#[trigger] selected(
                params,
                n,
                lifetimes,
                own,
            )[j] matches Listed::Own(a) && #[trigger] selected(
                params,
                n,
                lifetimes,
                own,
            )[k] matches Listed::Own(b) && a < b) || (selected(
                params,
                n,
                lifetimes,
                own,
            )[j] matches Listed::Extra(a) && selected(
                params,
                n,
                lifetimes,
                own,
            )[k] matches Listed::Extra(b) && a < b),
        forall|i: int|
            0 <= i < n && (#[trigger] params[i]).is_lifetime() == lifetimes ==> selected(
                params,
                n,
                lifetimes,
                own,
            ).contains(
                if own {
                    Listed::Own(i)
                } else {
                    Listed::Extra(i)
                },
            ),
    decreases n,
{
    if n > 0 {
        lemma_selected(params, (n - 1) as nat, lifetimes, own);
        let rest = selected(params, (n - 1) as nat, lifetimes, own);
        let all = selected(params, n, lifetimes, own);
        assert forall|i: int|
            0 <= i < n && (#[trigger] params[i]).is_lifetime() == lifetimes implies all.contains(
            if own {
                Listed::Own(i)
            } else {
                Listed::Extra(i)
            },
        ) by {
            let e = if own {
                Listed::Own(i)
            } else {
                Listed::Extra(i)
            };
            if i < n - 1 {
                assert(rest.contains(e));
                let k = choose|k: int| 0 <= k < rest.len() && rest[k] == e;
                assert(all[k] == e);
            } else {
                assert(all[all.len() - 1] == e);
            }
        }
    }
}

proof fn lemma_selected_text(
    params: Seq<GenericParam>,
    extra: Seq<GenericParam>,
    n: nat,
    lifetimes: bool,
    own: bool,
    declare: bool,
)
    requires
        n <= (if own {
            params.len()
        } else {
            extra.len()
        }),
    ensures
        listing_text(
            params,
            extra,
            selected(
                if own {
                    params
                } else {
                    extra
                },
                n,
                lifetimes,
                own,
            ),
            selected(
                if own {
                    params
                } else {
                    extra
                },
                n,
                lifetimes,
                own,
            ).len(),
            declare,
        ) == params_text(
            if own {
                params
            } else {
                extra
            },
            n,
            lifetimes,
            declare,
        ),
    decreases n,
{
    let from = if own {
        params
    } else {
        extra
    };
    if n > 0 {
        lemma_selected_text(params, extra, (n - 1) as nat, lifetimes, own, declare);
        let rest = selected(from, (n - 1) as nat, lifetimes, own);
        let all = selected(from, n, lifetimes, own);
        if from[n - 1].is_lifetime() == lifetimes {
            lemma_listing_text_prefix(params, extra, rest, all, rest.len(), declare);
            assert(listing_text(params, extra, all, all.len(), declare) =~= params_text(
                from,
                (n - 1) as nat,
                lifetimes,
                declare,
            ) + (param_text(from[n - 1], declare) + ", "@));
        } else {
            assert(params_text(from, n, lifetimes, declare) =~= params_text(
                from,
                (n - 1) as nat,
                lifetimes,
                declare,
            ));
        }
    }
}

proof fn lemma_listing_text_prefix(
    params: Seq<GenericParam>,
    extra: Seq<GenericParam>,
    a: Seq<Listed>,
    b: Seq<Listed>,
    m: nat,
    declare: bool,
)
    requires
        m <= a.len(),
        m <= b.len(),
        forall|j: int| 0 <= j < m ==> a[j] == b[j],
    ensures
        listing_text(params, extra, a, m, declare) == listing_text(params, extra, b, m, declare),
    decreases m,
{
    if m > 0 {
        lemma_listing_text_prefix(params, extra, a, b, (m - 1) as nat, declare);
    }
}

proof fn lemma_listing_text_concat(
    params: Seq<GenericParam>,
    extra: Seq<GenericParam>,
    a: Seq<Listed>,
    b: Seq<Listed>,
    m: nat,
    declare: bool,
)
    requires
        m <= b.len(),
    ensures
        listing_text(params, extra, a + b, a.len() + m, declare) == listing_text(
            params,
            extra,
            a,
            a.len(),
            declare,
        ) + listing_text(params, extra, b, m, declare),
    decreases m,
{
    if m == 0 {
        lemma_listing_text_prefix(params, extra, a + b, a, a.len(), declare);
        assert(listing_text(params, extra, a, a.len(), declare) + Seq::<char>::empty()
            =~= listing_text(params, extra, a, a.len(), declare));
    } else {
        lemma_listing_text_concat(params, extra, a, b, (m - 1) as nat, declare);
        assert((a + b)[a.len() + m - 1] == b[m - 1]);
        let x = listing_text(params, extra, a, a.len(), declare);
        let y = listing_text(params, extra, b, (m - 1) as nat, declare);
        let z = listed_text(params, extra, b[m - 1], declare);
        assert(x + y + z + ", "@ =~= x + (y + z + ", "@));
    }
}

proof fn lemma_added_text(
    params: Seq<GenericParam>,
    extra: Seq<GenericParam>,
    p: SeedParams,
    declare: bool,
)
    ensures
        listing_text(params, extra, added(p), added(p).len(), declare) == seed_params_text(p),
{
    reveal_strlit("'value, ");
    reveal_strlit("'seed, ");
    reveal_strlit("'de, ");
    reveal_strlit("'value");
    reveal_strlit("'seed");
    reveal_strlit("'de");
    reveal_strlit(", ");
    assert("'value"@ + ", "@ =~= "'value, "@);
    assert("'seed"@ + ", "@ =~= "'seed, "@);
    assert("'de"@ + ", "@ =~= "'de, "@);
    let empty = Seq::<Listed>::empty();
    let v = if p.value_lft {
        seq![Listed::Added(SeedParam::ValueLifetime)]
    } else {
        empty
    };
    let s = if p.seed_lft {
        seq![Listed::Added(SeedParam::SeedLifetime)]
    } else {
        empty
    };
    let d = if p.de_lft {
        seq![Listed::Added(SeedParam::DeLifetime)]
    } else {
        empty
    };
    reveal_with_fuel(listing_text, 2);
    assert(listing_text(params, extra, v, v.len(), declare) =~= if p.value_lft {
        "'value, "@
    } else {
        Seq::empty()
    });
    assert(listing_text(params, extra, s, s.len(), declare) =~= if p.seed_lft {
        "'seed, "@
    } else {
        Seq::empty()
    });
    assert(listing_text(params, extra, d, d.len(), declare) =~= if p.de_lft {
        "'de, "@
    } else {
        Seq::empty()
    });
    lemma_listing_text_concat(params, extra, v, s, s.len(), declare);
    lemma_listing_text_concat(params, extra, v + s, d, d.len(), declare);
}

/// What a parameter list says: between its angle brackets stand the
/// entries of its listing, in order, a comma after each.
pub proof fn lemma_generics_text_lists(
    params: Seq<GenericParam>,
    seed_params: SeedParams,
    extra: Seq<GenericParam>,
    declare: bool,
)
    ensures
        generics_text(params, seed_params, extra, declare) == if params.len() == 0
            && seed_params.is_empty() && extra.len() == 0 {
            Seq::<char>::empty()
        } else {
            "<"@ + listing_text(
                params,
                extra,
                listing(params, seed_params, extra),
                listing(params, seed_params, extra).len(),
                declare,
            ) + ">"@
        },
{
    if !(params.len() == 0 && seed_params.is_empty() && extra.len() == 0) {
        let a = added(seed_params);
        let b = selected(params, params.len(), true, true);
        let c = selected(extra, extra.len(), true, false);
        let d = selected(params, params.len(), false, true);
        let e = selected(extra, extra.len(), false, false);
        let ta = listing_text(params, extra, a, a.len(), declare);
        let tb = listing_text(params, extra, b, b.len(), declare);
        let tc = listing_text(params, extra, c, c.len(), declare);
        let td = listing_text(params, extra, d, d.len(), declare);
        let te = listing_text(params, extra, e, e.len(), declare);
        lemma_added_text(params, extra, seed_params, declare);
        lemma_selected_text(params, extra, params.len(), true, true, declare);
        lemma_selected_text(params, extra, extra.len(), true, false, declare);
        lemma_selected_text(params, extra, params.len(), false, true, declare);
        lemma_selected_text(params, extra, extra.len(), false, false, declare);
        lemma_listing_text_concat(params, extra, a, b, b.len(), declare);
        lemma_listing_text_concat(params, extra, a + b, c, c.len(), declare);
        lemma_listing_text_concat(params, extra, a + b + c, d, d.len(), declare);
        lemma_listing_text_concat(params, extra, a + b + c + d, e, e.len(), declare);
        let all = listing(params, seed_params, extra);
        assert(all == a + b + c + d + e);
        assert(listing_text(params, extra, all, all.len(), declare) == ta + tb + tc + td + te);
        lemma_add_assoc("<"@, ta, tb);
        lemma_add_assoc("<"@, ta + tb, tc);
        lemma_add_assoc("<"@, ta + tb + tc, td);
        lemma_add_assoc("<"@, ta + tb + tc + td, te);
    }
}

proof fn lemma_add_assoc(x: Seq<char>, y: Seq<char>, z: Seq<char>)
    ensures
        x + y + z == x + (y + z),
{
    assert(x + y + z =~= x + (y + z));
}

/// The order of a parameter list: every entry stands before the entries
/// that belong after it. So lifetimes stand before types and constants,
/// the added lifetimes before the type's own, extra parameters after the
/// type's own of their kind, and parameters of one origin and kind in the
/// order they were declared in. And nothing is left out: every parameter
/// of the type and every extra parameter is listed, and so is every added
/// lifetime that was asked for.
pub proof fn lemma_listing_order(
    params: Seq<GenericParam>,
    seed_params: SeedParams,
    extra: Seq<GenericParam>,
)
    ensures
        forall|j: int, k: int|
            0 <= j < k < listing(params, seed_params, extra).len() ==> before(
                place(params, extra, #[trigger] listing(params, seed_params, extra)[j]),
                place(params, extra, #[trigger] listing(params, seed_params, extra)[k]),
            ),
        forall|i: int|
            0 <= i < params.len() ==> #[trigger] listing(params, seed_params, extra).contains(
                Listed::Own(i),
            ),
        forall|i: int|
            0 <= i < extra.len() ==> #[trigger] listing(params, seed_params, extra).contains(
                Listed::Extra(i),
            ),
        seed_params.value_lft ==> listing(params, seed_params, extra).contains(
            Listed::Added(SeedParam::ValueLifetime),
        ),
        seed_params.seed_lft ==> listing(params, seed_params, extra).contains(
            Listed::Added(SeedParam::SeedLifetime),
        ),
        seed_params.de_lft ==> listing(params, seed_params, extra).contains(
            Listed::Added(SeedParam::DeLifetime),
        ),
{
    let a = added(seed_params);
    let b = selected(params, params.len(), true, true);
    let c = selected(extra, extra.len(), true, false);
    let d = selected(params, params.len(), false, true);
    let e = selected(extra, extra.len(), false, false);
    let all = listing(params, seed_params, extra);
    lemma_selected(params, params.len(), true, true);
    lemma_selected(extra, extra.len(), true, false);
    lemma_selected(params, params.len(), false, true);
    lemma_selected(extra, extra.len(), false, false);
    assert forall|j: int| 0 <= j < all.len() implies #[trigger] all[j] == (if j < a.len() {
        a[j]
    } else if j < a.len() + b.len() {
        b[j - a.len()]
    } else if j < a.len() + b.len() + c.len() {
        c[j - a.len() - b.len()]
    } else if j < a.len() + b.len() + c.len() + d.len() {
        d[j - a.len() - b.len() - c.len()]
    } else {
        e[j - a.len() - b.len() - c.len() - d.len()]
    }) by {}
    assert forall|j: int| 0 <= j < a.len() implies place(params, extra, #[trigger] a[j]).0
        == 0 by {}
    assert forall|j: int, k: int| 0 <= j < k < a.len() implies before(
        place(params, extra, #[trigger] a[j]),
        place(params, extra, #[trigger] a[k]),
    ) by {}
    assert forall|j: int, k: int| 0 <= j < k < all.len() implies before(
        place(params, extra, #[trigger] all[j]),
        place(params, extra, #[trigger] all[k]),
    ) by {
        let x = all[j];
        let y = all[k];
        if j >= a.len() && j < a.len() + b.len() {
            assert(x == b[j - a.len()]);
        }
        if k >= a.len() && k < a.len() + b.len() {
            assert(y == b[k - a.len()]);
        }
        if j >= a.len() + b.len() && j < a.len() + b.len() + c.len() {
            assert(x == c[j - a.len() - b.len()]);
        }
        if k >= a.len() + b.len() && k < a.len() + b.len() + c.len() {
            assert(y == c[k - a.len() - b.len()]);
        }
        if j >= a.len() + b.len() + c.len() && j < a.len() + b.len() + c.len() + d.len() {
            assert(x == d[j - a.len() - b.len() - c.len()]);
        }
        if k >= a.len() + b.len() + c.len() && k < a.len() + b.len() + c.len() + d.len() {
            assert(y == d[k - a.len() - b.len() - c.len()]);
        }
        if j >= a.len() + b.len() + c.len() + d.len() {
            assert(x == e[j - a.len() - b.len() - c.len() - d.len()]);
        }
        if k >= a.len() + b.len() + c.len() + d.len() {
            assert(y == e[k - a.len() - b.len() - c.len() - d.len()]);
        }
    }
    assert forall|i: int| 0 <= i < params.len() implies #[trigger] all.contains(
        Listed::Own(i),
    ) by {
        if params[i].is_lifetime() {
            assert(b.contains(Listed::Own(i)));
            let k = choose|k: int| 0 <= k < b.len() && b[k] == Listed::Own(i);
            assert(all[a.len() + k] == Listed::Own(i));
        } else {
            assert(d.contains(Listed::Own(i)));
            let k = choose|k: int| 0 <= k < d.len() && d[k] == Listed::Own(i);
            assert(all[a.len() + b.len() + c.len() + k] == Listed::Own(i));
        }
    }
    assert forall|i: int| 0 <= i < extra.len() implies #[trigger] all.contains(
        Listed::Extra(i),
    ) by {
        if extra[i].is_lifetime() {
            assert(c.contains(Listed::Extra(i)));
            let k = choose|k: int| 0 <= k < c.len() && c[k] == Listed::Extra(i);
            assert(all[a.len() + b.len() + k] == Listed::Extra(i));
        } else {
            assert(e.contains(Listed::Extra(i)));
            let k = choose|k: int| 0 <= k < e.len() && e[k] == Listed::Extra(i);
            assert(all[a.len() + b.len() + c.len() + d.len() + k] == Listed::Extra(i));
        }
    }
    if seed_params.value_lft {
        assert(all[0] == Listed::Added(SeedParam::ValueLifetime));
    }
    if seed_params.seed_lft {
        let at = if seed_params.value_lft {
            1int
        } else {
            0int
        };
        assert(all[at] == Listed::Added(SeedParam::SeedLifetime));
    }
    if seed_params.de_lft {
        assert(all[a.len() - 1] == Listed::Added(SeedParam::DeLifetime));
    }
}

/// The first `n` predicates, a comma after each.
pub open spec fn predicates_text(predicates: Seq<WherePredicateView>, n: nat) -> Seq<char>
    decreases n,
{
    if n == 0 || n > predicates.len() {
        Seq::empty()
    } else {
        predicates_text(predicates, (n - 1) as nat) + predicates[n - 1].text + ", "@
    }
}

/// A `where` clause; nothing where there is no predicate.
pub open spec fn where_text(predicates: Seq<WherePredicateView>) -> Seq<char> {
    if predicates.len() == 0 {
        Seq::empty()
    } else {
        "where "@ + predicates_text(predicates, predicates.len())
    }
}

/// Writes a `where` clause.
pub fn write_where(predicates: &[WherePredicate]) -> (r: String)
    ensures
        r@ == where_text(predicate_views(predicates@)),
{
    if predicates.len() == 0 {
        return String::new();
    }
    let mut list = String::new();
    let mut i: usize = 0;
    while i < predicates.len()
        invariant
            i <= predicates.len(),
            list@ == predicates_text(predicate_views(predicates@), i as nat),
        decreases predicates.len() - i,
    {
        list.append(predicates[i].text.as_str());
        list.append(", ");
        i += 1;
    }
    let mut out = String::from_str("where ");
    out.append(list.as_str());
    out
}

/// What a step of `TryFilterMap` hands out for what its function gave: a
/// value or an error is handed on; where the function gave no value, the
/// walk ends.
pub open spec fn transposed<U, E>(out: Result<Option<U>, E>) -> Option<Result<U, E>> {
    match out {
        Ok(Some(u)) => Some(Ok(u)),
        Ok(None) => None,
        Err(e) => Some(Err(e)),
    }
}

/// A walk over the items of `inner` that hands each to `f`.
pub struct TryFilterMap<I, F> {
    pub inner: I,
    pub f: F,
}

/// Starts a walk that hands each item to a function that may fail.
pub trait TryFilterMapExt: Sized {
    /// The walk over `self` with `f`.
    fn try_filter_map<F>(self, f: F) -> (r: TryFilterMap<Self, F>)
        ensures
            r.inner == self,
            r.f == f,
    ;
}

impl<T> TryFilterMapExt for Vec<T> {
    fn try_filter_map<F>(self, f: F) -> (r: TryFilterMap<Self, F>) {
        TryFilterMap { inner: self, f }
    }
}

impl<T, F> TryFilterMap<Vec<T>, F> {
    /// Takes the first item that is left and hands it to the function.
    /// With no item left, there is nothing to hand out, and so it is when
    /// the function gives no value; else what the function gave is handed
    /// out.
    pub fn next<U, E>(&mut self) -> (r: Option<Result<U, E>>) where F: Fn(T) -> Result<Option<U>, E>
        requires
            old(self).inner@.len() > 0 ==> call_requires(old(self).f, (old(self).inner@[0],)),
        ensures
            final(self).f == old(self).f,
            old(self).inner@.len() == 0 ==> r is None && final(self).inner@ == old(self).inner@,
            old(self).inner@.len() > 0 ==> final(self).inner@ == old(self).inner@.remove(0)
                && exists|out: Result<Option<U>, E>|
                #[trigger] call_ensures(old(self).f, (old(self).inner@[0],), out) && r
                    == transposed(out),
    {
        if self.inner.len() == 0 {
            return None;
        }
        let item = self.inner.remove(0);
        let out = (self.f)(item);
        let ghost given = out;
        let r = match out {
            Ok(Some(u)) => Some(Ok(u)),
            Ok(None) => None,
            Err(e) => Some(Err(e)),
        };
        assert(call_ensures(old(self).f, (old(self).inner@[0],), given) && r == transposed(given));
        r
    }
}

} // verus!
