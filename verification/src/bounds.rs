//! The bounds that a generated implementation needs on the type's own
//! parameters.
//!
//! A generic type can hand the seed on to a field of type `T` only if `T`
//! can itself be encoded (or decoded) with that seed. So every type
//! parameter gets that bound, unless the seed specification bounds the
//! parameter itself with `override_bounds(...)`: then its bound is taken as
//! written and none is generated.

use vstd::prelude::*;
use vstd::string::*;
use crate::item::{GenericParam, ParamKind, WherePredicate, WherePredicateView, predicate_views};
use crate::text::str_eq;

verus! {

/// The two directions an implementation is generated for.
#[derive(Clone, Copy, Debug, PartialEq, Eq, Structural)]
pub enum Direction {
    /// Encoding: `SerializeSeeded`.
    Ser,
    /// Decoding: `DeserializeSeeded`.
    De,
}

/// The trait that a direction's bound names, up to the seed's type.
pub open spec fn bound_head(direction: Direction) -> Seq<char> {
    match direction {
        Direction::Ser => ": ::serde_seeded::SerializeSeeded<"@,
        Direction::De => ": ::serde_seeded::DeserializeSeeded<'de, "@,
    }
}

/// The bound "`ident` can be encoded (decoded) with a seed of type
/// `seed_ty`".
pub open spec fn seeded_bound(
    direction: Direction,
    ident: Seq<char>,
    seed_ty: Seq<char>,
) -> WherePredicateView {
    WherePredicateView {
        subject: ident,
        text: ident + bound_head(direction) + seed_ty + ">"@,
    }
}

/// Whether one of `bounds` bounds exactly the parameter `ident`.
pub open spec fn overridden(ident: Seq<char>, bounds: Seq<WherePredicateView>) -> bool {
    exists|i: int| 0 <= i < bounds.len() && #[trigger] bounds[i].subject == ident
}

/// The bounds generated for the first `n` parameters: one for each type
/// parameter that `override_bounds` does not bound, in order.
pub open spec fn synthesized(
    direction: Direction,
    params: Seq<GenericParam>,
    n: nat,
    seed_ty: Seq<char>,
    override_bounds: Seq<WherePredicateView>,
) -> Seq<WherePredicateView>
    decreases n,
{
    if n == 0 || n > params.len() {
        Seq::empty()
    } else {
        let rest = synthesized(direction, params, (n - 1) as nat, seed_ty, override_bounds);
        let p = params[n - 1];
        if p.kind == ParamKind::Type && !overridden(p.ident@, override_bounds) {
            rest.push(seeded_bound(direction, p.ident@, seed_ty))
        } else {
            rest
        }
    }
}

/// Every generated bound is the seeded bound of a type parameter that is
/// not overridden, and every such parameter has its bound generated.
pub proof fn lemma_synthesized_exact(
    direction: Direction,
    params: Seq<GenericParam>,
    n: nat,
    seed_ty: Seq<char>,
    override_bounds: Seq<WherePredicateView>,
)
    requires
        n <= params.len(),
    ensures
        forall|b: WherePredicateView| #[trigger]
            synthesized(direction, params, n, seed_ty, override_bounds).contains(b) <==> exists|
                i: int,
            |
                0 <= i < n && (#[trigger] params[i]).kind == ParamKind::Type && !overridden(
                    params[i].ident@,
                    override_bounds,
                ) && b == seeded_bound(direction, params[i].ident@, seed_ty),
    decreases n,
{
    if n > 0 {
        lemma_synthesized_exact(direction, params, (n - 1) as nat, seed_ty, override_bounds);
        let rest = synthesized(direction, params, (n - 1) as nat, seed_ty, override_bounds);
        let all = synthesized(direction, params, n, seed_ty, override_bounds);
        let p = params[n - 1];
        let fresh = p.kind == ParamKind::Type && !overridden(p.ident@, override_bounds);
        assert forall|b: WherePredicateView| #[trigger] all.contains(b) <==> exists|i: int|
            0 <= i < n && (#[trigger] params[i]).kind == ParamKind::Type && !overridden(
                params[i].ident@,
                override_bounds,
            ) && b == seeded_bound(direction, params[i].ident@, seed_ty) by {
            if all.contains(b) {
                if fresh {
                    let k = choose|k: int| 0 <= k < all.len() && all[k] == b;
                    if k < rest.len() {
                        assert(rest[k] == b);
                        assert(rest.contains(b));
                    } else {
                        assert(b == seeded_bound(direction, params[n - 1].ident@, seed_ty));
                    }
                } else {
                    assert(rest.contains(b));
                }
            }
            if exists|i: int|
                0 <= i < n && (#[trigger] params[i]).kind == ParamKind::Type && !overridden(
                    params[i].ident@,
                    override_bounds,
                ) && b == seeded_bound(direction, params[i].ident@, seed_ty) {
                let i = choose|i: int|
                    0 <= i < n && (#[trigger] params[i]).kind == ParamKind::Type && !overridden(
                        params[i].ident@,
                        override_bounds,
                    ) && b == seeded_bound(direction, params[i].ident@, seed_ty);
                if i < n - 1 {
                    assert(rest.contains(b));
                    let k = choose|k: int| 0 <= k < rest.len() && rest[k] == b;
                    assert(all[k] == b);
                } else {
                    assert(all[all.len() - 1] == b);
                }
            }
        }
    }
}

fn is_overridden(ident: &str, bounds: &[WherePredicate]) -> (r: bool)
    ensures
        r == overridden(ident@, predicate_views(bounds@)),
{
    let mut i: usize = 0;
    while i < bounds.len()
        invariant
            i <= bounds.len(),
            forall|j: int|
                0 <= j < i ==> (#[trigger] predicate_views(bounds@)[j]).subject != ident@,
        decreases bounds.len() - i,
    {
        if str_eq(bounds[i].subject.as_str(), ident) {
            assert(predicate_views(bounds@)[i as int].subject == ident@);
            return true;
        }
        i += 1;
    }
    false
}

fn write_seeded_bound(direction: Direction, ident: &str, seed_ty: &str) -> (r: WherePredicate)
    ensures
        r@ == seeded_bound(direction, ident@, seed_ty@),
{
    let mut text = String::from_str(ident);
    match direction {
        Direction::Ser => {
            text.append(": ::serde_seeded::SerializeSeeded<");
        },
        Direction::De => {
            text.append(": ::serde_seeded::DeserializeSeeded<'de, ");
        },
    }
    text.append(seed_ty);
    text.append(">");
    WherePredicate { subject: String::from_str(ident), text }
}

/// The bounds to generate for `params`: for each type parameter that
/// `override_bounds` does not bound itself, in order, that it can be
/// encoded (decoded) with a seed of type `seed_ty`.
pub fn synthesize(
    direction: Direction,
    params: &[GenericParam],
    seed_ty: &str,
    override_bounds: &[WherePredicate],
) -> (r: Vec<WherePredicate>)
    ensures
        predicate_views(r@) == synthesized(
            direction,
            params@,
            params@.len(),
            seed_ty@,
            predicate_views(override_bounds@),
        ),
{
    let mut result: Vec<WherePredicate> = Vec::new();
    let mut i: usize = 0;
    assert(predicate_views(result@) =~= Seq::empty());
    while i < params.len()
        invariant
            i <= params.len(),
            predicate_views(result@) == synthesized(
                direction,
                params@,
                i as nat,
                seed_ty@,
                predicate_views(override_bounds@),
            ),
        decreases params.len() - i,
    {
        let p = &params[i];
        let is_type = match p.kind {
            ParamKind::Type => true,
            _ => false,
        };
        if is_type && !is_overridden(p.ident.as_str(), override_bounds) {
            let b = write_seeded_bound(direction, p.ident.as_str(), seed_ty);
            let ghost before = result@;
            let ghost view = b@;
            result.push(b);
            assert(predicate_views(result@) =~= predicate_views(before).push(view));
        }
        i += 1;
    }
    result
}

} // verus!
