use serde_seeded::bounds::{synthesize, Direction};
use serde_seeded::de::Seed;
use serde_seeded::item::{GenericParam, Generics, ParamKind, WherePredicate};
use serde_seeded::ser::Seeded;
use serde_seeded::utils::{
    write_where, SeedParam, SeedParams, SeededImplGenerics, SeededTypeGenerics, TryFilterMapExt,
};

fn param(kind: ParamKind, attrs: &str, ident: &str, bounds: &str) -> GenericParam {
    GenericParam {
        kind,
        attrs: attrs.to_string(),
        ident: ident.to_string(),
        bounds: bounds.to_string(),
    }
}

fn predicate(subject: &str, text: &str) -> WherePredicate {
    WherePredicate { subject: subject.to_string(), text: text.to_string() }
}

fn sample() -> Generics {
    Generics {
        params: vec![
            param(ParamKind::Type, "", "T", "Clone + 'a"),
            param(ParamKind::Lifetime, "", "'a", ""),
            param(ParamKind::Const, "#[x] ", "N", "usize"),
            param(ParamKind::Lifetime, "", "'b", "'a"),
            param(ParamKind::Type, "", "U", ""),
        ],
        where_clause: vec![],
    }
}

fn impl_text(g: SeededImplGenerics) -> String {
    let mut out = String::from("impl");
    g.to_tokens(&mut out);
    out
}

fn type_text(g: SeededTypeGenerics) -> String {
    let mut out = String::from("T");
    g.to_tokens(&mut out);
    out
}

#[test]
fn nothing_to_list_renders_as_nothing() {
    let g = Generics { params: vec![], where_clause: vec![] };
    assert_eq!(impl_text(SeededImplGenerics::new(&g)), "impl");
    assert_eq!(type_text(SeededTypeGenerics::new(&g)), "T");
    assert_eq!(impl_text(SeededImplGenerics::new(&g).with(SeedParams::none())), "impl");
    assert_eq!(impl_text(SeededImplGenerics::new(&g).with_extra_params(&[])), "impl");
}

#[test]
fn lifetimes_come_before_types_and_constants() {
    let g = sample();
    assert_eq!(
        impl_text(SeededImplGenerics::new(&g)),
        "impl<'a, 'b: 'a, T: Clone + 'a, #[x] const N: usize, U, >"
    );
    assert_eq!(type_text(SeededTypeGenerics::new(&g)), "T<'a, 'b, T, N, U, >");
}

#[test]
fn added_lifetimes_come_first() {
    let g = sample();
    let all = SeedParams::of(SeedParam::DeLifetime)
        .and(SeedParam::ValueLifetime)
        .and(SeedParam::SeedLifetime);
    assert_eq!(
        impl_text(SeededImplGenerics::new(&g).with(all)),
        "impl<'value, 'seed, 'de, 'a, 'b: 'a, T: Clone + 'a, #[x] const N: usize, U, >"
    );
    assert_eq!(
        type_text(SeededTypeGenerics::new(&g).with(all)),
        "T<'value, 'seed, 'de, 'a, 'b, T, N, U, >"
    );
    let none = Generics { params: vec![], where_clause: vec![] };
    assert_eq!(
        impl_text(SeededImplGenerics::new(&none).with(SeedParams::of(SeedParam::DeLifetime))),
        "impl<'de, >"
    );
    assert_eq!(
        type_text(
            SeededTypeGenerics::new(&none)
                .with(SeedParams::of(SeedParam::SeedLifetime))
                .with(SeedParams::of(SeedParam::DeLifetime))
        ),
        "T<'seed, 'de, >"
    );
}

#[test]
fn extra_parameters_come_after_the_type_s_own() {
    let g = sample();
    let extra = vec![
        param(ParamKind::Type, "", "X", "Copy"),
        param(ParamKind::Lifetime, "", "'x", ""),
        param(ParamKind::Const, "", "M", "u8"),
    ];
    assert_eq!(
        impl_text(
            SeededImplGenerics::new(&g)
                .with(SeedParams::of(SeedParam::SeedLifetime))
                .with_extra_params(&extra)
        ),
        "impl<'seed, 'a, 'b: 'a, 'x, T: Clone + 'a, #[x] const N: usize, U, X: Copy, const M: u8, >"
    );
    assert_eq!(
        type_text(
            SeededTypeGenerics::new(&g)
                .with(SeedParams::of(SeedParam::SeedLifetime))
                .with_extra_params(&extra)
        ),
        "T<'seed, 'a, 'b, 'x, T, N, U, X, M, >"
    );
    let none = Generics { params: vec![], where_clause: vec![] };
    assert_eq!(impl_text(SeededImplGenerics::new(&none).with_extra_params(&extra)), "impl<'x, X: Copy, const M: u8, >");
}

#[test]
fn rendered_lists_are_rust() {
    let g = sample();
    let text = format!("{} Tr for Ty {{}}", impl_text(SeededImplGenerics::new(&g).with(SeedParams::of(SeedParam::DeLifetime))));
    assert!(syn::parse_str::<syn::ItemImpl>(&text).is_ok());
    let text = format!("Ty{}", &type_text(SeededTypeGenerics::new(&g))[1..]);
    assert!(syn::parse_str::<syn::Type>(&text).is_ok());
}

#[test]
fn sets_of_added_lifetimes() {
    assert!(SeedParams::none().is_empty());
    assert!(!SeedParams::of(SeedParam::ValueLifetime).is_empty());
    assert_eq!(
        SeedParams::of(SeedParam::ValueLifetime),
        SeedParams { value_lft: true, seed_lft: false, de_lft: false }
    );
    assert_eq!(
        SeedParams::of(SeedParam::SeedLifetime),
        SeedParams { value_lft: false, seed_lft: true, de_lft: false }
    );
    assert_eq!(
        SeedParams::of(SeedParam::DeLifetime),
        SeedParams { value_lft: false, seed_lft: false, de_lft: true }
    );
    let both = SeedParams::of(SeedParam::SeedLifetime).union(SeedParams::of(SeedParam::DeLifetime));
    assert_eq!(both, SeedParams { value_lft: false, seed_lft: true, de_lft: true });
    assert_eq!(both.and(SeedParam::SeedLifetime), both);
    assert_eq!(both.union(SeedParams::none()), both);
}

#[test]
fn a_where_clause_lists_its_predicates() {
    assert_eq!(write_where(&[]), "");
    assert_eq!(write_where(&[predicate("T", "T: Clone")]), "where T: Clone, ");
    assert_eq!(
        write_where(&[predicate("T", "T: Clone"), predicate("'a", "'a: 'b")]),
        "where T: Clone, 'a: 'b, "
    );
}

#[test]
fn bounds_are_generated_for_type_parameters_alone() {
    let g = sample();
    let r = synthesize(Direction::Ser, &g.params, "Q", &[]);
    assert_eq!(r.len(), 2);
    assert_eq!((r[0].subject.as_str(), r[0].text.as_str()), ("T", "T: ::serde_seeded::SerializeSeeded<Q>"));
    assert_eq!((r[1].subject.as_str(), r[1].text.as_str()), ("U", "U: ::serde_seeded::SerializeSeeded<Q>"));
    let r = synthesize(Direction::De, &g.params, "Q", &[]);
    assert_eq!(r.len(), 2);
    assert_eq!(r[0].text, "T: ::serde_seeded::DeserializeSeeded<'de, Q>");
    assert_eq!(r[1].text, "U: ::serde_seeded::DeserializeSeeded<'de, Q>");
}

#[test]
fn an_overriding_bound_stands_in_for_the_generated_one() {
    let g = sample();
    let r = synthesize(Direction::Ser, &g.params, "Q", &[predicate("U", "U: Copy")]);
    assert_eq!(r.len(), 1);
    assert_eq!(r[0].subject, "T");
    let r = synthesize(
        Direction::Ser,
        &g.params,
        "Q",
        &[predicate("'a", "'a: 'b"), predicate("T", "T: Copy"), predicate("U", "U: Copy")],
    );
    assert_eq!(r.len(), 0);
    let r = synthesize(Direction::Ser, &g.params, "Q", &[predicate("T::Item", "T::Item: Copy"), predicate("N", "N: Copy")]);
    assert_eq!(r.len(), 2);
}

#[test]
fn a_walk_ends_where_the_function_gives_no_value() {
    let mut walk = vec![1u32, 2, 0, 4].try_filter_map(|x: u32| -> Result<Option<u32>, String> {
        if x == 0 {
            Ok(None)
        } else if x == 4 {
            Err("four".to_string())
        } else {
            Ok(Some(x * 10))
        }
    });
    assert_eq!(walk.next(), Some(Ok(10)));
    assert_eq!(walk.next(), Some(Ok(20)));
    assert_eq!(walk.next(), None);
    assert_eq!(walk.inner, vec![4]);
    assert_eq!(walk.next(), Some(Err("four".to_string())));
    assert_eq!(walk.next(), None);
    assert_eq!(walk.inner, Vec::<u32>::new());
}

#[test]
fn a_seed_is_paired_with_a_value() {
    let seed = 5u8;
    let s = Seeded::new(&seed, "value");
    assert_eq!(*s.seed, 5);
    assert_eq!(s.value, "value");
    let t = s.clone();
    assert_eq!(*t.seed, 5);
    assert_eq!(t.value, "value");
    let u = s;
    assert_eq!(u.value, s.value);
}

#[test]
fn a_seed_waits_for_a_value() {
    let seed = String::from("context");
    let s: Seed<String, u32> = Seed::new(&seed);
    assert_eq!(s.seed(), "context");
    let t = s.clone();
    let u = s;
    assert_eq!(t.seed(), u.seed());
    let seed: &str = "unsized";
    let s: Seed<str, u32> = Seed::new(seed);
    assert_eq!(s.seed(), "unsized");
}
