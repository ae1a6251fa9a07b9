use kailua_core::context::TypeContext;
use kailua_core::eq::eq_t;
use kailua_core::join::from_kind;
use kailua_core::kind::K;
use kailua_core::tag::Tag;
use kailua_core::value::{S, T};

fn s(x: &str) -> Vec<u8> {
    x.as_bytes().to_vec()
}

fn or(a: T, b: T) -> T {
    let mut ctx = TypeContext::new();
    a.union(b, &mut ctx)
}

#[test]
fn dynamic_eclipses_and_bottom_is_identity() {
    assert!(eq_t(&or(T::Dynamic, T::integer()), &T::Dynamic));
    assert!(eq_t(&or(T::integer(), T::Dynamic), &T::Dynamic));
    assert!(eq_t(&or(T::Bottom, T::string()), &T::string()));
    assert!(eq_t(&or(T::string(), T::Bottom), &T::string()));
}

#[test]
fn literal_number_sets_merge() {
    assert!(eq_t(&or(T::int_of(3), T::int_of(4)), &T::ints(vec![3, 4])));
    assert!(eq_t(&or(T::ints(vec![3, 4]), T::int_of(5)), &T::ints(vec![3, 4, 5])));
    assert!(eq_t(&or(T::ints(vec![3, 4]), T::integer()), &T::integer()));
    assert!(eq_t(&or(T::integer(), T::number()), &T::number()));
    assert!(eq_t(&or(T::int_of(3), T::int_of(3)), &T::int_of(3)));
}

#[test]
fn array_joins_merge_slotwise() {
    assert!(eq_t(
        &or(T::array(S::Just(T::integer())), T::array(S::Just(T::integer()))),
        &T::array(S::Just(T::integer())),
    ));
    assert!(eq_t(
        &or(T::array(S::Var(T::integer())), T::array(S::Var(T::integer()))),
        &T::array(S::VarOrConst(T::integer(), kailua_core::value::Mark::any())),
    ));
    assert!(eq_t(
        &or(T::array(S::Just(T::int_of(3))), T::array(S::Just(T::int_of(4)))),
        &T::array(S::Just(T::ints(vec![3, 4]))),
    ));
}

#[test]
fn record_merge_promotes_one_sided_keys() {
    let left = T::record(vec![
        (s("foo"), S::Just(T::int_of(3))),
        (s("bar"), S::Just(T::string())),
    ]);
    let right = T::record(vec![(s("foo"), S::Just(T::int_of(4)))]);
    let expected = T::record(vec![
        (s("foo"), S::Just(T::ints(vec![3, 4]))),
        (
            s("bar"),
            S::VarOrConst(or(T::string(), T::Nil), kailua_core::value::Mark::any()),
        ),
    ]);
    assert!(eq_t(&or(left, right), &expected));
}

#[test]
fn tuple_join_with_empty_extends_with_nil() {
    let left = T::tuple(vec![S::Just(T::integer()), S::Var(T::string())]);
    let expected = T::tuple(vec![
        S::VarOrConst(or(T::integer(), T::Nil), kailua_core::value::Mark::any()),
        S::VarOrConst(or(T::string(), T::Nil), kailua_core::value::Mark::any()),
    ]);
    assert!(eq_t(&or(left, T::empty_table()), &expected));
}

#[test]
fn record_and_map_widen_to_all_tables() {
    let rec = T::record(vec![(s("foo"), S::Just(T::int_of(3)))]);
    let map = T::map(T::string(), S::Just(T::integer()));
    assert!(eq_t(&or(rec, map), &T::table()));
    let rec2 = T::record(vec![(s("foo"), S::Just(T::int_of(3)))]);
    let tup = T::tuple(vec![S::Just(T::string())]);
    assert!(eq_t(&or(tup, rec2), &T::table()));
}

#[test]
fn array_and_map_merge_with_integer_key() {
    let arr = T::array(S::Just(T::number()));
    let map = T::map(T::Dynamic, S::Just(T::integer()));
    let expected = T::map(T::Dynamic, S::Just(T::number()));
    assert!(eq_t(&or(arr, map), &expected));
}

#[test]
fn unlike_members_collect_into_a_union() {
    let u = or(T::int_of(3), T::Nil);
    assert!(u.has_numbers().is_some());
    let u2 = or(u, T::int_of(4));
    let expected = or(T::ints(vec![3, 4]), T::Nil);
    assert!(eq_t(&u2, &expected));
    assert!(eq_t(&or(T::True, T::False), &T::Boolean));
}

#[test]
fn tagged_pairs_keep_a_shared_tag() {
    let a = T::Builtin(Tag::Require, Box::new(T::string()));
    let b = T::Builtin(Tag::Require, Box::new(T::string()));
    let expected = T::Builtin(Tag::Require, Box::new(T::string()));
    assert!(eq_t(&or(a, b), &expected));
    let c = T::Builtin(Tag::Require, Box::new(T::string()));
    let d = T::Builtin(Tag::Type, Box::new(T::string()));
    assert!(eq_t(&or(c, d), &T::string()));
}

#[test]
fn tvar_pairs_get_a_fresh_variable() {
    let mut ctx = TypeContext::new();
    let v1 = ctx.gen_tvar();
    let v2 = ctx.gen_tvar();
    let r = T::TVar(v1).union(T::TVar(v2), &mut ctx);
    match r {
        T::TVar(c) => assert_eq!(c.0, 2),
        _ => panic!("expected a type variable"),
    }
}

#[test]
fn kinds_convert_and_fold() {
    assert!(eq_t(&from_kind(&K::Integer), &T::integer()));
    assert!(eq_t(&from_kind(&K::IntegerLit(7)), &T::int_of(7)));
    assert!(eq_t(&from_kind(&K::StrLit(s("hi"))), &T::str_of(s("hi"))));
    let k = K::Union(vec![K::IntegerLit(3), K::IntegerLit(4), K::Nil]);
    let expected = or(T::ints(vec![3, 4]), T::Nil);
    assert!(eq_t(&from_kind(&k), &expected));
}

#[test]
fn flags_classify_families() {
    assert!(T::integer().is_integral());
    assert!(T::integer().is_numeric());
    assert!(!T::number().is_integral());
    assert!(T::number().is_numeric());
    assert!(T::string().is_stringy());
    assert!(T::table().is_tabular());
    assert!(T::function().is_callable());
    assert!(T::Dynamic.is_dynamic() && T::Dynamic.is_numeric());
    assert!(T::Builtin(Tag::Require, Box::new(T::int_of(1))).is_integral());
    assert!(or(T::int_of(1), T::int_of(2)).is_integral());
    assert!(!or(T::int_of(1), T::Nil).is_integral());
}
