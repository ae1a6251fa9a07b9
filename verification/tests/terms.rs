use kailua_core::context::TypeContext;
use kailua_core::eq::{eq_numbers, eq_t};
use kailua_core::value::{Numbers, S, T};
use kailua_core::report::{Kind, VSReportKind};

fn s(x: &str) -> Vec<u8> {
    x.as_bytes().to_vec()
}

#[test]
fn literal_sets_compare_as_sets() {
    assert!(eq_numbers(&Numbers::One(3), &Numbers::Many(vec![3])));
    assert!(eq_numbers(&Numbers::Many(vec![3, 4]), &Numbers::Many(vec![4, 3])));
    assert!(!eq_numbers(&Numbers::Many(vec![3, 4]), &Numbers::Many(vec![3, 5])));
    assert!(!eq_numbers(&Numbers::Int, &Numbers::All));
}

#[test]
fn terms_compare_by_model() {
    assert!(eq_t(&T::int_of(3), &T::ints(vec![3])));
    assert!(!eq_t(&T::int_of(3), &T::int_of(4)));
    assert!(eq_t(&T::str_of(s("hello")), &T::strs(vec![s("hello")])));
    assert!(!eq_t(&T::string(), &T::str_of(s("hello"))));
    assert!(eq_t(
        &T::record(vec![(s("a"), S::Just(T::integer())), (s("b"), S::Just(T::string()))]),
        &T::record(vec![(s("b"), S::Just(T::string())), (s("a"), S::Just(T::integer()))]),
    ));
    assert!(!eq_t(
        &T::record(vec![(s("a"), S::Just(T::integer()))]),
        &T::record(vec![(s("a"), S::Just(T::string()))]),
    ));
    assert!(eq_t(&T::array(S::Var(T::integer())), &T::array(S::Var(T::integer()))));
    assert!(!eq_t(&T::array(S::Var(T::integer())), &T::array(S::Const(T::integer()))));
}

#[test]
fn context_issues_and_marks() {
    let mut ctx = TypeContext::new();
    let v1 = ctx.gen_tvar();
    let v2 = ctx.gen_tvar();
    assert_ne!(v1.0, v2.0);
    let m1 = ctx.gen_mark();
    let m2 = ctx.gen_mark();
    assert_eq!(ctx.assert_mark_true(m1), Ok(()));
    assert_eq!(ctx.assert_mark_true(m1), Ok(()));
    assert!(ctx.assert_mark_false(m1).is_err());
    assert_eq!(ctx.assert_mark_eq(m1, m2), Ok(()));
    assert!(ctx.assert_mark_false(m2).is_err());
    let m3 = ctx.gen_mark();
    let m4 = ctx.gen_mark();
    assert_eq!(ctx.assert_mark_false(m3), Ok(()));
    assert_eq!(ctx.assert_mark_eq(m3, m4), Ok(()));
    assert!(ctx.assert_mark_true(m4).is_err());
}

#[test]
fn report_kinds_map_over() {
    assert_eq!(VSReportKind::from(Kind::Note), VSReportKind::Note);
    assert_eq!(VSReportKind::from(Kind::Fatal), VSReportKind::Fatal);
    assert_eq!(VSReportKind::from(Kind::Warning), VSReportKind::Warning);
}

#[test]
fn getters_find_members() {
    let t = T::int_of(7);
    assert!(t.has_numbers().is_some());
    assert!(t.has_strings().is_none());
    assert!(!t.has_true());
    assert!(T::Boolean.has_true() && T::Boolean.has_false());
    let tagged = T::Builtin(kailua_core::tag::Tag::Require, Box::new(T::string()));
    assert!(tagged.has_strings().is_some());
    assert!(T::Builtin(kailua_core::tag::Tag::Require, Box::new(T::True)).has_true());
    assert!(T::Builtin(kailua_core::tag::Tag::Require, Box::new(T::int_of(1))).has_numbers().is_some());
    assert_eq!(tagged.builtin(), Some(kailua_core::tag::Tag::Require));
    assert!(eq_t(tagged.as_base(), &T::string()));
    assert!(eq_t(&tagged.into_base(), &T::string()));
}
