//! The executable join on family shapes, and the union form: building
//! a canonical union from a term, merging unions, and simplifying the
//! merged form back into a term.

use vstd::prelude::*;
use crate::algebra::{vsimplify, vunion_functions, vunion_numbers, vunion_strings};
use crate::eq::{contains_int, contains_str, eq_functions};
use crate::model::{ints_lits, lemma_ints_lits_contains, lemma_strs_lits_contains, strs_lits};
use crate::value::{Functions, Numbers, Str, Strings, T, TVar, Tables, Union};
use crate::wf::{wf_functions, wf_t, wf_tables, wf_union};

verus! {

/// Whether a term is the dynamic type.
pub open spec fn dyn_in_t(t: T) -> bool {
    t is Dynamic
}

/// Whether a term has nil as a member, looking under a tag wrapper.
pub open spec fn nil_in_t(t: T) -> bool
    decreases t,
{
    match t {
        T::Nil => true,
        T::Builtin(_, bt) => nil_in_t(*bt),
        T::Union(b) => (*b).has_nil,
        _ => false,
    }
}

/// Whether a term has `true` as a member, looking under a tag
/// wrapper.
pub open spec fn true_in_t(t: T) -> bool
    decreases t,
{
    match t {
        T::Boolean => true,
        T::True => true,
        T::Builtin(_, bt) => true_in_t(*bt),
        T::Union(b) => (*b).has_true,
        _ => false,
    }
}

/// Whether a term has `false` as a member, looking under a tag
/// wrapper.
pub open spec fn false_in_t(t: T) -> bool
    decreases t,
{
    match t {
        T::Boolean => true,
        T::False => true,
        T::Builtin(_, bt) => false_in_t(*bt),
        T::Union(b) => (*b).has_false,
        _ => false,
    }
}

/// The table member of a term, as a value, looking under a tag
/// wrapper.
pub open spec fn tables_in_t(t: T) -> Option<Tables>
    decreases t,
{
    match t {
        T::Tables(x) => Some(x),
        T::Builtin(_, bt) => tables_in_t(*bt),
        T::Union(b) => (*b).tables,
        _ => None,
    }
}

/// The numeric member of a term, as a value, looking under a tag
/// wrapper.
pub open spec fn numbers_in_t(t: T) -> Option<Numbers>
    decreases t,
{
    match t {
        T::Numbers(x) => Some(x),
        T::Builtin(_, bt) => numbers_in_t(*bt),
        T::Union(b) => (*b).numbers,
        _ => None,
    }
}

/// The string member of a term, as a value, looking under a tag
/// wrapper.
pub open spec fn strings_in_t(t: T) -> Option<Strings>
    decreases t,
{
    match t {
        T::Strings(x) => Some(x),
        T::Builtin(_, bt) => strings_in_t(*bt),
        T::Union(b) => (*b).strings,
        _ => None,
    }
}

/// The function member of a term, as a value, looking under a tag
/// wrapper.
pub open spec fn functions_in_t(t: T) -> Option<Functions>
    decreases t,
{
    match t {
        T::Functions(x) => Some(x),
        T::Builtin(_, bt) => functions_in_t(*bt),
        T::Union(b) => (*b).functions,
        _ => None,
    }
}

/// The type-variable member of a term, as a value, looking under a
/// tag wrapper.
pub open spec fn tvar_in_t(t: T) -> Option<TVar>
    decreases t,
{
    match t {
        T::TVar(v) => Some(v),
        T::Builtin(_, bt) => tvar_in_t(*bt),
        T::Union(b) => (*b).tvar,
        _ => None,
    }
}

/// Joins two numeric shapes.
pub fn union_numbers(a: Numbers, b: Numbers) -> (r: Numbers)
    ensures
        r@ == vunion_numbers(a@, b@),
{
    match (a, b) {
        (Numbers::All, bb) => Numbers::All,
        (aa, Numbers::All) => Numbers::All,
        (Numbers::Int, bb) => Numbers::Int,
        (aa, Numbers::Int) => Numbers::Int,
        (Numbers::One(x), Numbers::One(y)) => {
            if x == y {
                proof {
                    let sx = Set::<int>::empty().insert(x as int);
                    assert(sx.union(sx) =~= sx);
                }
                Numbers::One(x)
            } else {
                let mut vs: Vec<i32> = Vec::new();
                vs.push(x);
                vs.push(y);
                proof {
                    assert(vs@.drop_last() =~= seq![x]);
                    assert(seq![x].drop_last() =~= Seq::<i32>::empty());
                    assert(ints_lits(seq![x]) == ints_lits(Seq::<i32>::empty()).insert(x as int));
                    assert(ints_lits(vs@) == ints_lits(seq![x]).insert(y as int));
                    assert(ints_lits(vs@) =~= Set::<int>::empty().insert(x as int).union(
                        Set::<int>::empty().insert(y as int),
                    ));
                }
                Numbers::Many(vs)
            }
        }
        (Numbers::One(x), Numbers::Many(ys)) => {
            let mut ys = ys;
            let ghost ys0 = ys@;
            if contains_int(&ys, x) {
                proof {
                    assert(Set::<int>::empty().insert(x as int).union(ints_lits(ys@)) =~= ints_lits(
                        ys@,
                    ));
                }
                Numbers::Many(ys)
            } else {
                ys.push(x);
                proof {
                    assert(ys@.drop_last() =~= ys0);
                    assert(Set::<int>::empty().insert(x as int).union(ints_lits(ys0)) =~= ints_lits(
                        ys0,
                    ).insert(x as int));
                }
                Numbers::Many(ys)
            }
        }
        (Numbers::Many(xs), Numbers::One(y)) => {
            let mut xs = xs;
            let ghost xs0 = xs@;
            if contains_int(&xs, y) {
                proof {
                    assert(ints_lits(xs@).union(Set::<int>::empty().insert(y as int)) =~= ints_lits(
                        xs@,
                    ));
                }
                Numbers::Many(xs)
            } else {
                xs.push(y);
                proof {
                    assert(xs@.drop_last() =~= xs0);
                    assert(ints_lits(xs0).union(Set::<int>::empty().insert(y as int)) =~= ints_lits(
                        xs0,
                    ).insert(y as int));
                }
                Numbers::Many(xs)
            }
        }
        (Numbers::Many(xs), Numbers::Many(ys)) => {
            let mut xs = xs;
            let ghost xs0 = xs@;
            let mut i: usize = 0;
            while i < ys.len()
                invariant
                    i <= ys@.len(),
                    ints_lits(xs@) == ints_lits(xs0).union(ints_lits(ys@.subrange(0, i as int))),
                decreases ys@.len() - i,
            {
                let ghost xsc = xs@;
                let y = ys[i];
                let present = contains_int(&xs, y);
                if !present {
                    xs.push(y);
                }
                proof {
                    let sub1 = ys@.subrange(0, i as int + 1);
                    assert(sub1.drop_last() =~= ys@.subrange(0, i as int));
                    assert(ints_lits(sub1) == ints_lits(ys@.subrange(0, i as int)).insert(
                        y as int,
                    ));
                    if present {
                        assert(ints_lits(xs@).union(Set::<int>::empty().insert(y as int))
                            =~= ints_lits(xs@));
                        assert(ints_lits(xsc) =~= ints_lits(xs0).union(ints_lits(sub1)));
                    } else {
                        assert(xs@.drop_last() =~= xsc);
                        assert(ints_lits(xs@) == ints_lits(xsc).insert(y as int));
                        assert(ints_lits(xs@) =~= ints_lits(xs0).union(ints_lits(sub1)));
                    }
                }
                i = i + 1;
            }
            proof {
                assert(ys@.subrange(0, ys@.len() as int) =~= ys@);
            }
            Numbers::Many(xs)
        }
    }
}

/// Joins two string shapes.
pub fn union_strings(a: Strings, b: Strings) -> (r: Strings)
    ensures
        r@ == vunion_strings(a@, b@),
{
    match (a, b) {
        (Strings::All, bb) => Strings::All,
        (aa, Strings::All) => Strings::All,
        (Strings::One(x), Strings::One(y)) => {
            if crate::strutil::bytes_vec_eq(&x, &y) {
                proof {
                    let sx = Set::<Seq<u8>>::empty().insert(x@);
                    assert(sx.union(Set::<Seq<u8>>::empty().insert(y@)) =~= sx);
                }
                Strings::One(x)
            } else {
                let mut vs: Vec<Str> = Vec::new();
                vs.push(x);
                vs.push(y);
                proof {
                    assert(vs@.drop_last() =~= seq![vs@[0]]);
                    assert(seq![vs@[0]].drop_last() =~= Seq::<Str>::empty());
                    assert(strs_lits(seq![vs@[0]]) == strs_lits(Seq::<Str>::empty()).insert(
                        vs@[0]@,
                    ));
                    assert(strs_lits(vs@) == strs_lits(seq![vs@[0]]).insert(vs@[1]@));
                    assert(strs_lits(vs@) =~= Set::<Seq<u8>>::empty().insert(vs@[0]@).union(
                        Set::<Seq<u8>>::empty().insert(vs@[1]@),
                    ));
                }
                Strings::Many(vs)
            }
        }
        (Strings::One(x), Strings::Many(ys)) => {
            let mut ys = ys;
            let ghost ys0 = ys@;
            if contains_str(&ys, &x) {
                proof {
                    assert(Set::<Seq<u8>>::empty().insert(x@).union(strs_lits(ys@)) =~= strs_lits(
                        ys@,
                    ));
                }
                Strings::Many(ys)
            } else {
                let ghost xv = x@;
                ys.push(x);
                proof {
                    assert(ys@.drop_last() =~= ys0);
                    assert(ys@.last()@ == xv);
                    assert(Set::<Seq<u8>>::empty().insert(xv).union(strs_lits(ys0)) =~= strs_lits(
                        ys0,
                    ).insert(xv));
                }
                Strings::Many(ys)
            }
        }
        (Strings::Many(xs), Strings::One(y)) => {
            let mut xs = xs;
            let ghost xs0 = xs@;
            if contains_str(&xs, &y) {
                proof {
                    assert(strs_lits(xs@).union(Set::<Seq<u8>>::empty().insert(y@)) =~= strs_lits(
                        xs@,
                    ));
                }
                Strings::Many(xs)
            } else {
                let ghost yv = y@;
                xs.push(y);
                proof {
                    assert(xs@.drop_last() =~= xs0);
                    assert(xs@.last()@ == yv);
                    assert(strs_lits(xs0).union(Set::<Seq<u8>>::empty().insert(yv)) =~= strs_lits(
                        xs0,
                    ).insert(yv));
                }
                Strings::Many(xs)
            }
        }
        (Strings::Many(xs), Strings::Many(ys)) => {
            let mut xs = xs;
            let ghost xs0 = xs@;
            let mut i: usize = 0;
            while i < ys.len()
                invariant
                    i <= ys@.len(),
                    strs_lits(xs@) == strs_lits(xs0).union(strs_lits(ys@.subrange(0, i as int))),
                decreases ys@.len() - i,
            {
                let ghost xsc = xs@;
                let ghost yv = ys@[i as int]@;
                let present = contains_str(&xs, &ys[i]);
                if !present {
                    let y = crate::clone_impls::dup_bytes(&ys[i]);
                    xs.push(y);
                }
                proof {
                    let sub1 = ys@.subrange(0, i as int + 1);
                    assert(sub1.drop_last() =~= ys@.subrange(0, i as int));
                    assert(sub1.last()@ == yv);
                    assert(strs_lits(sub1) == strs_lits(ys@.subrange(0, i as int)).insert(yv));
                    if present {
                        assert(strs_lits(xs@).union(Set::<Seq<u8>>::empty().insert(yv))
                            =~= strs_lits(xs@));
                        assert(strs_lits(xsc) =~= strs_lits(xs0).union(strs_lits(sub1)));
                    } else {
                        assert(xs@.drop_last() =~= xsc);
                        assert(xs@.last()@ == yv);
                        assert(strs_lits(xs@) == strs_lits(xsc).insert(yv));
                        assert(strs_lits(xs@) =~= strs_lits(xs0).union(strs_lits(sub1)));
                    }
                }
                i = i + 1;
            }
            proof {
                assert(ys@.subrange(0, ys@.len() as int) =~= ys@);
            }
            Strings::Many(xs)
        }
    }
}

/// Joins two function shapes: equal simple shapes stay, different ones
/// widen to every function.
pub fn union_functions(a: Functions, b: Functions) -> (r: Functions)
    requires
        wf_functions(a),
        wf_functions(b),
    ensures
        r@ == vunion_functions(a@, b@),
        wf_functions(r),
{
    match (a, b) {
        (Functions::All, bb) => Functions::All,
        (aa, Functions::All) => Functions::All,
        (Functions::Simple(f1), Functions::Simple(f2)) => {
            let a2 = Functions::Simple(f1);
            let b2 = Functions::Simple(f2);
            if eq_functions(&a2, &b2) {
                a2
            } else {
                Functions::All
            }
        }
    }
}

/// Takes a term apart into its union form, handing back a copy with
/// the same model.  The union form holds the term's own members, so a
/// shape inside it weighs less than the term it came from.
pub fn from_t_owned(t: T) -> (r: (Union, T))
    requires
        !(t is Builtin),
        wf_t(t),
    ensures
        r.0.has_dynamic == dyn_in_t(t),
        r.0.has_nil == nil_in_t(t),
        r.0.has_true == true_in_t(t),
        r.0.has_false == false_in_t(t),
        r.0.numbers == numbers_in_t(t),
        r.0.strings == strings_in_t(t),
        r.0.tables == tables_in_t(t),
        r.0.functions == functions_in_t(t),
        r.0.tvar == tvar_in_t(t),
        r.1@ == t@,
        wf_t(r.1),
        match r.0.tables {
            Some(tb) => wf_tables(tb),
            None => true,
        },
        match r.0.functions {
            Some(f) => wf_functions(f),
            None => true,
        },
{
    match t {
        T::Dynamic => (empty_union_with(true, false, false, false), T::Dynamic),
        T::Bottom => (empty_union_with(false, false, false, false), T::Bottom),
        T::Nil => (empty_union_with(false, true, false, false), T::Nil),
        T::Boolean => (empty_union_with(false, false, true, true), T::Boolean),
        T::True => (empty_union_with(false, false, true, false), T::True),
        T::False => (empty_union_with(false, false, false, true), T::False),
        T::Numbers(n) => {
            let back = n.clone();
            let mut u = empty_union_with(false, false, false, false);
            u.numbers = Some(n);
            (u, T::Numbers(back))
        }
        T::Strings(s) => {
            let back = s.clone();
            let mut u = empty_union_with(false, false, false, false);
            u.strings = Some(s);
            (u, T::Strings(back))
        }
        T::Tables(tb) => {
            proof {
                assert(wf_t(T::Tables(tb)));
                assert(wf_tables(tb));
            }
            let back = tb.clone();
            let mut u = empty_union_with(false, false, false, false);
            u.tables = Some(tb);
            (u, T::Tables(back))
        }
        T::Functions(f) => {
            proof {
                assert(wf_t(T::Functions(f)));
                assert(wf_functions(f));
            }
            let back = f.clone();
            let mut u = empty_union_with(false, false, false, false);
            u.functions = Some(f);
            (u, T::Functions(back))
        }
        T::TVar(v) => {
            let mut u = empty_union_with(false, false, false, false);
            u.tvar = Some(v);
            (u, T::TVar(v))
        }
        T::Builtin(bt, x) => {
            proof {
                assert(false);
            }
            (empty_union_with(false, false, false, false), T::Builtin(bt, x))
        }
        T::Union(bu) => {
            proof {
                assert(wf_t(T::Union(bu)));
                assert(wf_union(*bu));
            }
            let back = (*bu).clone();
            (*bu, T::Union(Box::new(back)))
        }
    }
}

/// An empty union form with the given presence bits.
fn empty_union_with(dy: bool, nil: bool, tr: bool, fl: bool) -> (r: Union)
    ensures
        r.has_dynamic == dy,
        r.has_nil == nil,
        r.has_true == tr,
        r.has_false == fl,
        r.numbers is None,
        r.strings is None,
        r.tables is None,
        r.functions is None,
        r.tvar is None,
{
    Union {
        has_dynamic: dy,
        has_nil: nil,
        has_true: tr,
        has_false: fl,
        numbers: None,
        strings: None,
        tables: None,
        functions: None,
        tvar: None,
    }
}

impl Union {
    /// The canonical term this union form stands for: dynamic eclipses
    /// everything, a single member stands alone, the two bare booleans
    /// collapse to `Boolean`, and a real mixture stays a union.
    pub fn simplify(self) -> (r: T)
        requires
            match self.tables {
                Some(tb) => wf_tables(tb),
                None => true,
            },
            match self.functions {
                Some(f) => wf_functions(f),
                None => true,
            },
        ensures
            r@ == vsimplify(self@),
            wf_t(r),
    {
        if self.has_dynamic {
            return T::Dynamic;
        }
        let mut count: u32 = 0;
        if self.has_nil {
            count = count + 1;
        }
        if self.has_true {
            count = count + 1;
        }
        if self.has_false {
            count = count + 1;
        }
        if self.numbers.is_some() {
            count = count + 1;
        }
        if self.strings.is_some() {
            count = count + 1;
        }
        if self.tables.is_some() {
            count = count + 1;
        }
        if self.functions.is_some() {
            count = count + 1;
        }
        if self.tvar.is_some() {
            count = count + 1;
        }
        proof {
            assert(count as int == crate::wf::vcount(self@));
        }
        if count == 0 {
            T::Bottom
        } else if self.has_true && self.has_false && count == 2 {
            T::Boolean
        } else if count == 1 {
            if self.has_nil {
                T::Nil
            } else if self.has_true {
                T::True
            } else if self.has_false {
                T::False
            } else {
                match self.numbers {
                    Some(n) => T::Numbers(n),
                    None => match self.strings {
                        Some(s) => T::Strings(s),
                        None => match self.tables {
                            Some(tb) => T::Tables(tb),
                            None => match self.functions {
                                Some(f) => T::Functions(f),
                                None => match self.tvar {
                                    Some(v) => T::TVar(v),
                                    None => T::Bottom,
                                },
                            },
                        },
                    },
                }
            }
        } else {
            proof {
                assert(crate::wf::wf_union(self));
                assert(wf_t(T::Union(Box::new(self))));
            }
            T::Union(Box::new(self))
        }
    }
}

} // verus!
