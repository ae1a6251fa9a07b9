//! Deciding equality of models: two terms are equal when their models
//! are, so literal sets compare as sets, records compare as maps, and
//! marks are ignored.

use vstd::prelude::*;
use crate::measure::{size_s, size_t, size_tables};
use crate::model::{
    entries_model, ints_lits, lemma_ints_lits_contains, lemma_strs_lits_contains, record_map,
    slots_model, strs_lits, types_model, NumbersV, SlotV, StringsV, TypeV,
};
use crate::strutil::bytes_eq;
use crate::value::{Function, Functions, Numbers, S, Str, Strings, T, Tables, Union};
use crate::wf::{wf_functions, wf_s, wf_t, wf_tables, wf_union};

verus! {

broadcast use crate::measure::lemma_size_slots_index, crate::measure::lemma_size_entries_index, crate::measure::lemma_size_types_index, crate::model::lemma_slots_model_index, crate::model::lemma_entries_model_index, crate::model::lemma_types_model_index;

/// Whether a literal vector holds the integer `x`.
pub(crate) fn contains_int(vs: &Vec<i32>, x: i32) -> (r: bool)
    ensures
        r == ints_lits(vs@).contains(x as int),
{
    proof {
        lemma_ints_lits_contains(vs@, x as int);
    }
    let mut i: usize = 0;
    while i < vs.len()
        invariant
            i <= vs@.len(),
            forall|j: int| 0 <= j < i ==> vs@[j] != x,
        decreases vs@.len() - i,
    {
        if vs[i] == x {
            proof {
                lemma_ints_lits_contains(vs@, x as int);
                assert(vs@[i as int] as int == x as int);
            }
            return true;
        }
        i = i + 1;
    }
    proof {
        if ints_lits(vs@).contains(x as int) {
            let j = choose|j: int| 0 <= j < vs@.len() && (#[trigger] vs@[j]) as int == x as int;
        }
    }
    false
}

/// Whether a literal vector holds the byte string `x`.
pub(crate) fn contains_str(vs: &Vec<Str>, x: &Str) -> (r: bool)
    ensures
        r == strs_lits(vs@).contains(x@),
{
    proof {
        lemma_strs_lits_contains(vs@, x@);
    }
    let mut i: usize = 0;
    while i < vs.len()
        invariant
            i <= vs@.len(),
            forall|j: int| 0 <= j < i ==> vs@[j]@ != x@,
        decreases vs@.len() - i,
    {
        if bytes_eq(vs[i].as_slice(), x.as_slice()) {
            proof {
                lemma_strs_lits_contains(vs@, x@);
                assert(vs@[i as int]@ == x@);
            }
            return true;
        }
        i = i + 1;
    }
    false
}

/// The literal set of `vs`, seen as numbers, is inside that of `ws`.
fn ints_subset(vs: &Vec<i32>, ws: &Vec<i32>) -> (r: bool)
    ensures
        r == ints_lits(vs@).subset_of(ints_lits(ws@)),
{
    let mut i: usize = 0;
    while i < vs.len()
        invariant
            i <= vs@.len(),
            forall|j: int| 0 <= j < i ==> ints_lits(ws@).contains((#[trigger] vs@[j]) as int),
        decreases vs@.len() - i,
    {
        if !contains_int(ws, vs[i]) {
            proof {
                lemma_ints_lits_contains(vs@, vs@[i as int] as int);
                assert(ints_lits(vs@).contains(vs@[i as int] as int));
            }
            return false;
        }
        i = i + 1;
    }
    proof {
        assert forall|e: int| ints_lits(vs@).contains(e) implies ints_lits(ws@).contains(e) by {
            lemma_ints_lits_contains(vs@, e);
            let j = choose|j: int| 0 <= j < vs@.len() && (#[trigger] vs@[j]) as int == e;
        }
    }
    true
}

/// The literal set of `vs`, seen as strings, is inside that of `ws`.
fn strs_subset(vs: &Vec<Str>, ws: &Vec<Str>) -> (r: bool)
    ensures
        r == strs_lits(vs@).subset_of(strs_lits(ws@)),
{
    let mut i: usize = 0;
    while i < vs.len()
        invariant
            i <= vs@.len(),
            forall|j: int| 0 <= j < i ==> strs_lits(ws@).contains((#[trigger] vs@[j])@),
        decreases vs@.len() - i,
    {
        if !contains_str(ws, &vs[i]) {
            proof {
                lemma_strs_lits_contains(vs@, vs@[i as int]@);
                assert(strs_lits(vs@).contains(vs@[i as int]@));
            }
            return false;
        }
        i = i + 1;
    }
    proof {
        assert forall|e: Seq<u8>| strs_lits(vs@).contains(e) implies strs_lits(ws@).contains(
            e,
        ) by {
            lemma_strs_lits_contains(vs@, e);
            let j = choose|j: int| 0 <= j < vs@.len() && (#[trigger] vs@[j])@ == e;
        }
    }
    true
}

/// Decides equality of two numeric shapes at the level of models.
pub fn eq_numbers(a: &Numbers, b: &Numbers) -> (r: bool)
    ensures
        r == (a@ == b@),
    decreases (match a {
        Numbers::Many(_) => 1int,
        _ => 0int,
    }),
{
    match (a, b) {
        (Numbers::All, Numbers::All) => true,
        (Numbers::Int, Numbers::Int) => true,
        (Numbers::One(x), Numbers::One(y)) => {
            proof {
                if x == y {
                    assert(a@ == b@);
                } else {
                    let sx = Set::empty().insert(*x as int);
                    assert(sx.contains(*x as int));
                }
            }
            x == y
        }
        (Numbers::One(x), Numbers::Many(ys)) => {
            let r1 = contains_int(ys, *x);
            let mut i: usize = 0;
            if !r1 {
                proof {
                    assert(Set::empty().insert(*x as int).contains(*x as int));
                }
                return false;
            }
            while i < ys.len()
                invariant
                    i <= ys@.len(),
                    a@ == NumbersV::Lits(Set::empty().insert(*x as int)),
                    b@ == NumbersV::Lits(ints_lits(ys@)),
                    forall|j: int| 0 <= j < i ==> ys@[j] == *x,
                decreases ys@.len() - i,
            {
                if ys[i] != *x {
                    proof {
                        lemma_ints_lits_contains(ys@, ys@[i as int] as int);
                        assert(ints_lits(ys@).contains(ys@[i as int] as int));
                        assert(!Set::empty().insert(*x as int).contains(ys@[i as int] as int));
                        assert(a@ == NumbersV::Lits(Set::empty().insert(*x as int)));
                        assert(b@ == NumbersV::Lits(ints_lits(ys@)));
                        if a@ == b@ {
                            assert(Set::empty().insert(*x as int) == ints_lits(ys@));
                            assert(false);
                        }
                    }
                    return false;
                }
                i = i + 1;
            }
            proof {
                assert forall|e: int| ints_lits(ys@).contains(e) implies Set::empty().insert(
                    *x as int,
                ).contains(e) by {
                    lemma_ints_lits_contains(ys@, e);
                    let j = choose|j: int| 0 <= j < ys@.len() && (#[trigger] ys@[j]) as int == e;
                }
                assert(ints_lits(ys@) =~= Set::empty().insert(*x as int));
            }
            true
        }
        (Numbers::Many(xs), Numbers::One(y)) => {
            let flip = eq_numbers(b, a);
            flip
        }
        (Numbers::Many(xs), Numbers::Many(ys)) => {
            let r1 = ints_subset(xs, ys);
            let r2 = ints_subset(ys, xs);
            proof {
                if r1 && r2 {
                    assert(ints_lits(xs@) =~= ints_lits(ys@));
                }
            }
            r1 && r2
        }
        _ => false,
    }
}

/// Decides equality of two string shapes at the level of models.
pub fn eq_strings(a: &Strings, b: &Strings) -> (r: bool)
    ensures
        r == (a@ == b@),
    decreases (match a {
        Strings::Many(_) => 1int,
        _ => 0int,
    }),
{
    match (a, b) {
        (Strings::All, Strings::All) => true,
        (Strings::One(x), Strings::One(y)) => {
            let r = bytes_eq(x.as_slice(), y.as_slice());
            proof {
                if !r {
                    assert(Set::empty().insert(x@).contains(x@));
                }
            }
            r
        }
        (Strings::One(x), Strings::Many(ys)) => {
            if !contains_str(ys, x) {
                proof {
                    assert(Set::empty().insert(x@).contains(x@));
                }
                return false;
            }
            let mut i: usize = 0;
            while i < ys.len()
                invariant
                    i <= ys@.len(),
                    a@ == StringsV::Lits(Set::empty().insert(x@)),
                    b@ == StringsV::Lits(strs_lits(ys@)),
                    forall|j: int| 0 <= j < i ==> ys@[j]@ == x@,
                decreases ys@.len() - i,
            {
                if !bytes_eq(ys[i].as_slice(), x.as_slice()) {
                    proof {
                        lemma_strs_lits_contains(ys@, ys@[i as int]@);
                        assert(strs_lits(ys@).contains(ys@[i as int]@));
                        assert(!Set::empty().insert(x@).contains(ys@[i as int]@));
                        assert(a@ == StringsV::Lits(Set::empty().insert(x@)));
                        assert(b@ == StringsV::Lits(strs_lits(ys@)));
                        if a@ == b@ {
                            assert(Set::empty().insert(x@) == strs_lits(ys@));
                            assert(false);
                        }
                    }
                    return false;
                }
                i = i + 1;
            }
            proof {
                assert forall|e: Seq<u8>| strs_lits(ys@).contains(e) implies Set::empty().insert(
                    x@,
                ).contains(e) by {
                    lemma_strs_lits_contains(ys@, e);
                    let j = choose|j: int| 0 <= j < ys@.len() && (#[trigger] ys@[j])@ == e;
                }
                assert(strs_lits(ys@) =~= Set::empty().insert(x@));
            }
            true
        }
        (Strings::Many(xs), Strings::One(y)) => eq_strings(b, a),
        (Strings::Many(xs), Strings::Many(ys)) => {
            let r1 = strs_subset(xs, ys);
            let r2 = strs_subset(ys, xs);
            proof {
                if r1 && r2 {
                    assert(strs_lits(xs@) =~= strs_lits(ys@));
                }
            }
            r1 && r2
        }
        _ => false,
    }
}

/// Finds the slot under a key in a record's entries.
pub fn record_find<'a>(es: &'a Vec<(Str, S)>, key: &Str) -> (r: Option<&'a S>)
    ensures
        match r {
            Some(s) => record_map(entries_model(es@)).contains_key(key@) && record_map(
                entries_model(es@),
            )[key@] == s.model() && exists|i: int|
                0 <= i < es@.len() && (#[trigger] es@[i]).0@ == key@ && es@[i].1 == *s,
            None => !record_map(entries_model(es@)).contains_key(key@),
        },
{
    let ghost em = entries_model(es@);
    proof {
        crate::model::lemma_entries_model_len(es@);
        crate::model::lemma_record_map_contains(em, key@);
    }
    let mut i: usize = es.len();
    while i > 0
        invariant
            i <= es@.len(),
            em == entries_model(es@),
            forall|j: int| i <= j < es@.len() ==> (#[trigger] es@[j]).0@ != key@,
        decreases i,
    {
        i = i - 1;
        if bytes_eq(es[i].0.as_slice(), key.as_slice()) {
            proof {
                lemma_record_map_last_match(em, i as int);
                assert(em[i as int] == (es@[i as int].0@, es@[i as int].1.model()));
            }
            return Some(&es[i].1);
        }
    }
    proof {
        if record_map(em).contains_key(key@) {
            let j = choose|j: int| 0 <= j < em.len() && #[trigger] em[j].0 == key@;
            assert(em[j] == (es@[j].0@, es@[j].1.model()));
            assert(es@[j].0@ == key@);
        }
    }
    None
}

/// When every later entry misses a key, the entry at `i` with that key
/// gives the map's value at it.
proof fn lemma_record_map_last_match(es: Seq<(Seq<u8>, SlotV)>, i: int)
    requires
        0 <= i < es.len(),
        forall|j: int| i < j < es.len() ==> (#[trigger] es[j]).0 != es[i].0,
    ensures
        record_map(es).contains_key(es[i].0),
        record_map(es)[es[i].0] == es[i].1,
    decreases es.len(),
{
    if i == es.len() - 1 {
    } else {
        assert(es.drop_last()[i] == es[i]);
        assert forall|j: int|
            i < j < es.drop_last().len() implies (#[trigger] es.drop_last()[j]).0
            != es.drop_last()[i].0 by {
            assert(es.drop_last()[j] == es[j]);
        }
        lemma_record_map_last_match(es.drop_last(), i);
        assert(es[es.len() - 1].0 != es[i].0);
    }
}

/// Decides equality of two terms at the level of models.  The claim
/// holds for well-formed terms; on others the verdict is unspecified.
pub fn eq_t(a: &T, b: &T) -> (r: bool)
    ensures
        wf_t(*a) && wf_t(*b) ==> r == (a@ == b@),
    decreases size_t(*a) + size_t(*b), 0int,
{
    match (a, b) {
        (T::Dynamic, T::Dynamic) => true,
        (T::Bottom, T::Bottom) => true,
        (T::Nil, T::Nil) => true,
        (T::Boolean, T::Boolean) => true,
        (T::True, T::True) => true,
        (T::False, T::False) => true,
        (T::Numbers(n1), T::Numbers(n2)) => eq_numbers(n1, n2),
        (T::Strings(s1), T::Strings(s2)) => eq_strings(s1, s2),
        (T::Tables(t1), T::Tables(t2)) => eq_tables(t1, t2),
        (T::Functions(f1), T::Functions(f2)) => eq_functions(f1, f2),
        (T::TVar(v1), T::TVar(v2)) => v1.0 == v2.0,
        (T::Builtin(b1, x), T::Builtin(b2, y)) => *b1 == *b2 && eq_t(x, y),
        (T::Union(u1), T::Union(u2)) => eq_union(u1, u2),
        _ => false,
    }
}

/// Decides equality of two slots at the level of models; marks are
/// ignored.
pub fn eq_s(a: &S, b: &S) -> (r: bool)
    ensures
        wf_s(*a) && wf_s(*b) ==> r == (a@ == b@),
    decreases size_s(*a) + size_s(*b), 0int,
{
    match (a, b) {
        (S::Just(x), S::Just(y)) => eq_t(x, y),
        (S::Var(x), S::Var(y)) => eq_t(x, y),
        (S::Const(x), S::Const(y)) => eq_t(x, y),
        (S::Currently(x), S::Currently(y)) => eq_t(x, y),
        (S::VarOrConst(x, _), S::VarOrConst(y, _)) => eq_t(x, y),
        (S::VarOrCurrently(x, _), S::VarOrCurrently(y, _)) => eq_t(x, y),
        _ => false,
    }
}

/// Decides equality of two table shapes at the level of models.
pub fn eq_tables(a: &Tables, b: &Tables) -> (r: bool)
    ensures
        wf_tables(*a) && wf_tables(*b) ==> r == (a@ == b@),
    decreases size_tables(*a) + size_tables(*b), 1int,
{
    match (a, b) {
        (Tables::All, Tables::All) => true,
        (Tables::Empty, Tables::Empty) => true,
        (Tables::Tuple(xs), Tables::Tuple(ys)) => {
            if xs.len() != ys.len() {
                proof {
                    crate::model::lemma_slots_model_len(xs@);
                    crate::model::lemma_slots_model_len(ys@);
                }
                return false;
            }
            let mut i: usize = 0;
            while i < xs.len()
                invariant
                    i <= xs@.len(),
                    xs@.len() == ys@.len(),
                    a == Tables::Tuple(*xs),
                    b == Tables::Tuple(*ys),
                    wf_tables(*a) && wf_tables(*b) ==> forall|j: int|
                        0 <= j < i ==> (#[trigger] xs@[j]).model() == ys@[j].model(),
                decreases xs@.len() - i,
            {
                let e = eq_s(&xs[i], &ys[i]);
                if !e {
                    proof {
                        if wf_tables(*a) && wf_tables(*b) {
                            if slots_model(xs@) == slots_model(ys@) {
                                crate::model::lemma_slots_model_index(xs@, i as int);
                                crate::model::lemma_slots_model_index(ys@, i as int);
                            }
                        }
                    }
                    return false;
                }
                i = i + 1;
            }
            proof {
                if wf_tables(*a) && wf_tables(*b) {
                    assert(slots_model(xs@) =~= slots_model(ys@)) by {
                        assert forall|j: int| 0 <= j < xs@.len() implies slots_model(xs@)[j]
                            == slots_model(ys@)[j] by {
                            crate::model::lemma_slots_model_index(xs@, j);
                            crate::model::lemma_slots_model_index(ys@, j);
                        }
                        crate::model::lemma_slots_model_len(xs@);
                        crate::model::lemma_slots_model_len(ys@);
                    }
                }
            }
            true
        }
        (Tables::Record(xs), Tables::Record(ys)) => eq_records(a, b, xs, ys),
        (Tables::Array(x), Tables::Array(y)) => eq_s(x, y),
        (Tables::Mapping(k1, v1), Tables::Mapping(k2, v2)) => {
            let ke = eq_t(k1, k2);
            let ve = eq_s(v1, v2);
            ke && ve
        }
        _ => false,
    }
}

/// Decides equality of two records at the level of maps: same keys,
/// equal slots under each.
#[verifier::rlimit(60)]
fn eq_records(a: &Tables, b: &Tables, xs: &Vec<(Str, S)>, ys: &Vec<(Str, S)>) -> (r: bool)
    requires
        *a == Tables::Record(*xs),
        *b == Tables::Record(*ys),
    ensures
        wf_tables(*a) && wf_tables(*b) ==> r == (a@ == b@),
    decreases size_tables(*a) + size_tables(*b), 0int,
{
    let ghost ma = record_map(entries_model(xs@));
    let ghost mb = record_map(entries_model(ys@));
    if xs.len() != ys.len() {
        proof {
            if wf_tables(*a) && wf_tables(*b) {
                crate::model::lemma_entries_model_len(xs@);
                crate::model::lemma_entries_model_len(ys@);
                lemma_record_map_card_pub(entries_model(xs@));
                lemma_record_map_card_pub(entries_model(ys@));
                if ma == mb {
                    assert(ma.dom().len() == mb.dom().len());
                    assert(false);
                }
            }
        }
        return false;
    }
    let mut i: usize = 0;
    while i < xs.len()
        invariant
            i <= xs@.len(),
            *a == Tables::Record(*xs),
            *b == Tables::Record(*ys),
            ma == record_map(entries_model(xs@)),
            mb == record_map(entries_model(ys@)),
            wf_tables(*a) && wf_tables(*b) ==> forall|j: int|
                0 <= j < i ==> mb.contains_key((#[trigger] xs@[j]).0@) && mb[xs@[j].0@]
                    == xs@[j].1.model(),
        decreases xs@.len() - i,
    {
        match record_find(ys, &xs[i].0) {
            Some(s) => {
                let e = eq_s(&xs[i].1, s);
                proof {
                    crate::measure::lemma_size_entries_index(xs@, i as int);
                }
                if !e {
                    proof {
                        if wf_tables(*a) && wf_tables(*b) {
                            crate::model::lemma_entries_model_len(xs@);
                            crate::model::lemma_entries_model_index(xs@, i as int);
                            crate::model::lemma_record_map_index(entries_model(xs@), i as int);
                            assert(ma[xs@[i as int].0@] == xs@[i as int].1.model());
                            if ma == mb {
                                assert(false);
                            }
                        }
                    }
                    return false;
                }
            }
            None => {
                proof {
                    if wf_tables(*a) && wf_tables(*b) {
                        crate::model::lemma_entries_model_len(xs@);
                        crate::model::lemma_entries_model_index(xs@, i as int);
                        crate::model::lemma_record_map_index(entries_model(xs@), i as int);
                        if ma == mb {
                            assert(false);
                        }
                    }
                }
                return false;
            }
        }
        i = i + 1;
    }
    proof {
        if wf_tables(*a) && wf_tables(*b) {
            crate::model::lemma_entries_model_len(xs@);
            crate::model::lemma_entries_model_len(ys@);
            lemma_record_map_card_pub(entries_model(xs@));
            lemma_record_map_card_pub(entries_model(ys@));
            assert forall|k: Seq<u8>| ma.contains_key(k) implies mb.contains_key(k) && ma[k]
                == mb[k] by {
                crate::model::lemma_record_map_contains(entries_model(xs@), k);
                let j = choose|j: int|
                    0 <= j < entries_model(xs@).len() && #[trigger] entries_model(xs@)[j].0 == k;
                crate::model::lemma_entries_model_index(xs@, j);
                crate::model::lemma_record_map_index(entries_model(xs@), j);
            }
            assert forall|k: Seq<u8>| ma.dom().contains(k) implies mb.dom().contains(k) by {
                assert(ma.contains_key(k));
                crate::model::lemma_record_map_contains(entries_model(xs@), k);
                let j = choose|j: int|
                    0 <= j < entries_model(xs@).len() && #[trigger] entries_model(xs@)[j].0 == k;
                crate::model::lemma_entries_model_index(xs@, j);
                assert(xs@[j].0@ == k);
                assert(mb.contains_key(k));
            }
            assert(ma.dom().subset_of(mb.dom()));
            assert forall|k: Seq<u8>| mb.dom().contains(k) implies ma.dom().contains(k) by {
                if !ma.dom().contains(k) {
                    ma.dom().lemma_subset_not_in_lt(mb.dom(), k);
                }
            }
            assert(ma.dom() =~= mb.dom());
            assert(ma =~= mb);
        }
    }
    true
}

/// A record map with pairwise distinct keys has exactly one key per
/// entry.
pub proof fn lemma_record_map_card_pub(es: Seq<(Seq<u8>, SlotV)>)
    requires
        forall|a: int, b: int|
            0 <= a < b < es.len() ==> (#[trigger] es[a].0) != (#[trigger] es[b].0),
    ensures
        record_map(es).dom().finite(),
        record_map(es).dom().len() == es.len(),
    decreases es.len(),
{
    if es.len() > 0 {
        assert forall|a: int, b: int|
            0 <= a < b < es.drop_last().len() implies (#[trigger] es.drop_last()[a].0) != (
        #[trigger] es.drop_last()[b].0) by {
            assert(es.drop_last()[a] == es[a]);
            assert(es.drop_last()[b] == es[b]);
        }
        lemma_record_map_card_pub(es.drop_last());
        crate::model::lemma_record_map_contains(es.drop_last(), es.last().0);
        assert forall|j: int|
            0 <= j < es.drop_last().len() implies (#[trigger] es.drop_last()[j].0) != es.last().0 by {
            assert(es.drop_last()[j] == es[j]);
            assert(es[j].0 != es[es.len() - 1].0);
        }
        assert(!record_map(es.drop_last()).contains_key(es.last().0));
        assert(record_map(es).dom() =~= record_map(es.drop_last()).dom().insert(es.last().0));
    } else {
        assert(record_map(es).dom() =~= Set::empty());
    }
}

/// Decides equality of two function shapes at the level of models.
pub fn eq_functions(a: &Functions, b: &Functions) -> (r: bool)
    ensures
        wf_functions(*a) && wf_functions(*b) ==> r == (a@ == b@),
    decreases crate::measure::size_functions(*a) + crate::measure::size_functions(*b), 0int,
{
    match (a, b) {
        (Functions::All, Functions::All) => true,
        (Functions::Simple(f1), Functions::Simple(f2)) => {
            let ar = eq_type_vecs(&f1.args, &f2.args);
            if !ar {
                return false;
            }
            let rr = eq_type_vecs(&f1.rets, &f2.rets);
            ar && rr
        }
        _ => false,
    }
}

/// Decides elementwise model equality of two type vectors.
fn eq_type_vecs(xs: &Vec<T>, ys: &Vec<T>) -> (r: bool)
    ensures
        (forall|i: int| 0 <= i < xs@.len() ==> wf_t(#[trigger] xs@[i])) && (forall|i: int|
            0 <= i < ys@.len() ==> wf_t(#[trigger] ys@[i])) ==> r == (types_model(xs@)
            == types_model(ys@)),
    decreases crate::measure::size_types(xs@) + crate::measure::size_types(ys@) + 1, 0int,
{
    let ghost wfall = (forall|i: int| 0 <= i < xs@.len() ==> wf_t(#[trigger] xs@[i])) && (
    forall|i: int| 0 <= i < ys@.len() ==> wf_t(#[trigger] ys@[i]));
    if xs.len() != ys.len() {
        proof {
            crate::model::lemma_types_model_len(xs@);
            crate::model::lemma_types_model_len(ys@);
        }
        return false;
    }
    let mut i: usize = 0;
    while i < xs.len()
        invariant
            i <= xs@.len(),
            xs@.len() == ys@.len(),
            wfall == ((forall|k: int| 0 <= k < xs@.len() ==> wf_t(#[trigger] xs@[k])) && (
            forall|k: int| 0 <= k < ys@.len() ==> wf_t(#[trigger] ys@[k]))),
            wfall ==> forall|j: int| 0 <= j < i ==> (#[trigger] xs@[j]).model() == ys@[j].model(),
        decreases xs@.len() - i,
    {
        let e = eq_t(&xs[i], &ys[i]);
        if !e {
            proof {
                if wfall {
                    if types_model(xs@) == types_model(ys@) {
                        crate::model::lemma_types_model_index(xs@, i as int);
                        crate::model::lemma_types_model_index(ys@, i as int);
                    }
                }
            }
            return false;
        }
        i = i + 1;
    }
    proof {
        if wfall {
            assert(types_model(xs@) =~= types_model(ys@)) by {
                assert forall|j: int| 0 <= j < xs@.len() implies types_model(xs@)[j] == types_model(
                    ys@,
                )[j] by {
                    crate::model::lemma_types_model_index(xs@, j);
                    crate::model::lemma_types_model_index(ys@, j);
                }
                crate::model::lemma_types_model_len(xs@);
                crate::model::lemma_types_model_len(ys@);
            }
        }
    }
    true
}

/// Decides equality of two union forms at the level of models.
pub fn eq_union(a: &Union, b: &Union) -> (r: bool)
    ensures
        wf_union(*a) && wf_union(*b) ==> r == (a@ == b@),
    decreases crate::measure::size_union(*a) + crate::measure::size_union(*b), 0int,
{
    if a.has_dynamic != b.has_dynamic || a.has_nil != b.has_nil || a.has_true != b.has_true
        || a.has_false != b.has_false {
        return false;
    }
    let num_eq = match (&a.numbers, &b.numbers) {
        (Some(x), Some(y)) => eq_numbers(x, y),
        (None, None) => true,
        _ => false,
    };
    if !num_eq {
        return false;
    }
    let str_eq = match (&a.strings, &b.strings) {
        (Some(x), Some(y)) => eq_strings(x, y),
        (None, None) => true,
        _ => false,
    };
    if !str_eq {
        return false;
    }
    let tab_eq = match (&a.tables, &b.tables) {
        (Some(x), Some(y)) => eq_tables(x, y),
        (None, None) => true,
        _ => false,
    };
    if !tab_eq {
        return false;
    }
    let fun_eq = match (&a.functions, &b.functions) {
        (Some(x), Some(y)) => eq_functions(x, y),
        (None, None) => true,
        _ => false,
    };
    if !fun_eq {
        return false;
    }
    match (&a.tvar, &b.tvar) {
        (Some(x), Some(y)) => x.0 == y.0,
        (None, None) => true,
        _ => false,
    }
}

} // verus!
