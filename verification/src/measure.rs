//! A size measure on type terms, used as the termination measure of the
//! operations that walk two terms at once.

use vstd::prelude::*;
use crate::value::{Function, Functions, Numbers, S, Str, Strings, T, Tables, Union};

verus! {

broadcast use vstd::seq::axiom_seq_index_decreases, vstd::std_specs::vec::axiom_vec_index_decreases, vstd::seq::axiom_seq_subrange_decreases, vstd::std_specs::vec::axiom_vec_decreases_to_view;

/// The size of a type term: one for each node, with table shapes given
/// a head start so that padding slots stay below any table.
pub open spec fn size_t(t: T) -> nat
    decreases t,
{
    match t {
        T::Tables(tb) => 1 + size_tables(tb),
        T::Functions(f) => 1 + size_functions(f),
        T::Builtin(_, bt) => 1 + size_t(*bt),
        T::Union(bu) => 1 + size_union(*bu),
        _ => 1,
    }
}

/// The size of a slot.
pub open spec fn size_s(s: S) -> nat
    decreases s,
{
    match s {
        S::Just(t) => 1 + size_t(t),
        S::Var(t) => 1 + size_t(t),
        S::Const(t) => 1 + size_t(t),
        S::Currently(t) => 1 + size_t(t),
        S::VarOrConst(t, _) => 1 + size_t(t),
        S::VarOrCurrently(t, _) => 1 + size_t(t),
    }
}

/// The size of a table shape.
pub open spec fn size_tables(tb: Tables) -> nat
    decreases tb,
    via size_tables_decreases
{
    match tb {
        Tables::All => 1,
        Tables::Empty => 3,
        Tables::Tuple(vs) => 3 + size_slots(vs@),
        Tables::Record(es) => 3 + size_entries(es@),
        Tables::Array(b) => 3 + size_s(*b),
        Tables::Mapping(k, v) => 3 + size_t(*k) + size_s(*v),
    }
}

#[via_fn]
proof fn size_tables_decreases(tb: Tables) {
    match tb {
        Tables::Tuple(vs) => {
            assert(decreases_to!(tb => tb->Tuple_0));
            assert(decreases_to!(tb->Tuple_0 => tb->Tuple_0@));
        }
        Tables::Record(es) => {
            assert(decreases_to!(tb => tb->Record_0));
            assert(decreases_to!(tb->Record_0 => tb->Record_0@));
        }
        _ => {}
    }
}

/// The size of a sequence of slots, one extra for each element.
pub open spec fn size_slots(s: Seq<S>) -> nat
    decreases s,
{
    if s.len() == 0 {
        0
    } else {
        1 + size_s(s[0]) + size_slots(s.subrange(1, s.len() as int))
    }
}

/// The size of a sequence of record entries.
pub open spec fn size_entries(s: Seq<(Str, S)>) -> nat
    decreases s,
{
    if s.len() == 0 {
        0
    } else {
        1 + size_s(s[0].1) + size_entries(s.subrange(1, s.len() as int))
    }
}

/// The size of a sequence of types.
pub open spec fn size_types(s: Seq<T>) -> nat
    decreases s,
{
    if s.len() == 0 {
        0
    } else {
        1 + size_t(s[0]) + size_types(s.subrange(1, s.len() as int))
    }
}

/// The size of a function shape.
pub open spec fn size_functions(f: Functions) -> nat
    decreases f,
    via size_functions_decreases
{
    match f {
        Functions::All => 1,
        Functions::Simple(ff) => 2 + size_types(ff.args@) + size_types(ff.rets@),
    }
}

#[via_fn]
proof fn size_functions_decreases(f: Functions) {
    match f {
        Functions::Simple(ff) => {
            assert(decreases_to!(f => f->Simple_0));
            assert(decreases_to!(f->Simple_0 => f->Simple_0.args));
            assert(decreases_to!(f->Simple_0.args => f->Simple_0.args@));
            assert(decreases_to!(f->Simple_0 => f->Simple_0.rets));
            assert(decreases_to!(f->Simple_0.rets => f->Simple_0.rets@));
        }
        _ => {}
    }
}

/// The size of a canonical union form.
pub open spec fn size_union(u: Union) -> nat
    decreases u,
{
    1 + (match u.numbers {
        Some(_) => 1nat,
        None => 0nat,
    }) + (match u.strings {
        Some(_) => 1nat,
        None => 0nat,
    }) + (match u.tables {
        Some(tb) => 1 + size_tables(tb),
        None => 0nat,
    }) + (match u.functions {
        Some(f) => 1 + size_functions(f),
        None => 0nat,
    })
}

/// Every slot of a sequence weighs less than the sequence.
pub broadcast proof fn lemma_size_slots_index(s: Seq<S>, i: int)
    requires
        0 <= i < s.len(),
    ensures
        #[trigger] size_s(s[i]) < size_slots(s),
    decreases s.len(),
{
    if i > 0 {
        lemma_size_slots_index(s.subrange(1, s.len() as int), i - 1);
        assert(s.subrange(1, s.len() as int)[i - 1] == s[i]);
    }
}

/// Every entry's slot weighs less than the entry sequence.
pub broadcast proof fn lemma_size_entries_index(s: Seq<(Str, S)>, i: int)
    requires
        0 <= i < s.len(),
    ensures
        #[trigger] size_s(s[i].1) < size_entries(s),
    decreases s.len(),
{
    if i > 0 {
        lemma_size_entries_index(s.subrange(1, s.len() as int), i - 1);
        assert(s.subrange(1, s.len() as int)[i - 1] == s[i]);
    }
}

/// Every type of a sequence weighs less than the sequence.
pub broadcast proof fn lemma_size_types_index(s: Seq<T>, i: int)
    requires
        0 <= i < s.len(),
    ensures
        #[trigger] size_t(s[i]) < size_types(s),
    decreases s.len(),
{
    if i > 0 {
        lemma_size_types_index(s.subrange(1, s.len() as int), i - 1);
        assert(s.subrange(1, s.len() as int)[i - 1] == s[i]);
    }
}

/// Two pointwise equal-sized slot sequences have equal size.
pub proof fn lemma_size_slots_pointwise(a: Seq<S>, b: Seq<S>)
    requires
        a.len() == b.len(),
        forall|i: int| 0 <= i < a.len() ==> size_s(#[trigger] a[i]) == size_s(#[trigger] b[i]),
    ensures
        size_slots(a) == size_slots(b),
    decreases a.len(),
{
    if a.len() > 0 {
        let at = a.subrange(1, a.len() as int);
        let bt = b.subrange(1, b.len() as int);
        assert forall|i: int|
            0 <= i < at.len() implies size_s(#[trigger] at[i]) == size_s(#[trigger] bt[i]) by {
            assert(at[i] == a[i + 1]);
            assert(bt[i] == b[i + 1]);
        }
        lemma_size_slots_pointwise(at, bt);
    }
}

/// Two pointwise equal-sized entry sequences have equal size.
pub proof fn lemma_size_entries_pointwise(a: Seq<(Str, S)>, b: Seq<(Str, S)>)
    requires
        a.len() == b.len(),
        forall|i: int|
            0 <= i < a.len() ==> size_s((#[trigger] a[i]).1) == size_s((#[trigger] b[i]).1),
    ensures
        size_entries(a) == size_entries(b),
    decreases a.len(),
{
    if a.len() > 0 {
        let at = a.subrange(1, a.len() as int);
        let bt = b.subrange(1, b.len() as int);
        assert forall|i: int|
            0 <= i < at.len() implies size_s((#[trigger] at[i]).1) == size_s(
            (#[trigger] bt[i]).1,
        ) by {
            assert(at[i] == a[i + 1]);
            assert(bt[i] == b[i + 1]);
        }
        lemma_size_entries_pointwise(at, bt);
    }
}

/// Two pointwise equal-sized type sequences have equal size.
pub proof fn lemma_size_types_pointwise(a: Seq<T>, b: Seq<T>)
    requires
        a.len() == b.len(),
        forall|i: int| 0 <= i < a.len() ==> size_t(#[trigger] a[i]) == size_t(#[trigger] b[i]),
    ensures
        size_types(a) == size_types(b),
    decreases a.len(),
{
    if a.len() > 0 {
        let at = a.subrange(1, a.len() as int);
        let bt = b.subrange(1, b.len() as int);
        assert forall|i: int|
            0 <= i < at.len() implies size_t(#[trigger] at[i]) == size_t(#[trigger] bt[i]) by {
            assert(at[i] == a[i + 1]);
            assert(bt[i] == b[i + 1]);
        }
        lemma_size_types_pointwise(at, bt);
    }
}

} // verus!
