//! Well-formedness.  On executable terms: record keys are distinct and
//! tags never nest.  On models: literal sets are finite and non-empty,
//! and a stored union is a genuine union of at least two members,
//! never dynamic, and never just the two booleans.

use vstd::prelude::*;
use crate::model::{FunctionsV, NumbersV, SlotV, StringsV, TablesV, TypeV, UnionV};
use crate::value::{Function, Functions, Numbers, S, Strings, T, Tables, Union};

verus! {

broadcast use vstd::seq::axiom_seq_index_decreases, vstd::std_specs::vec::axiom_vec_index_decreases, vstd::std_specs::vec::axiom_vec_decreases_to_view;

/// Well-formedness of an executable type term.
pub open spec fn wf_t(t: T) -> bool
    decreases t,
{
    match t {
        T::Tables(tb) => wf_tables(tb),
        T::Functions(f) => wf_functions(f),
        T::Builtin(_, bt) => !((*bt) is Builtin) && wf_t(*bt),
        T::Union(bu) => wf_union(*bu),
        _ => true,
    }
}

/// Well-formedness of a slot: its type is well-formed.
pub open spec fn wf_s(s: S) -> bool
    decreases s,
{
    wf_t(s.ty())
}

/// Well-formedness of a table shape.  Record keys are pairwise
/// distinct.
pub open spec fn wf_tables(tb: Tables) -> bool
    decreases tb,
    via wf_tables_decreases
{
    match tb {
        Tables::All => true,
        Tables::Empty => true,
        Tables::Tuple(vs) => forall|i: int| 0 <= i < vs@.len() ==> wf_s(#[trigger] vs@[i]),
        Tables::Record(es) => {
            &&& forall|a: int, b: int|
                0 <= a < b < es@.len() ==> (#[trigger] es@[a].0)@ != (#[trigger] es@[b].0)@
            &&& forall|i: int| 0 <= i < es@.len() ==> wf_s((#[trigger] es@[i]).1)
        },
        Tables::Array(b) => wf_s(*b),
        Tables::Mapping(k, v) => wf_t(*k) && wf_s(*v),
    }
}

#[via_fn]
proof fn wf_tables_decreases(tb: Tables) {
    match tb {
        Tables::Tuple(vs) => {
            assert(decreases_to!(tb => tb->Tuple_0));
            assert(decreases_to!(tb->Tuple_0 => tb->Tuple_0@));
        }
        Tables::Record(es) => {
            assert(decreases_to!(tb => tb->Record_0));
            assert(decreases_to!(tb->Record_0 => tb->Record_0@));
        }
        _ => {}
    }
}

/// Well-formedness of a function shape.
pub open spec fn wf_functions(f: Functions) -> bool
    decreases f,
    via wf_functions_decreases
{
    match f {
        Functions::All => true,
        Functions::Simple(ff) => {
            &&& forall|i: int| 0 <= i < ff.args@.len() ==> wf_t(#[trigger] ff.args@[i])
            &&& forall|i: int| 0 <= i < ff.rets@.len() ==> wf_t(#[trigger] ff.rets@[i])
        },
    }
}

#[via_fn]
proof fn wf_functions_decreases(f: Functions) {
    match f {
        Functions::Simple(ff) => {
            assert(decreases_to!(f => f->Simple_0));
            assert(decreases_to!(f->Simple_0 => f->Simple_0.args));
            assert(decreases_to!(f->Simple_0.args => f->Simple_0.args@));
            assert(decreases_to!(f->Simple_0 => f->Simple_0.rets));
            assert(decreases_to!(f->Simple_0.rets => f->Simple_0.rets@));
        }
        _ => {}
    }
}

/// How many members a union form holds; the two booleans count one
/// each.
pub open spec fn union_count(u: Union) -> int {
    (if u.has_nil {
        1int
    } else {
        0int
    }) + (if u.has_true {
        1int
    } else {
        0int
    }) + (if u.has_false {
        1int
    } else {
        0int
    }) + (if u.numbers is Some {
        1int
    } else {
        0int
    }) + (if u.strings is Some {
        1int
    } else {
        0int
    }) + (if u.tables is Some {
        1int
    } else {
        0int
    }) + (if u.functions is Some {
        1int
    } else {
        0int
    }) + (if u.tvar is Some {
        1int
    } else {
        0int
    })
}

/// Well-formedness of a stored union form.
pub open spec fn wf_union(u: Union) -> bool
    decreases u,
{
    &&& !u.has_dynamic
    &&& union_count(u) >= 2
    &&& !(u.has_true && u.has_false && union_count(u) == 2)
    &&& match u.tables {
        Some(tb) => wf_tables(tb),
        None => true,
    }
    &&& match u.functions {
        Some(f) => wf_functions(f),
        None => true,
    }
}

/// Well-formedness of a model.
pub open spec fn vwf(v: TypeV) -> bool
    decreases v,
    via vwf_decreases
{
    match v {
        TypeV::Numbers(n) => vwf_numbers(n),
        TypeV::Strings(s) => vwf_strings(s),
        TypeV::Tables(tb) => vwf_tables(tb),
        TypeV::Functions(f) => vwf_functions(f),
        TypeV::Builtin(_, b) => !((*b) is Builtin) && vwf(*b),
        TypeV::Union(u) => vwf_union(u),
        _ => true,
    }
}

#[via_fn]
proof fn vwf_decreases(v: TypeV) {
    match v {
        TypeV::Union(u) => {
            assert(decreases_to!(v => v->Union_0));
        }
        _ => {}
    }
}

/// A literal number set is finite and non-empty.
pub open spec fn vwf_numbers(n: NumbersV) -> bool {
    match n {
        NumbersV::Lits(ls) => ls.finite() && ls.len() > 0,
        _ => true,
    }
}

/// A literal string set is finite and non-empty.
pub open spec fn vwf_strings(s: StringsV) -> bool {
    match s {
        StringsV::Lits(ls) => ls.finite() && ls.len() > 0,
        _ => true,
    }
}

/// Well-formedness of a slot model.
pub open spec fn vwf_slot(s: SlotV) -> bool
    decreases s,
{
    vwf(s.ty)
}

/// Well-formedness of a table model.
pub open spec fn vwf_tables(tb: TablesV) -> bool
    decreases tb,
    via vwf_tables_decreases
{
    match tb {
        TablesV::All => true,
        TablesV::Empty => true,
        TablesV::Tuple(ss) => forall|i: int| 0 <= i < ss.len() ==> vwf_slot(#[trigger] ss[i]),
        TablesV::Record(m) => m.dom().finite() && forall|k: Seq<u8>|
            m.dom().finite() && m.contains_key(k) ==> vwf_slot(#[trigger] m[k]),
        TablesV::Array(b) => vwf_slot(*b),
        TablesV::Mapping(k, v) => vwf(*k) && vwf_slot(*v),
    }
}

#[via_fn]
proof fn vwf_tables_decreases(tb: TablesV) {
    match tb {
        TablesV::Tuple(ss) => {
            assert(decreases_to!(tb => tb->Tuple_0));
        }
        TablesV::Record(m) => {
            assert forall|k: Seq<u8>| m.dom().finite() && m.contains_key(k) implies decreases_to!(
                tb => m[k],
            ) by {
                assert(decreases_to!(tb => tb->Record_0));
                assert(decreases_to!(tb->Record_0 => tb->Record_0[k]));
            }
        }
        _ => {}
    }
}

/// Well-formedness of a function model.
pub open spec fn vwf_functions(f: FunctionsV) -> bool
    decreases f,
{
    match f {
        FunctionsV::All => true,
        FunctionsV::Simple(args, rets) => {
            &&& forall|i: int| 0 <= i < args.len() ==> vwf(#[trigger] args[i])
            &&& forall|i: int| 0 <= i < rets.len() ==> vwf(#[trigger] rets[i])
        },
    }
}

/// How many members a union model holds.
pub open spec fn vcount(u: UnionV) -> int {
    (if u.has_nil {
        1int
    } else {
        0int
    }) + (if u.has_true {
        1int
    } else {
        0int
    }) + (if u.has_false {
        1int
    } else {
        0int
    }) + (if u.numbers is Some {
        1int
    } else {
        0int
    }) + (if u.strings is Some {
        1int
    } else {
        0int
    }) + (if u.tables is Some {
        1int
    } else {
        0int
    }) + (if u.functions is Some {
        1int
    } else {
        0int
    }) + (if u.tvar is Some {
        1int
    } else {
        0int
    })
}

/// Well-formedness of a union model.
pub open spec fn vwf_union(u: UnionV) -> bool
    decreases u,
{
    &&& !u.has_dynamic
    &&& vcount(u) >= 2
    &&& !(u.has_true && u.has_false && vcount(u) == 2)
    &&& match u.numbers {
        Some(n) => vwf_numbers(n),
        None => true,
    }
    &&& match u.strings {
        Some(s) => vwf_strings(s),
        None => true,
    }
    &&& match u.tables {
        Some(tb) => vwf_tables(tb),
        None => true,
    }
    &&& match u.functions {
        Some(f) => vwf_functions(f),
        None => true,
    }
}

/// Whether a model mentions no type variable.
pub open spec fn tvar_free(v: TypeV) -> bool
    decreases v,
    via tvar_free_decreases
{
    match v {
        TypeV::TVar(_) => false,
        TypeV::Tables(tb) => tvar_free_tables(tb),
        TypeV::Functions(f) => tvar_free_functions(f),
        TypeV::Builtin(_, b) => tvar_free(*b),
        TypeV::Union(u) => {
            &&& u.tvar is None
            &&& match u.tables {
                Some(tb) => tvar_free_tables(tb),
                None => true,
            }
            &&& match u.functions {
                Some(f) => tvar_free_functions(f),
                None => true,
            }
        },
        _ => true,
    }
}

#[via_fn]
proof fn tvar_free_decreases(v: TypeV) {
    match v {
        TypeV::Union(u) => {
            assert(decreases_to!(v => v->Union_0));
        }
        _ => {}
    }
}

/// Whether a table model mentions no type variable.
pub open spec fn tvar_free_tables(tb: TablesV) -> bool
    decreases tb,
    via tvar_free_tables_decreases
{
    match tb {
        TablesV::All => true,
        TablesV::Empty => true,
        TablesV::Tuple(ss) => forall|i: int|
            0 <= i < ss.len() ==> tvar_free((#[trigger] ss[i]).ty),
        TablesV::Record(m) => m.dom().finite() && forall|k: Seq<u8>|
            m.dom().finite() && m.contains_key(k) ==> tvar_free((#[trigger] m[k]).ty),
        TablesV::Array(b) => tvar_free((*b).ty),
        TablesV::Mapping(k, v) => tvar_free(*k) && tvar_free((*v).ty),
    }
}

#[via_fn]
proof fn tvar_free_tables_decreases(tb: TablesV) {
    match tb {
        TablesV::Tuple(ss) => {
            assert(decreases_to!(tb => tb->Tuple_0));
        }
        TablesV::Record(m) => {
            assert forall|k: Seq<u8>| m.dom().finite() && m.contains_key(k) implies decreases_to!(
                tb => m[k],
            ) by {
                assert(decreases_to!(tb => tb->Record_0));
                assert(decreases_to!(tb->Record_0 => tb->Record_0[k]));
            }
        }
        _ => {}
    }
}

/// Whether a function model mentions no type variable.
pub open spec fn tvar_free_functions(f: FunctionsV) -> bool
    decreases f,
{
    match f {
        FunctionsV::All => true,
        FunctionsV::Simple(args, rets) => {
            &&& forall|i: int| 0 <= i < args.len() ==> tvar_free(#[trigger] args[i])
            &&& forall|i: int| 0 <= i < rets.len() ==> tvar_free(#[trigger] rets[i])
        },
    }
}

/// Whether every type variable a model mentions has an id below `n`.
pub open spec fn tvars_ok(v: TypeV, n: int) -> bool
    decreases v,
    via tvars_ok_decreases
{
    match v {
        TypeV::TVar(i) => 0 <= i < n,
        TypeV::Tables(tb) => tvars_ok_tables(tb, n),
        TypeV::Functions(f) => tvars_ok_functions(f, n),
        TypeV::Builtin(_, b) => tvars_ok(*b, n),
        TypeV::Union(u) => {
            &&& match u.tvar {
                Some(i) => 0 <= i < n,
                None => true,
            }
            &&& match u.tables {
                Some(tb) => tvars_ok_tables(tb, n),
                None => true,
            }
            &&& match u.functions {
                Some(f) => tvars_ok_functions(f, n),
                None => true,
            }
        },
        _ => true,
    }
}

#[via_fn]
proof fn tvars_ok_decreases(v: TypeV, n: int) {
    match v {
        TypeV::Union(u) => {
            assert(decreases_to!(v => v->Union_0));
        }
        _ => {}
    }
}

/// Whether every type variable of a table model has an id below `n`.
pub open spec fn tvars_ok_tables(tb: TablesV, n: int) -> bool
    decreases tb,
    via tvars_ok_tables_decreases
{
    match tb {
        TablesV::All => true,
        TablesV::Empty => true,
        TablesV::Tuple(ss) => forall|i: int|
            0 <= i < ss.len() ==> tvars_ok((#[trigger] ss[i]).ty, n),
        TablesV::Record(m) => m.dom().finite() && forall|k: Seq<u8>|
            m.dom().finite() && m.contains_key(k) ==> tvars_ok((#[trigger] m[k]).ty, n),
        TablesV::Array(b) => tvars_ok((*b).ty, n),
        TablesV::Mapping(k, v) => tvars_ok(*k, n) && tvars_ok((*v).ty, n),
    }
}

#[via_fn]
proof fn tvars_ok_tables_decreases(tb: TablesV, n: int) {
    match tb {
        TablesV::Tuple(ss) => {
            assert(decreases_to!(tb => tb->Tuple_0));
        }
        TablesV::Record(m) => {
            assert forall|k: Seq<u8>| m.dom().finite() && m.contains_key(k) implies decreases_to!(
                tb => m[k],
            ) by {
                assert(decreases_to!(tb => tb->Record_0));
                assert(decreases_to!(tb->Record_0 => tb->Record_0[k]));
            }
        }
        _ => {}
    }
}

/// A bound on type-variable ids stays good as ids are issued.
pub proof fn lemma_tvars_ok_mono(v: TypeV, n: int, m: int)
    requires
        tvars_ok(v, n),
        n <= m,
    ensures
        tvars_ok(v, m),
    decreases v,
{
    match v {
        TypeV::Tables(tb) => lemma_tvars_ok_tables_mono(tb, n, m),
        TypeV::Functions(f) => lemma_tvars_ok_functions_mono(f, n, m),
        TypeV::Builtin(_, b) => lemma_tvars_ok_mono(*b, n, m),
        TypeV::Union(u) => {
            match u.tables {
                Some(tb) => lemma_tvars_ok_tables_mono(tb, n, m),
                None => {}
            }
            match u.functions {
                Some(f) => lemma_tvars_ok_functions_mono(f, n, m),
                None => {}
            }
        }
        _ => {}
    }
}

/// The table part of the monotonicity lemma.
pub proof fn lemma_tvars_ok_tables_mono(tb: TablesV, n: int, m: int)
    requires
        tvars_ok_tables(tb, n),
        n <= m,
    ensures
        tvars_ok_tables(tb, m),
    decreases tb,
{
    match tb {
        TablesV::Tuple(ss) => {
            assert forall|i: int| 0 <= i < ss.len() implies tvars_ok((#[trigger] ss[i]).ty, m) by {
                lemma_tvars_ok_mono(ss[i].ty, n, m);
            }
        }
        TablesV::Record(mp) => {
            assert forall|k: Seq<u8>|
                mp.dom().finite() && mp.contains_key(k) implies tvars_ok(
                (#[trigger] mp[k]).ty,
                m,
            ) by {
                lemma_tvars_ok_mono(mp[k].ty, n, m);
            }
        }
        TablesV::Array(b) => lemma_tvars_ok_mono((*b).ty, n, m),
        TablesV::Mapping(k, v) => {
            lemma_tvars_ok_mono(*k, n, m);
            lemma_tvars_ok_mono((*v).ty, n, m);
        }
        _ => {}
    }
}

/// The function part of the monotonicity lemma.
pub proof fn lemma_tvars_ok_functions_mono(f: FunctionsV, n: int, m: int)
    requires
        tvars_ok_functions(f, n),
        n <= m,
    ensures
        tvars_ok_functions(f, m),
    decreases f,
{
    match f {
        FunctionsV::Simple(args, rets) => {
            assert forall|i: int| 0 <= i < args.len() implies tvars_ok(#[trigger] args[i], m) by {
                lemma_tvars_ok_mono(args[i], n, m);
            }
            assert forall|i: int| 0 <= i < rets.len() implies tvars_ok(#[trigger] rets[i], m) by {
                lemma_tvars_ok_mono(rets[i], n, m);
            }
        }
        _ => {}
    }
}

/// A variable-free model satisfies any id bound.
pub proof fn lemma_tvar_free_ok(v: TypeV, n: int)
    requires
        tvar_free(v),
    ensures
        tvars_ok(v, n),
    decreases v,
{
    match v {
        TypeV::Tables(tb) => lemma_tvar_free_ok_tables(tb, n),
        TypeV::Functions(f) => lemma_tvar_free_ok_functions(f, n),
        TypeV::Builtin(_, b) => lemma_tvar_free_ok(*b, n),
        TypeV::Union(u) => {
            match u.tables {
                Some(tb) => lemma_tvar_free_ok_tables(tb, n),
                None => {}
            }
            match u.functions {
                Some(f) => lemma_tvar_free_ok_functions(f, n),
                None => {}
            }
        }
        _ => {}
    }
}

/// The table part of the freeness lemma.
pub proof fn lemma_tvar_free_ok_tables(tb: TablesV, n: int)
    requires
        tvar_free_tables(tb),
    ensures
        tvars_ok_tables(tb, n),
    decreases tb,
{
    match tb {
        TablesV::Tuple(ss) => {
            assert forall|i: int| 0 <= i < ss.len() implies tvars_ok((#[trigger] ss[i]).ty, n) by {
                lemma_tvar_free_ok(ss[i].ty, n);
            }
        }
        TablesV::Record(mp) => {
            assert forall|k: Seq<u8>|
                mp.dom().finite() && mp.contains_key(k) implies tvars_ok(
                (#[trigger] mp[k]).ty,
                n,
            ) by {
                lemma_tvar_free_ok(mp[k].ty, n);
            }
        }
        TablesV::Array(b) => lemma_tvar_free_ok((*b).ty, n),
        TablesV::Mapping(k, v) => {
            lemma_tvar_free_ok(*k, n);
            lemma_tvar_free_ok((*v).ty, n);
        }
        _ => {}
    }
}

/// The function part of the freeness lemma.
pub proof fn lemma_tvar_free_ok_functions(f: FunctionsV, n: int)
    requires
        tvar_free_functions(f),
    ensures
        tvars_ok_functions(f, n),
    decreases f,
{
    match f {
        FunctionsV::Simple(args, rets) => {
            assert forall|i: int| 0 <= i < args.len() implies tvars_ok(#[trigger] args[i], n) by {
                lemma_tvar_free_ok(args[i], n);
            }
            assert forall|i: int| 0 <= i < rets.len() implies tvars_ok(#[trigger] rets[i], n) by {
                lemma_tvar_free_ok(rets[i], n);
            }
        }
        _ => {}
    }
}

/// Whether every type variable of a function model has an id below `n`.
pub open spec fn tvars_ok_functions(f: FunctionsV, n: int) -> bool
    decreases f,
{
    match f {
        FunctionsV::All => true,
        FunctionsV::Simple(args, rets) => {
            &&& forall|i: int| 0 <= i < args.len() ==> tvars_ok(#[trigger] args[i], n)
            &&& forall|i: int| 0 <= i < rets.len() ==> tvars_ok(#[trigger] rets[i], n)
        },
    }
}

} // verus!
