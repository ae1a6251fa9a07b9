//! Deep clones for the type terms.  A clone is equal to the original at
//! the level of the model (marks and literal-set order carry over too,
//! but the contracts promise the model).

use vstd::prelude::*;
use crate::measure::{
    size_entries, size_functions, size_s, size_slots, size_t, size_tables, size_types, size_union,
};
use crate::model::{entries_model, slots_model, types_model};
use crate::value::{Function, Functions, Numbers, S, Str, Strings, T, Tables, Union};
use crate::wf::{wf_functions, wf_s, wf_t, wf_tables, wf_union};

verus! {

broadcast use crate::measure::lemma_size_slots_index, crate::measure::lemma_size_entries_index, crate::measure::lemma_size_types_index, crate::model::lemma_slots_model_index, crate::model::lemma_entries_model_index, crate::model::lemma_types_model_index;

/// Copies a byte vector.
pub fn dup_bytes(v: &Vec<u8>) -> (r: Vec<u8>)
    ensures
        r@ == v@,
{
    let mut out: Vec<u8> = Vec::new();
    let mut i: usize = 0;
    while i < v.len()
        invariant
            i <= v@.len(),
            out@ == v@.subrange(0, i as int),
        decreases v@.len() - i,
    {
        out.push(v[i]);
        proof {
            assert(out@ =~= v@.subrange(0, i as int + 1));
        }
        i = i + 1;
    }
    proof {
        assert(out@ =~= v@);
    }
    out
}

impl Clone for Numbers {
    /// Clones the shape; the result has the same model.
    fn clone(&self) -> (res: Self)
        ensures
            res@ == self@,
    {
        match self {
            Numbers::All => Numbers::All,
            Numbers::Int => Numbers::Int,
            Numbers::One(v) => Numbers::One(*v),
            Numbers::Many(vs) => {
                let mut out: Vec<i32> = Vec::new();
                let mut i: usize = 0;
                while i < vs.len()
                    invariant
                        i <= vs@.len(),
                        out@ == vs@.subrange(0, i as int),
                    decreases vs@.len() - i,
                {
                    out.push(vs[i]);
                    proof {
                        assert(out@ =~= vs@.subrange(0, i as int + 1));
                    }
                    i = i + 1;
                }
                proof {
                    assert(out@ =~= vs@);
                }
                Numbers::Many(out)
            }
        }
    }
}

impl Clone for Strings {
    /// Clones the shape; the result has the same model.
    fn clone(&self) -> (res: Self)
        ensures
            res@ == self@,
    {
        match self {
            Strings::All => Strings::All,
            Strings::One(s) => Strings::One(dup_bytes(s)),
            Strings::Many(vs) => {
                let mut out: Vec<Str> = Vec::new();
                let mut i: usize = 0;
                while i < vs.len()
                    invariant
                        i <= vs@.len(),
                        out@.len() == i,
                        forall|j: int| 0 <= j < i ==> out@[j]@ == vs@[j]@,
                    decreases vs@.len() - i,
                {
                    out.push(dup_bytes(&vs[i]));
                    i = i + 1;
                }
                proof {
                    assert forall|e: Seq<u8>|
                        crate::model::strs_lits(out@).contains(e)
                            == crate::model::strs_lits(vs@).contains(e) by {
                        crate::model::lemma_strs_lits_contains(out@, e);
                        crate::model::lemma_strs_lits_contains(vs@, e);
                        if exists|j: int| 0 <= j < out@.len() && (#[trigger] out@[j])@ == e {
                            let j = choose|j: int|
                                0 <= j < out@.len() && (#[trigger] out@[j])@ == e;
                            assert(vs@[j]@ == e);
                        }
                        if exists|j: int| 0 <= j < vs@.len() && (#[trigger] vs@[j])@ == e {
                            let j = choose|j: int| 0 <= j < vs@.len() && (#[trigger] vs@[j])@ == e;
                            assert(out@[j]@ == e);
                        }
                    }
                    assert(crate::model::strs_lits(out@) =~= crate::model::strs_lits(vs@));
                }
                Strings::Many(out)
            }
        }
    }
}

impl Clone for T {
    /// Clones the term; the result has the same model, and stays
    /// well-formed.
    fn clone(&self) -> (res: Self)
        ensures
            res@ == self@,
            wf_t(*self) ==> wf_t(res),
            size_t(res) == size_t(*self),
        decreases size_t(*self),
    {
        match self {
            T::Dynamic => T::Dynamic,
            T::Bottom => T::Bottom,
            T::Nil => T::Nil,
            T::Boolean => T::Boolean,
            T::True => T::True,
            T::False => T::False,
            T::Numbers(n) => T::Numbers(n.clone()),
            T::Strings(s) => T::Strings(s.clone()),
            T::Tables(tb) => T::Tables(tb.clone()),
            T::Functions(f) => T::Functions(f.clone()),
            T::TVar(tv) => T::TVar(*tv),
            T::Builtin(b, bt) => T::Builtin(*b, Box::new((**bt).clone())),
            T::Union(bu) => T::Union(Box::new((**bu).clone())),
        }
    }
}

impl Clone for S {
    /// Clones the slot; the result has the same model, mark included.
    fn clone(&self) -> (res: Self)
        ensures
            res@ == self@,
            wf_s(*self) ==> wf_s(res),
            size_s(res) == size_s(*self),
        decreases size_s(*self),
    {
        match self {
            S::Just(t) => S::Just(t.clone()),
            S::Var(t) => S::Var(t.clone()),
            S::Const(t) => S::Const(t.clone()),
            S::Currently(t) => S::Currently(t.clone()),
            S::VarOrConst(t, m) => S::VarOrConst(t.clone(), *m),
            S::VarOrCurrently(t, m) => S::VarOrCurrently(t.clone(), *m),
        }
    }
}

impl Clone for Tables {
    /// Clones the table shape; the result has the same model, and
    /// keeps record keys distinct.
    fn clone(&self) -> (res: Self)
        ensures
            res@ == self@,
            wf_tables(*self) ==> wf_tables(res),
            size_tables(res) == size_tables(*self),
        decreases size_tables(*self),
    {
        match self {
            Tables::All => Tables::All,
            Tables::Empty => Tables::Empty,
            Tables::Tuple(vs) => {
                let mut out: Vec<S> = Vec::new();
                let mut i: usize = 0;
                while i < vs.len()
                    invariant
                        i <= vs@.len(),
                        out@.len() == i,
                        forall|j: int| 0 <= j < i ==> (#[trigger] out@[j]).model() == vs@[j].model(),
                        forall|j: int| 0 <= j < i ==> wf_s(#[trigger] vs@[j]) ==> wf_s(out@[j]),
                        forall|j: int|
                            0 <= j < i ==> size_s(#[trigger] out@[j]) == size_s(vs@[j]),
                        size_tables(*self) == 3 + size_slots(vs@),
                    decreases vs@.len() - i,
                {
                    let e = vs[i].clone();
                    out.push(e);
                    i = i + 1;
                }
                proof {
                    assert(slots_model(out@) =~= slots_model(vs@)) by {
                        assert forall|j: int| 0 <= j < vs@.len() implies slots_model(out@)[j]
                            == slots_model(vs@)[j] by {
                            crate::model::lemma_slots_model_index(out@, j);
                            crate::model::lemma_slots_model_index(vs@, j);
                        }
                        crate::model::lemma_slots_model_len(out@);
                        crate::model::lemma_slots_model_len(vs@);
                    }
                    crate::measure::lemma_size_slots_pointwise(out@, vs@);
                }
                Tables::Tuple(out)
            }
            Tables::Record(es) => {
                let mut out: Vec<(Str, S)> = Vec::new();
                let mut i: usize = 0;
                while i < es.len()
                    invariant
                        i <= es@.len(),
                        out@.len() == i,
                        forall|j: int|
                            0 <= j < i ==> (#[trigger] out@[j]).0@ == es@[j].0@ && out@[j].1.model()
                                == es@[j].1.model(),
                        forall|j: int| 0 <= j < i ==> wf_s(es@[j].1) ==> wf_s((#[trigger] out@[j]).1),
                        forall|j: int|
                            0 <= j < i ==> size_s((#[trigger] out@[j]).1) == size_s(es@[j].1),
                        size_tables(*self) == 3 + size_entries(es@),
                    decreases es@.len() - i,
                {
                    let k = dup_bytes(&es[i].0);
                    let v = es[i].1.clone();
                    out.push((k, v));
                    i = i + 1;
                }
                proof {
                    assert(entries_model(out@) =~= entries_model(es@)) by {
                        assert forall|j: int| 0 <= j < es@.len() implies entries_model(out@)[j]
                            == entries_model(es@)[j] by {
                            crate::model::lemma_entries_model_index(out@, j);
                            crate::model::lemma_entries_model_index(es@, j);
                        }
                        crate::model::lemma_entries_model_len(out@);
                        crate::model::lemma_entries_model_len(es@);
                    }
                    crate::measure::lemma_size_entries_pointwise(out@, es@);
                }
                Tables::Record(out)
            }
            Tables::Array(b) => Tables::Array(Box::new((**b).clone())),
            Tables::Mapping(k, v) => Tables::Mapping(
                Box::new((**k).clone()),
                Box::new((**v).clone()),
            ),
        }
    }
}

impl Clone for Function {
    /// Clones the function; the result has the same model.
    fn clone(&self) -> (res: Self)
        ensures
            res.model() == self.model(),
            wf_functions(Functions::Simple(*self)) ==> wf_functions(Functions::Simple(res)),
            size_types(res.args@) == size_types(self.args@),
            size_types(res.rets@) == size_types(self.rets@),
        decreases size_types(self.args@) + size_types(self.rets@) + 1,
    {
        let args = dup_types(&self.args);
        let rets = dup_types(&self.rets);
        let res = Function { args, rets };
        proof {
            let ghost fs = Functions::Simple(*self);
            if wf_functions(fs) {
                assert(fs->Simple_0 == *self);
                assert(forall|i: int|
                    0 <= i < fs->Simple_0.args@.len() ==> wf_t(
                        #[trigger] fs->Simple_0.args@[i],
                    ));
                assert(forall|i: int|
                    0 <= i < self.args@.len() ==> wf_t(#[trigger] self.args@[i]));
                assert(forall|i: int|
                    0 <= i < self.rets@.len() ==> wf_t(#[trigger] self.rets@[i]));
                assert(forall|i: int| 0 <= i < res.args@.len() ==> wf_t(#[trigger] res.args@[i]));
                assert(forall|i: int| 0 <= i < res.rets@.len() ==> wf_t(#[trigger] res.rets@[i]));
                assert(wf_functions(Functions::Simple(res)));
            }
        }
        res
    }
}

/// Copies a vector of types, keeping each model.
fn dup_types(v: &Vec<T>) -> (r: Vec<T>)
    ensures
        types_model(r@) == types_model(v@),
        r@.len() == v@.len(),
        (forall|i: int| 0 <= i < v@.len() ==> wf_t(#[trigger] v@[i])) ==> (forall|i: int|
            0 <= i < r@.len() ==> wf_t(#[trigger] r@[i])),
        size_types(r@) == size_types(v@),
    decreases size_types(v@),
{
    let mut out: Vec<T> = Vec::new();
    let mut i: usize = 0;
    while i < v.len()
        invariant
            i <= v@.len(),
            out@.len() == i,
            forall|j: int| 0 <= j < i ==> (#[trigger] out@[j]).model() == v@[j].model(),
            forall|j: int| 0 <= j < i ==> wf_t(#[trigger] v@[j]) ==> wf_t(out@[j]),
            forall|j: int| 0 <= j < i ==> size_t(#[trigger] out@[j]) == size_t(v@[j]),
        decreases v@.len() - i,
    {
        let e = v[i].clone();
        out.push(e);
        i = i + 1;
    }
    proof {
        assert(types_model(out@) =~= types_model(v@)) by {
            assert forall|j: int| 0 <= j < v@.len() implies types_model(out@)[j] == types_model(
                v@,
            )[j] by {
                crate::model::lemma_types_model_index(out@, j);
                crate::model::lemma_types_model_index(v@, j);
            }
            crate::model::lemma_types_model_len(out@);
            crate::model::lemma_types_model_len(v@);
        }
        crate::measure::lemma_size_types_pointwise(out@, v@);
    }
    out
}

impl Clone for Functions {
    /// Clones the function shape; the result has the same model.
    fn clone(&self) -> (res: Self)
        ensures
            res@ == self@,
            wf_functions(*self) ==> wf_functions(res),
            size_functions(res) == size_functions(*self),
        decreases size_functions(*self),
    {
        match self {
            Functions::All => Functions::All,
            Functions::Simple(f) => Functions::Simple(f.clone()),
        }
    }
}

impl Clone for Union {
    /// Clones the union form; the result has the same model.
    fn clone(&self) -> (res: Self)
        ensures
            res@ == self@,
            wf_union(*self) ==> wf_union(res),
            size_union(res) == size_union(*self),
        decreases size_union(*self),
    {
        Union {
            has_dynamic: self.has_dynamic,
            has_nil: self.has_nil,
            has_true: self.has_true,
            has_false: self.has_false,
            numbers: match &self.numbers {
                Some(n) => Some(n.clone()),
                None => None,
            },
            strings: match &self.strings {
                Some(s) => Some(s.clone()),
                None => None,
            },
            tables: match &self.tables {
                Some(t) => Some(t.clone()),
                None => None,
            },
            functions: match &self.functions {
                Some(f) => Some(f.clone()),
                None => None,
            },
            tvar: self.tvar,
        }
    }
}

} // verus!
