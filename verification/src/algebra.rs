//! The join algebra on models: the union of two types, the slot
//! flavor table, and the canonicalization of union forms.

use vstd::prelude::*;
use crate::model::{FlavorV, FunctionsV, NumbersV, SlotV, StringsV, TablesV, TypeV, UnionV};

verus! {

/// The join of two slot flavors, as the mutability table gives it:
/// `Just` is the neutral constructor flavor, a read-write cell meeting
/// a read-only one becomes read-only, and a cell that may still be
/// refined keeps that openness in a marked flavor.  The pairs the
/// table leaves open (two undecided flavors together) keep the less
/// decided side.
pub open spec fn flavor_join(a: FlavorV, b: FlavorV) -> FlavorV {
    match (a, b) {
        (FlavorV::Just, FlavorV::Just) => FlavorV::Just,
        (FlavorV::Just, FlavorV::Var) => FlavorV::VarOrConst,
        (FlavorV::Var, FlavorV::Just) => FlavorV::VarOrConst,
        (FlavorV::Just, FlavorV::Const) => FlavorV::Const,
        (FlavorV::Const, FlavorV::Just) => FlavorV::Const,
        (FlavorV::Just, FlavorV::Currently) => FlavorV::VarOrCurrently,
        (FlavorV::Currently, FlavorV::Just) => FlavorV::VarOrCurrently,
        (FlavorV::Just, FlavorV::VarOrConst) => FlavorV::VarOrConst,
        (FlavorV::VarOrConst, FlavorV::Just) => FlavorV::VarOrConst,
        (FlavorV::Just, FlavorV::VarOrCurrently) => FlavorV::VarOrCurrently,
        (FlavorV::VarOrCurrently, FlavorV::Just) => FlavorV::VarOrCurrently,
        (FlavorV::Var, FlavorV::Var) => FlavorV::VarOrConst,
        (FlavorV::Var, FlavorV::Const) => FlavorV::Const,
        (FlavorV::Const, FlavorV::Var) => FlavorV::Const,
        (FlavorV::Var, FlavorV::Currently) => FlavorV::VarOrCurrently,
        (FlavorV::Currently, FlavorV::Var) => FlavorV::VarOrCurrently,
        (FlavorV::Var, FlavorV::VarOrConst) => FlavorV::VarOrConst,
        (FlavorV::VarOrConst, FlavorV::Var) => FlavorV::VarOrConst,
        (FlavorV::Var, FlavorV::VarOrCurrently) => FlavorV::VarOrCurrently,
        (FlavorV::VarOrCurrently, FlavorV::Var) => FlavorV::VarOrCurrently,
        (FlavorV::Const, FlavorV::Const) => FlavorV::Const,
        (FlavorV::Const, FlavorV::Currently) => FlavorV::VarOrConst,
        (FlavorV::Currently, FlavorV::Const) => FlavorV::VarOrConst,
        (FlavorV::Const, FlavorV::VarOrConst) => FlavorV::VarOrConst,
        (FlavorV::VarOrConst, FlavorV::Const) => FlavorV::VarOrConst,
        (FlavorV::Const, FlavorV::VarOrCurrently) => FlavorV::VarOrConst,
        (FlavorV::VarOrCurrently, FlavorV::Const) => FlavorV::VarOrConst,
        (FlavorV::Currently, FlavorV::Currently) => FlavorV::VarOrCurrently,
        (FlavorV::Currently, FlavorV::VarOrConst) => FlavorV::VarOrConst,
        (FlavorV::VarOrConst, FlavorV::Currently) => FlavorV::VarOrConst,
        (FlavorV::Currently, FlavorV::VarOrCurrently) => FlavorV::VarOrCurrently,
        (FlavorV::VarOrCurrently, FlavorV::Currently) => FlavorV::VarOrCurrently,
        (FlavorV::VarOrConst, FlavorV::VarOrConst) => FlavorV::VarOrConst,
        (FlavorV::VarOrConst, FlavorV::VarOrCurrently) => FlavorV::VarOrConst,
        (FlavorV::VarOrCurrently, FlavorV::VarOrConst) => FlavorV::VarOrConst,
        (FlavorV::VarOrCurrently, FlavorV::VarOrCurrently) => FlavorV::VarOrCurrently,
    }
}

/// Whether a model admits nil as a member, seen from union building.
pub open spec fn vhas_nil(v: TypeV) -> bool {
    match v {
        TypeV::Nil => true,
        TypeV::Union(u) => u.has_nil,
        _ => false,
    }
}

/// Whether a model admits `true` as a member.
pub open spec fn vhas_true(v: TypeV) -> bool {
    match v {
        TypeV::Boolean => true,
        TypeV::True => true,
        TypeV::Union(u) => u.has_true,
        _ => false,
    }
}

/// Whether a model admits `false` as a member.
pub open spec fn vhas_false(v: TypeV) -> bool {
    match v {
        TypeV::Boolean => true,
        TypeV::False => true,
        TypeV::Union(u) => u.has_false,
        _ => false,
    }
}

/// The numeric member of a model, if any.
pub open spec fn vnumbers_in(v: TypeV) -> Option<NumbersV> {
    match v {
        TypeV::Numbers(n) => Some(n),
        TypeV::Union(u) => u.numbers,
        _ => None,
    }
}

/// The string member of a model, if any.
pub open spec fn vstrings_in(v: TypeV) -> Option<StringsV> {
    match v {
        TypeV::Strings(s) => Some(s),
        TypeV::Union(u) => u.strings,
        _ => None,
    }
}

/// The table member of a model, if any.
pub open spec fn vtables_in(v: TypeV) -> Option<TablesV> {
    match v {
        TypeV::Tables(t) => Some(t),
        TypeV::Union(u) => u.tables,
        _ => None,
    }
}

/// The function member of a model, if any.
pub open spec fn vfunctions_in(v: TypeV) -> Option<FunctionsV> {
    match v {
        TypeV::Functions(f) => Some(f),
        TypeV::Union(u) => u.functions,
        _ => None,
    }
}

/// The type-variable member of a model, if any.
pub open spec fn vtvar_in(v: TypeV) -> Option<int> {
    match v {
        TypeV::TVar(i) => Some(i),
        TypeV::Union(u) => u.tvar,
        _ => None,
    }
}

/// The join of two numeric shapes: literal sets unite, `Int` widens a
/// literal set, `All` widens everything.
pub open spec fn vunion_numbers(a: NumbersV, b: NumbersV) -> NumbersV {
    match (a, b) {
        (NumbersV::All, _) => NumbersV::All,
        (_, NumbersV::All) => NumbersV::All,
        (NumbersV::Int, _) => NumbersV::Int,
        (_, NumbersV::Int) => NumbersV::Int,
        (NumbersV::Lits(s1), NumbersV::Lits(s2)) => NumbersV::Lits(s1.union(s2)),
    }
}

/// The join of two string shapes.
pub open spec fn vunion_strings(a: StringsV, b: StringsV) -> StringsV {
    match (a, b) {
        (StringsV::All, _) => StringsV::All,
        (_, StringsV::All) => StringsV::All,
        (StringsV::Lits(s1), StringsV::Lits(s2)) => StringsV::Lits(s1.union(s2)),
    }
}

/// The join of two function shapes: two simple shapes join only when
/// they are equal; otherwise the join widens to every function.
pub open spec fn vunion_functions(a: FunctionsV, b: FunctionsV) -> FunctionsV {
    match (a, b) {
        (FunctionsV::All, _) => FunctionsV::All,
        (_, FunctionsV::All) => FunctionsV::All,
        (FunctionsV::Simple(a1, r1), FunctionsV::Simple(a2, r2)) => if a1 == a2 && r1 == r2 {
            FunctionsV::Simple(a1, r1)
        } else {
            FunctionsV::All
        },
    }
}

/// The optional-member join for numbers.
pub open spec fn merge_numbers_opt(a: Option<NumbersV>, b: Option<NumbersV>) -> Option<NumbersV> {
    match (a, b) {
        (Some(x), Some(y)) => Some(vunion_numbers(x, y)),
        (Some(x), None) => Some(x),
        (None, y) => y,
    }
}

/// The optional-member join for strings.
pub open spec fn merge_strings_opt(a: Option<StringsV>, b: Option<StringsV>) -> Option<StringsV> {
    match (a, b) {
        (Some(x), Some(y)) => Some(vunion_strings(x, y)),
        (Some(x), None) => Some(x),
        (None, y) => y,
    }
}

/// The optional-member join for functions.
pub open spec fn merge_functions_opt(a: Option<FunctionsV>, b: Option<FunctionsV>) -> Option<
    FunctionsV,
> {
    match (a, b) {
        (Some(x), Some(y)) => Some(vunion_functions(x, y)),
        (Some(x), None) => Some(x),
        (None, y) => y,
    }
}

/// The canonical type a union form stands for: dynamic eclipses, an
/// empty form is bottom, a single member stands alone, the two bare
/// booleans collapse to `Boolean`, anything else stays a union.
pub open spec fn vsimplify(u: UnionV) -> TypeV {
    if u.has_dynamic {
        TypeV::Dynamic
    } else {
        let n = crate::wf::vcount(u);
        if n == 0 {
            TypeV::Bottom
        } else if u.has_true && u.has_false && n == 2 {
            TypeV::Boolean
        } else if n == 1 {
            if u.has_nil {
                TypeV::Nil
            } else if u.has_true {
                TypeV::True
            } else if u.has_false {
                TypeV::False
            } else if u.numbers is Some {
                TypeV::Numbers(u.numbers->0)
            } else if u.strings is Some {
                TypeV::Strings(u.strings->0)
            } else if u.tables is Some {
                TypeV::Tables(u.tables->0)
            } else if u.functions is Some {
                TypeV::Functions(u.functions->0)
            } else {
                TypeV::TVar(u.tvar->0)
            }
        } else {
            TypeV::Union(u)
        }
    }
}

/// The model joined with nil, without going through the general join:
/// the nil bit is added to the members of `v`.
pub open spec fn with_nil(v: TypeV) -> TypeV
    decreases v,
{
    match v {
        TypeV::Builtin(_, x) => with_nil(*x),
        TypeV::Dynamic => TypeV::Dynamic,
        TypeV::Bottom => TypeV::Nil,
        TypeV::Nil => TypeV::Nil,
        _ => vsimplify(
            UnionV {
                has_dynamic: false,
                has_nil: true,
                has_true: vhas_true(v),
                has_false: vhas_false(v),
                numbers: vnumbers_in(v),
                strings: vstrings_in(v),
                tables: vtables_in(v),
                functions: vfunctions_in(v),
                tvar: vtvar_in(v),
            },
        ),
    }
}

/// A slot extended with nil: what a slot becomes when the other table
/// has nothing at its position or key.  A missing key reads as nil and
/// stays writable, so the flavor is promoted to `VarOrConst`.
pub open spec fn vslot_nil_ext(s: SlotV) -> SlotV {
    SlotV { flavor: FlavorV::VarOrConst, ty: with_nil(s.ty) }
}

/// The model joined on the left with the integer type, as the key of a
/// merged array: arrays are integer-keyed mappings for joins.
pub open spec fn int_with_key(v: TypeV) -> TypeV
    decreases v,
{
    match v {
        TypeV::Builtin(_, x) => int_with_key(*x),
        TypeV::Dynamic => TypeV::Dynamic,
        TypeV::Bottom => TypeV::Numbers(NumbersV::Int),
        TypeV::Numbers(n) => TypeV::Numbers(vunion_numbers(NumbersV::Int, n)),
        _ => vsimplify(
            UnionV {
                has_dynamic: false,
                has_nil: vhas_nil(v),
                has_true: vhas_true(v),
                has_false: vhas_false(v),
                numbers: merge_numbers_opt(Some(NumbersV::Int), vnumbers_in(v)),
                strings: vstrings_in(v),
                tables: vtables_in(v),
                functions: vfunctions_in(v),
                tvar: vtvar_in(v),
            },
        ),
    }
}

/// The model joined on the right with the integer type.
pub open spec fn key_with_int(v: TypeV) -> TypeV
    decreases v,
{
    match v {
        TypeV::Builtin(_, x) => key_with_int(*x),
        TypeV::Dynamic => TypeV::Dynamic,
        TypeV::Bottom => TypeV::Numbers(NumbersV::Int),
        TypeV::Numbers(n) => TypeV::Numbers(vunion_numbers(n, NumbersV::Int)),
        _ => vsimplify(
            UnionV {
                has_dynamic: false,
                has_nil: vhas_nil(v),
                has_true: vhas_true(v),
                has_false: vhas_false(v),
                numbers: merge_numbers_opt(vnumbers_in(v), Some(NumbersV::Int)),
                strings: vstrings_in(v),
                tables: vtables_in(v),
                functions: vfunctions_in(v),
                tvar: vtvar_in(v),
            },
        ),
    }
}

/// The join of two slots: the flavors joined by the table, the types
/// joined by the general join.
pub open spec fn vslot_union(a: SlotV, b: SlotV) -> SlotV
    decreases a, b,
{
    SlotV { flavor: flavor_join(a.flavor, b.flavor), ty: vunion(a.ty, b.ty) }
}

/// The join of two table shapes.
pub open spec fn vunion_tables(t1: TablesV, t2: TablesV) -> TablesV
    decreases t1, t2,
    via vunion_tables_decreases
{
    match (t1, t2) {
        (TablesV::All, _) => TablesV::All,
        (_, TablesV::All) => TablesV::All,
        (TablesV::Empty, TablesV::Empty) => TablesV::Empty,
        (TablesV::Empty, TablesV::Array(b)) => TablesV::Array(b),
        (TablesV::Array(a), TablesV::Empty) => TablesV::Array(a),
        (TablesV::Empty, TablesV::Mapping(k, v)) => TablesV::Mapping(k, v),
        (TablesV::Mapping(k, v), TablesV::Empty) => TablesV::Mapping(k, v),
        (TablesV::Empty, TablesV::Tuple(bs)) => TablesV::Tuple(
            Seq::new(bs.len(), |i: int| vslot_nil_ext(bs[i])),
        ),
        (TablesV::Tuple(av), TablesV::Empty) => TablesV::Tuple(
            Seq::new(av.len(), |i: int| vslot_nil_ext(av[i])),
        ),
        (TablesV::Empty, TablesV::Record(m)) => TablesV::Record(
            Map::new(|k: Seq<u8>| m.contains_key(k), |k: Seq<u8>| vslot_nil_ext(m[k])),
        ),
        (TablesV::Record(m), TablesV::Empty) => TablesV::Record(
            Map::new(|k: Seq<u8>| m.contains_key(k), |k: Seq<u8>| vslot_nil_ext(m[k])),
        ),
        (TablesV::Tuple(av), TablesV::Tuple(bv)) => TablesV::Tuple(
            Seq::new(
                if av.len() >= bv.len() {
                    av.len()
                } else {
                    bv.len()
                },
                |i: int|
                    if 0 <= i < av.len() && 0 <= i < bv.len() {
                        vslot_union(av[i], bv[i])
                    } else if 0 <= i < av.len() {
                        vslot_nil_ext(av[i])
                    } else {
                        vslot_nil_ext(bv[i])
                    },
            ),
        ),
        (TablesV::Record(m1), TablesV::Record(m2)) => TablesV::Record(
            Map::new(
                |k: Seq<u8>| m1.contains_key(k) || m2.contains_key(k),
                |k: Seq<u8>|
                    if m1.dom().finite() && m2.dom().finite() && m1.contains_key(k)
                        && m2.contains_key(k) {
                        vslot_union(m1[k], m2[k])
                    } else if m1.dom().finite() && m1.contains_key(k) {
                        vslot_nil_ext(m1[k])
                    } else if m2.dom().finite() && m2.contains_key(k) {
                        vslot_nil_ext(m2[k])
                    } else {
                        vstd::pervasive::arbitrary()
                    },
            ),
        ),
        (TablesV::Array(a), TablesV::Array(b)) => TablesV::Array(Box::new(vslot_union(*a, *b))),
        (TablesV::Array(a), TablesV::Mapping(k2, v2)) => TablesV::Mapping(
            Box::new(int_with_key(*k2)),
            Box::new(vslot_union(*a, *v2)),
        ),
        (TablesV::Mapping(k1, v1), TablesV::Array(b)) => TablesV::Mapping(
            Box::new(key_with_int(*k1)),
            Box::new(vslot_union(*v1, *b)),
        ),
        (TablesV::Mapping(k1, v1), TablesV::Mapping(k2, v2)) => TablesV::Mapping(
            Box::new(vunion(*k1, *k2)),
            Box::new(vslot_union(*v1, *v2)),
        ),
        _ => TablesV::All,
    }
}

#[via_fn]
proof fn vunion_tables_decreases(t1: TablesV, t2: TablesV) {
    match (t1, t2) {
        (TablesV::Empty, TablesV::Tuple(bs)) => {
            assert forall|i: int| 0 <= i < bs.len() implies decreases_to!(t2 => bs[i]) by {
                assert(decreases_to!(t2 => t2->Tuple_0));
                assert(decreases_to!(t2->Tuple_0 => t2->Tuple_0[i]));
            }
        }
        (TablesV::Tuple(av), TablesV::Empty) => {
            assert forall|i: int| 0 <= i < av.len() implies decreases_to!(t1 => av[i]) by {
                assert(decreases_to!(t1 => t1->Tuple_0));
                assert(decreases_to!(t1->Tuple_0 => t1->Tuple_0[i]));
            }
        }
        (TablesV::Empty, TablesV::Record(m)) => {
            assert forall|k: Seq<u8>| m.dom().finite() && m.contains_key(k) implies decreases_to!(
                t2 => m[k],
            ) by {
                assert(decreases_to!(t2 => t2->Record_0));
                assert(decreases_to!(t2->Record_0 => t2->Record_0[k]));
            }
        }
        (TablesV::Record(m), TablesV::Empty) => {
            assert forall|k: Seq<u8>| m.dom().finite() && m.contains_key(k) implies decreases_to!(
                t1 => m[k],
            ) by {
                assert(decreases_to!(t1 => t1->Record_0));
                assert(decreases_to!(t1->Record_0 => t1->Record_0[k]));
            }
        }
        (TablesV::Tuple(av), TablesV::Tuple(bv)) => {
            assert forall|i: int| 0 <= i < av.len() implies decreases_to!(t1 => av[i]) by {
                assert(decreases_to!(t1 => t1->Tuple_0));
                assert(decreases_to!(t1->Tuple_0 => t1->Tuple_0[i]));
            }
            assert forall|i: int| 0 <= i < bv.len() implies decreases_to!(t2 => bv[i]) by {
                assert(decreases_to!(t2 => t2->Tuple_0));
                assert(decreases_to!(t2->Tuple_0 => t2->Tuple_0[i]));
            }
        }
        (TablesV::Record(m1), TablesV::Record(m2)) => {
            assert forall|k: Seq<u8>| m1.dom().finite() && m1.contains_key(k) implies decreases_to!(
                t1 => m1[k],
            ) by {
                assert(decreases_to!(t1 => t1->Record_0));
                assert(decreases_to!(t1->Record_0 => t1->Record_0[k]));
            }
            assert forall|k: Seq<u8>| m2.dom().finite() && m2.contains_key(k) implies decreases_to!(
                t2 => m2[k],
            ) by {
                assert(decreases_to!(t2 => t2->Record_0));
                assert(decreases_to!(t2->Record_0 => t2->Record_0[k]));
            }
        }
        _ => {}
    }
}

/// Joining with nil through the general join is exactly the nil
/// extension.
pub proof fn lemma_with_nil(v: TypeV)
    ensures
        vunion(v, TypeV::Nil) == with_nil(v),
    decreases v,
{
    match v {
        TypeV::Builtin(_, x) => {
            lemma_with_nil(*x);
        }
        _ => {}
    }
}

/// Joining the integer type on the left through the general join is
/// exactly `int_with_key`.
pub proof fn lemma_int_with_key(v: TypeV)
    ensures
        vunion(TypeV::Numbers(NumbersV::Int), v) == int_with_key(v),
    decreases v,
{
    match v {
        TypeV::Builtin(_, x) => {
            lemma_int_with_key(*x);
        }
        _ => {}
    }
}

/// Joining the integer type on the right through the general join is
/// exactly `key_with_int`.
pub proof fn lemma_key_with_int(v: TypeV)
    ensures
        vunion(v, TypeV::Numbers(NumbersV::Int)) == key_with_int(v),
    decreases v,
{
    match v {
        TypeV::Builtin(_, x) => {
            lemma_key_with_int(*x);
        }
        _ => {}
    }
}

/// The value a record join gives a key: both sides joined, or the one
/// side extended with nil.
pub open spec fn join_rec_val(
    ma: Map<Seq<u8>, SlotV>,
    mb: Map<Seq<u8>, SlotV>,
    k: Seq<u8>,
) -> SlotV {
    if ma.contains_key(k) && mb.contains_key(k) {
        vslot_union(ma[k], mb[k])
    } else if ma.contains_key(k) {
        vslot_nil_ext(ma[k])
    } else {
        vslot_nil_ext(mb[k])
    }
}

/// What the tuple arms of the table join hold at each position.
pub proof fn lemma_vut_tuple(am: Seq<SlotV>, bm: Seq<SlotV>, i: int)
    requires
        0 <= i < (if am.len() >= bm.len() {
            am.len()
        } else {
            bm.len()
        }),
    ensures
        vunion_tables(TablesV::Tuple(am), TablesV::Tuple(bm)) is Tuple,
        vunion_tables(TablesV::Tuple(am), TablesV::Tuple(bm))->Tuple_0.len() == (
        if am.len() >= bm.len() {
            am.len()
        } else {
            bm.len()
        }),
        vunion_tables(TablesV::Tuple(am), TablesV::Tuple(bm))->Tuple_0[i] == (
        if i < am.len() && i < bm.len() {
            vslot_union(am[i], bm[i])
        } else if i < am.len() {
            vslot_nil_ext(am[i])
        } else {
            vslot_nil_ext(bm[i])
        }),
{
}

/// What the tuple-against-empty arms of the table join hold.
pub proof fn lemma_vut_tuple_empty(am: Seq<SlotV>, i: int)
    requires
        0 <= i < am.len(),
    ensures
        vunion_tables(TablesV::Tuple(am), TablesV::Empty) is Tuple,
        vunion_tables(TablesV::Tuple(am), TablesV::Empty)->Tuple_0.len() == am.len(),
        vunion_tables(TablesV::Tuple(am), TablesV::Empty)->Tuple_0[i] == vslot_nil_ext(am[i]),
        vunion_tables(TablesV::Empty, TablesV::Tuple(am)) is Tuple,
        vunion_tables(TablesV::Empty, TablesV::Tuple(am))->Tuple_0.len() == am.len(),
        vunion_tables(TablesV::Empty, TablesV::Tuple(am))->Tuple_0[i] == vslot_nil_ext(am[i]),
{
}

/// The lengths of the joined tuple forms, position by position aside.
pub proof fn lemma_vut_tuple_len(am: Seq<SlotV>, bm: Seq<SlotV>)
    ensures
        vunion_tables(TablesV::Tuple(am), TablesV::Tuple(bm)) is Tuple,
        vunion_tables(TablesV::Tuple(am), TablesV::Tuple(bm))->Tuple_0.len() == (
        if am.len() >= bm.len() {
            am.len()
        } else {
            bm.len()
        }),
        vunion_tables(TablesV::Tuple(am), TablesV::Empty) is Tuple,
        vunion_tables(TablesV::Tuple(am), TablesV::Empty)->Tuple_0.len() == am.len(),
        vunion_tables(TablesV::Empty, TablesV::Tuple(bm)) is Tuple,
        vunion_tables(TablesV::Empty, TablesV::Tuple(bm))->Tuple_0.len() == bm.len(),
{
}

/// What the record arms of the table join hold at each key.
pub proof fn lemma_vut_record(m1: Map<Seq<u8>, SlotV>, m2: Map<Seq<u8>, SlotV>, k: Seq<u8>)
    requires
        m1.dom().finite(),
        m2.dom().finite(),
    ensures
        vunion_tables(TablesV::Record(m1), TablesV::Record(m2)) is Record,
        vunion_tables(TablesV::Record(m1), TablesV::Record(m2))->Record_0.contains_key(k) == (
        m1.contains_key(k) || m2.contains_key(k)),
        m1.contains_key(k) || m2.contains_key(k) ==> vunion_tables(
            TablesV::Record(m1),
            TablesV::Record(m2),
        )->Record_0[k] == join_rec_val(m1, m2, k),
{
}

/// What the record-against-empty arms of the table join hold.
pub proof fn lemma_vut_record_empty(m1: Map<Seq<u8>, SlotV>, k: Seq<u8>)
    requires
        m1.dom().finite(),
    ensures
        vunion_tables(TablesV::Record(m1), TablesV::Empty) is Record,
        vunion_tables(TablesV::Record(m1), TablesV::Empty)->Record_0.contains_key(k)
            == m1.contains_key(k),
        m1.contains_key(k) ==> vunion_tables(TablesV::Record(m1), TablesV::Empty)->Record_0[k]
            == vslot_nil_ext(m1[k]),
        vunion_tables(TablesV::Empty, TablesV::Record(m1)) is Record,
        vunion_tables(TablesV::Empty, TablesV::Record(m1))->Record_0.contains_key(k)
            == m1.contains_key(k),
        m1.contains_key(k) ==> vunion_tables(TablesV::Empty, TablesV::Record(m1))->Record_0[k]
            == vslot_nil_ext(m1[k]),
{
}

/// The join of two type models.  On a pair of type variables the
/// executable join asks the context for a fresh variable bounded below
/// by both; no model can name that fresh identity, so this function is
/// only appealed to for variable-free models, and its variable arm is
/// an arbitrary placeholder.
pub open spec fn vunion(a: TypeV, b: TypeV) -> TypeV
    decreases a, b,
    via vunion_decreases
{
    match (a, b) {
        (TypeV::Builtin(ba, x), TypeV::Builtin(bb, y)) => if ba == bb {
            TypeV::Builtin(ba, Box::new(vunion(*x, *y)))
        } else {
            vunion(*x, *y)
        },
        (TypeV::Builtin(_, x), yb) => vunion(*x, yb),
        (xa, TypeV::Builtin(_, y)) => vunion(xa, *y),
        (TypeV::Dynamic, _) => TypeV::Dynamic,
        (_, TypeV::Dynamic) => TypeV::Dynamic,
        (TypeV::Bottom, yb) => yb,
        (xa, TypeV::Bottom) => xa,
        (TypeV::Nil, TypeV::Nil) => TypeV::Nil,
        (TypeV::Boolean, TypeV::Boolean) => TypeV::Boolean,
        (TypeV::Boolean, TypeV::True) => TypeV::Boolean,
        (TypeV::Boolean, TypeV::False) => TypeV::Boolean,
        (TypeV::True, TypeV::Boolean) => TypeV::Boolean,
        (TypeV::False, TypeV::Boolean) => TypeV::Boolean,
        (TypeV::True, TypeV::True) => TypeV::True,
        (TypeV::True, TypeV::False) => TypeV::Boolean,
        (TypeV::False, TypeV::True) => TypeV::Boolean,
        (TypeV::False, TypeV::False) => TypeV::False,
        (TypeV::Numbers(n1), TypeV::Numbers(n2)) => TypeV::Numbers(vunion_numbers(n1, n2)),
        (TypeV::Strings(s1), TypeV::Strings(s2)) => TypeV::Strings(vunion_strings(s1, s2)),
        (TypeV::Tables(t1), TypeV::Tables(t2)) => TypeV::Tables(vunion_tables(t1, t2)),
        (TypeV::Functions(f1), TypeV::Functions(f2)) => TypeV::Functions(
            vunion_functions(f1, f2),
        ),
        (TypeV::TVar(v1), TypeV::TVar(_)) => TypeV::TVar(v1),
        (xa, yb) => vsimplify(
            UnionV {
                has_dynamic: false,
                has_nil: vhas_nil(xa) || vhas_nil(yb),
                has_true: vhas_true(xa) || vhas_true(yb),
                has_false: vhas_false(xa) || vhas_false(yb),
                numbers: merge_numbers_opt(vnumbers_in(xa), vnumbers_in(yb)),
                strings: merge_strings_opt(vstrings_in(xa), vstrings_in(yb)),
                tables: match (vtables_in(xa), vtables_in(yb)) {
                    (Some(t1), Some(t2)) => Some(vunion_tables(t1, t2)),
                    (Some(t1), None) => Some(t1),
                    (None, t) => t,
                },
                functions: merge_functions_opt(vfunctions_in(xa), vfunctions_in(yb)),
                tvar: match (vtvar_in(xa), vtvar_in(yb)) {
                    (Some(v1), _) => Some(v1),
                    (None, t) => t,
                },
            },
        ),
    }
}

#[via_fn]
proof fn vunion_decreases(a: TypeV, b: TypeV) {
    if vtables_in(a) is Some {
        assert(decreases_to!(a => vtables_in(a)->0)) by {
            match a {
                TypeV::Tables(t) => {
                    assert(decreases_to!(a => a->Tables_0));
                }
                TypeV::Union(u) => {
                    assert(decreases_to!(a => a->Union_0));
                    assert(decreases_to!(a->Union_0 => a->Union_0.tables));
                    assert(decreases_to!(a->Union_0.tables => a->Union_0.tables->0));
                }
                _ => {}
            }
        }
    }
    if vtables_in(b) is Some {
        assert(decreases_to!(b => vtables_in(b)->0)) by {
            match b {
                TypeV::Tables(t) => {
                    assert(decreases_to!(b => b->Tables_0));
                }
                TypeV::Union(u) => {
                    assert(decreases_to!(b => b->Union_0));
                    assert(decreases_to!(b->Union_0 => b->Union_0.tables));
                    assert(decreases_to!(b->Union_0.tables => b->Union_0.tables->0));
                }
                _ => {}
            }
        }
    }
}


} // verus!
