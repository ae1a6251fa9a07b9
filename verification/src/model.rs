//! The mathematical model of the type algebra: each executable type is
//! viewed as a ghost value in which literal collections are sets,
//! records are maps, and marks are erased.

use vstd::prelude::*;
use crate::tag::Tag;
use crate::value::{Function, Functions, Numbers, S, Str, Strings, T, Tables, Union};

verus! {

broadcast use vstd::seq::axiom_seq_index_decreases, vstd::std_specs::vec::axiom_vec_index_decreases, vstd::seq::axiom_seq_subrange_decreases, vstd::std_specs::vec::axiom_vec_decreases_to_view;

/// The model of a numeric shape.
pub ghost enum NumbersV {
    All,
    Int,
    Lits(Set<int>),
}

/// The model of a string shape.
pub ghost enum StringsV {
    All,
    Lits(Set<Seq<u8>>),
}

/// The model of a slot flavor; marks are erased.
pub ghost enum FlavorV {
    Just,
    Var,
    Const,
    Currently,
    VarOrConst,
    VarOrCurrently,
}

/// The model of a slot.
pub ghost struct SlotV {
    pub flavor: FlavorV,
    pub ty: TypeV,
}

/// The model of a table shape.
pub ghost enum TablesV {
    All,
    Empty,
    Tuple(Seq<SlotV>),
    Record(Map<Seq<u8>, SlotV>),
    Array(Box<SlotV>),
    Mapping(Box<TypeV>, Box<SlotV>),
}

/// The model of a function shape.
pub ghost enum FunctionsV {
    All,
    Simple(Seq<TypeV>, Seq<TypeV>),
}

/// The model of a canonical union.
pub ghost struct UnionV {
    pub has_dynamic: bool,
    pub has_nil: bool,
    pub has_true: bool,
    pub has_false: bool,
    pub numbers: Option<NumbersV>,
    pub strings: Option<StringsV>,
    pub tables: Option<TablesV>,
    pub functions: Option<FunctionsV>,
    pub tvar: Option<int>,
}

/// The model of a type term.
pub ghost enum TypeV {
    Dynamic,
    Bottom,
    Nil,
    Boolean,
    True,
    False,
    Numbers(NumbersV),
    Strings(StringsV),
    Tables(TablesV),
    Functions(FunctionsV),
    TVar(int),
    Builtin(Tag, Box<TypeV>),
    Union(UnionV),
}

/// The set of integers a literal vector stands for.
pub open spec fn ints_lits(vs: Seq<i32>) -> Set<int>
    decreases vs,
{
    if vs.len() == 0 {
        Set::empty()
    } else {
        ints_lits(vs.drop_last()).insert(vs.last() as int)
    }
}

/// What `ints_lits` holds: the integers of the vector, exactly.
pub broadcast proof fn lemma_ints_lits_contains(vs: Seq<i32>, e: int)
    ensures
        #[trigger] ints_lits(vs).contains(e) <==> exists|j: int|
            0 <= j < vs.len() && (#[trigger] vs[j]) as int == e,
    decreases vs.len(),
{
    if vs.len() > 0 {
        lemma_ints_lits_contains(vs.drop_last(), e);
        if vs.last() as int == e {
            assert(vs[vs.len() - 1] as int == e);
        } else if ints_lits(vs).contains(e) {
            let j = choose|j: int|
                0 <= j < vs.drop_last().len() && (#[trigger] vs.drop_last()[j]) as int == e;
            assert(vs[j] as int == e);
        } else {
            assert forall|j: int|
                0 <= j < vs.len() && (#[trigger] vs[j]) as int == e implies false by {
                if j < vs.len() - 1 {
                    assert(vs.drop_last()[j] as int == e);
                }
            }
        }
    }
}

/// The set of byte strings a literal vector stands for.
pub open spec fn strs_lits(vs: Seq<Str>) -> Set<Seq<u8>>
    decreases vs,
{
    if vs.len() == 0 {
        Set::empty()
    } else {
        strs_lits(vs.drop_last()).insert(vs.last()@)
    }
}

/// What `strs_lits` holds: the byte strings of the vector, exactly.
pub broadcast proof fn lemma_strs_lits_contains(vs: Seq<Str>, e: Seq<u8>)
    ensures
        #[trigger] strs_lits(vs).contains(e) <==> exists|j: int|
            0 <= j < vs.len() && (#[trigger] vs[j])@ == e,
    decreases vs.len(),
{
    if vs.len() > 0 {
        lemma_strs_lits_contains(vs.drop_last(), e);
        if vs.last()@ == e {
            assert(vs[vs.len() - 1]@ == e);
        } else if strs_lits(vs).contains(e) {
            let j = choose|j: int|
                0 <= j < vs.drop_last().len() && (#[trigger] vs.drop_last()[j])@ == e;
            assert(vs[j]@ == e);
        } else {
            assert forall|j: int| 0 <= j < vs.len() && (#[trigger] vs[j])@ == e implies false by {
                if j < vs.len() - 1 {
                    assert(vs.drop_last()[j]@ == e);
                }
            }
        }
    }
}

impl Numbers {
    /// The model of this numeric shape.
    pub open spec fn model(self) -> NumbersV {
        match self {
            Numbers::All => NumbersV::All,
            Numbers::Int => NumbersV::Int,
            Numbers::One(v) => NumbersV::Lits(Set::empty().insert(v as int)),
            Numbers::Many(vs) => NumbersV::Lits(ints_lits(vs@)),
        }
    }
}

impl Strings {
    /// The model of this string shape.
    pub open spec fn model(self) -> StringsV {
        match self {
            Strings::All => StringsV::All,
            Strings::One(s) => StringsV::Lits(Set::empty().insert(s@)),
            Strings::Many(vs) => StringsV::Lits(strs_lits(vs@)),
        }
    }
}

/// The models of a sequence of slots.
pub open spec fn slots_model(s: Seq<S>) -> Seq<SlotV>
    decreases s,
{
    if s.len() == 0 {
        Seq::empty()
    } else {
        slots_model(s.drop_last()).push(s.last().model())
    }
}

/// The models of a sequence of record entries.
pub open spec fn entries_model(s: Seq<(Str, S)>) -> Seq<(Seq<u8>, SlotV)>
    decreases s,
{
    if s.len() == 0 {
        Seq::empty()
    } else {
        entries_model(s.drop_last()).push((s.last().0@, s.last().1.model()))
    }
}

/// The models of a sequence of types.
pub open spec fn types_model(s: Seq<T>) -> Seq<TypeV>
    decreases s,
{
    if s.len() == 0 {
        Seq::empty()
    } else {
        types_model(s.drop_last()).push(s.last().model())
    }
}

/// The map that a sequence of keyed slots stands for; a later entry
/// overrides an earlier one of the same key.
pub open spec fn record_map(es: Seq<(Seq<u8>, SlotV)>) -> Map<Seq<u8>, SlotV>
    decreases es,
{
    if es.len() == 0 {
        Map::empty()
    } else {
        record_map(es.drop_last()).insert(es.last().0, es.last().1)
    }
}

impl S {
    /// The model of this slot; the mark, if any, is erased.
    pub open spec fn model(self) -> SlotV
        decreases self,
    {
        match self {
            S::Just(t) => SlotV { flavor: FlavorV::Just, ty: t.model() },
            S::Var(t) => SlotV { flavor: FlavorV::Var, ty: t.model() },
            S::Const(t) => SlotV { flavor: FlavorV::Const, ty: t.model() },
            S::Currently(t) => SlotV { flavor: FlavorV::Currently, ty: t.model() },
            S::VarOrConst(t, _) => SlotV { flavor: FlavorV::VarOrConst, ty: t.model() },
            S::VarOrCurrently(t, _) => SlotV { flavor: FlavorV::VarOrCurrently, ty: t.model() },
        }
    }

    /// The type inside the slot.
    pub open spec fn ty(self) -> T {
        match self {
            S::Just(t) => t,
            S::Var(t) => t,
            S::Const(t) => t,
            S::Currently(t) => t,
            S::VarOrConst(t, _) => t,
            S::VarOrCurrently(t, _) => t,
        }
    }
}

impl Tables {
    /// The model of this table shape.
    pub open spec fn model(self) -> TablesV
        decreases self,
        via Self::model_decreases
    {
        match self {
            Tables::All => TablesV::All,
            Tables::Empty => TablesV::Empty,
            Tables::Tuple(vs) => TablesV::Tuple(slots_model(vs@)),
            Tables::Record(es) => TablesV::Record(record_map(entries_model(es@))),
            Tables::Array(b) => TablesV::Array(Box::new((*b).model())),
            Tables::Mapping(k, v) => TablesV::Mapping(
                Box::new((*k).model()),
                Box::new((*v).model()),
            ),
        }
    }

    #[via_fn]
    proof fn model_decreases(self) {
        match self {
            Tables::Tuple(vs) => {
                assert(decreases_to!(self => self->Tuple_0));
                assert(decreases_to!(self->Tuple_0 => self->Tuple_0@));
            }
            Tables::Record(es) => {
                assert(decreases_to!(self => self->Record_0));
                assert(decreases_to!(self->Record_0 => self->Record_0@));
            }
            _ => {}
        }
    }
}

impl Function {
    /// The model of this function: its argument and return models.
    pub open spec fn model(self) -> FunctionsV
        decreases self,
        via Self::model_decreases
    {
        FunctionsV::Simple(types_model(self.args@), types_model(self.rets@))
    }

    #[via_fn]
    proof fn model_decreases(self) {
        assert(decreases_to!(self => self.args));
        assert(decreases_to!(self.args => self.args@));
        assert(decreases_to!(self => self.rets));
        assert(decreases_to!(self.rets => self.rets@));
    }
}

impl Functions {
    /// The model of this function shape.
    pub open spec fn model(self) -> FunctionsV
        decreases self,
    {
        match self {
            Functions::All => FunctionsV::All,
            Functions::Simple(f) => f.model(),
        }
    }
}

impl Union {
    /// The model of this union form.
    pub open spec fn model(self) -> UnionV
        decreases self,
    {
        UnionV {
            has_dynamic: self.has_dynamic,
            has_nil: self.has_nil,
            has_true: self.has_true,
            has_false: self.has_false,
            numbers: match self.numbers {
                Some(n) => Some(n.model()),
                None => None,
            },
            strings: match self.strings {
                Some(s) => Some(s.model()),
                None => None,
            },
            tables: match self.tables {
                Some(t) => Some(t.model()),
                None => None,
            },
            functions: match self.functions {
                Some(f) => Some(f.model()),
                None => None,
            },
            tvar: match self.tvar {
                Some(tv) => Some(tv.0 as int),
                None => None,
            },
        }
    }
}

impl T {
    /// The model of this type term.
    pub open spec fn model(self) -> TypeV
        decreases self,
    {
        match self {
            T::Dynamic => TypeV::Dynamic,
            T::Bottom => TypeV::Bottom,
            T::Nil => TypeV::Nil,
            T::Boolean => TypeV::Boolean,
            T::True => TypeV::True,
            T::False => TypeV::False,
            T::Numbers(n) => TypeV::Numbers(n.model()),
            T::Strings(s) => TypeV::Strings(s.model()),
            T::Tables(t) => TypeV::Tables(t.model()),
            T::Functions(f) => TypeV::Functions(f.model()),
            T::TVar(tv) => TypeV::TVar(tv.0 as int),
            T::Builtin(b, t) => TypeV::Builtin(b, Box::new((*t).model())),
            T::Union(u) => TypeV::Union((*u).model()),
        }
    }
}

impl View for T {
    type V = TypeV;

    open spec fn view(&self) -> TypeV {
        (*self).model()
    }
}

impl View for S {
    type V = SlotV;

    open spec fn view(&self) -> SlotV {
        (*self).model()
    }
}

impl View for Tables {
    type V = TablesV;

    open spec fn view(&self) -> TablesV {
        (*self).model()
    }
}

impl View for Numbers {
    type V = NumbersV;

    open spec fn view(&self) -> NumbersV {
        (*self).model()
    }
}

impl View for Strings {
    type V = StringsV;

    open spec fn view(&self) -> StringsV {
        (*self).model()
    }
}

impl View for Functions {
    type V = FunctionsV;

    open spec fn view(&self) -> FunctionsV {
        (*self).model()
    }
}

impl View for Union {
    type V = UnionV;

    open spec fn view(&self) -> UnionV {
        (*self).model()
    }
}

/// The slot models, indexed: `slots_model` keeps length and order.
pub broadcast proof fn lemma_slots_model_index(s: Seq<S>, i: int)
    requires
        0 <= i < s.len(),
    ensures
        slots_model(s).len() == s.len(),
        #[trigger] slots_model(s)[i] == s[i].model(),
    decreases s.len(),
{
    lemma_slots_model_len(s);
    if s.len() > 0 && i < s.len() - 1 {
        lemma_slots_model_index(s.drop_last(), i);
    }
}

/// `slots_model` keeps length.
pub proof fn lemma_slots_model_len(s: Seq<S>)
    ensures
        slots_model(s).len() == s.len(),
    decreases s.len(),
{
    if s.len() > 0 {
        lemma_slots_model_len(s.drop_last());
    }
}

/// The entry models, indexed: `entries_model` keeps length and order.
pub broadcast proof fn lemma_entries_model_index(s: Seq<(Str, S)>, i: int)
    requires
        0 <= i < s.len(),
    ensures
        entries_model(s).len() == s.len(),
        #[trigger] entries_model(s)[i] == (s[i].0@, s[i].1.model()),
    decreases s.len(),
{
    lemma_entries_model_len(s);
    if s.len() > 0 && i < s.len() - 1 {
        lemma_entries_model_index(s.drop_last(), i);
    }
}

/// `entries_model` keeps length.
pub proof fn lemma_entries_model_len(s: Seq<(Str, S)>)
    ensures
        entries_model(s).len() == s.len(),
    decreases s.len(),
{
    if s.len() > 0 {
        lemma_entries_model_len(s.drop_last());
    }
}

/// The type models, indexed: `types_model` keeps length and order.
pub broadcast proof fn lemma_types_model_index(s: Seq<T>, i: int)
    requires
        0 <= i < s.len(),
    ensures
        types_model(s).len() == s.len(),
        #[trigger] types_model(s)[i] == s[i].model(),
    decreases s.len(),
{
    lemma_types_model_len(s);
    if s.len() > 0 && i < s.len() - 1 {
        lemma_types_model_index(s.drop_last(), i);
    }
}

/// `types_model` keeps length.
pub proof fn lemma_types_model_len(s: Seq<T>)
    ensures
        types_model(s).len() == s.len(),
    decreases s.len(),
{
    if s.len() > 0 {
        lemma_types_model_len(s.drop_last());
    }
}

/// What `record_map` contains: exactly the keys of the entries, each
/// mapped to the slot of the key's last entry.
pub proof fn lemma_record_map_contains(es: Seq<(Seq<u8>, SlotV)>, k: Seq<u8>)
    ensures
        record_map(es).contains_key(k) <==> exists|i: int|
            0 <= i < es.len() && #[trigger] es[i].0 == k,
    decreases es.len(),
{
    if es.len() > 0 {
        lemma_record_map_contains(es.drop_last(), k);
        if es.last().0 == k {
            assert(es[es.len() - 1].0 == k);
        } else if record_map(es).contains_key(k) {
            let i = choose|i: int| 0 <= i < es.drop_last().len() && #[trigger] es.drop_last()[i].0 == k;
            assert(es[i].0 == k);
        } else {
            assert forall|i: int| 0 <= i < es.len() && #[trigger] es[i].0 == k implies false by {
                if i < es.len() - 1 {
                    assert(es.drop_last()[i].0 == k);
                }
            }
        }
    }
}

/// In a record with distinct keys, each entry is found under its key.
pub proof fn lemma_record_map_index(es: Seq<(Seq<u8>, SlotV)>, i: int)
    requires
        0 <= i < es.len(),
        forall|a: int, b: int|
            0 <= a < b < es.len() ==> (#[trigger] es[a].0) != (#[trigger] es[b].0),
    ensures
        record_map(es).contains_key(es[i].0),
        record_map(es)[es[i].0] == es[i].1,
    decreases es.len(),
{
    lemma_record_map_contains(es, es[i].0);
    if i == es.len() - 1 {
    } else {
        assert(es.drop_last()[i] == es[i]);
        lemma_record_map_index(es.drop_last(), i);
        assert(es[es.len() - 1].0 != es[i].0);
    }
}

} // verus!
