//! Kinds: the parser-facing descriptions of types, consumed read-only
//! by the checker when a source annotation is turned into a type.

use vstd::prelude::*;
use crate::algebra::vunion;
use crate::model::{NumbersV, StringsV, TablesV, FunctionsV, TypeV};
use crate::value::Str;

verus! {

/// A type description as the parser hands it over.  `Str` describes the
/// whole string family; `StrLit` one literal string.
#[derive(Debug)]
pub enum K {
    Dynamic,
    Nil,
    Boolean,
    BooleanLit(bool),
    Number,
    Integer,
    IntegerLit(i32),
    Str,
    StrLit(Str),
    Table,
    Function,
    Union(Vec<K>),
}

/// Well-formedness of a kind: a union description lists at least one
/// member.
pub open spec fn wf_kind(k: K) -> bool
    decreases k,
    via wf_kind_decreases
{
    match k {
        K::Union(ks) => ks@.len() > 0 && forall|i: int|
            0 <= i < ks@.len() ==> wf_kind(#[trigger] ks@[i]),
        _ => true,
    }
}

#[via_fn]
proof fn wf_kind_decreases(k: K) {
    match k {
        K::Union(ks) => {
            assert(decreases_to!(k => k->Union_0));
            assert(decreases_to!(k->Union_0 => k->Union_0@));
        }
        _ => {}
    }
}

/// The model a single non-union kind describes.
pub open spec fn base_kind_model(k: K) -> TypeV {
    match k {
        K::Dynamic => TypeV::Dynamic,
        K::Nil => TypeV::Nil,
        K::Boolean => TypeV::Boolean,
        K::BooleanLit(b) => if b {
            TypeV::True
        } else {
            TypeV::False
        },
        K::Number => TypeV::Numbers(NumbersV::All),
        K::Integer => TypeV::Numbers(NumbersV::Int),
        K::IntegerLit(v) => TypeV::Numbers(NumbersV::Lits(Set::empty().insert(v as int))),
        K::Str => TypeV::Strings(StringsV::All),
        K::StrLit(s) => TypeV::Strings(StringsV::Lits(Set::empty().insert(s@))),
        K::Table => TypeV::Tables(TablesV::All),
        K::Function => TypeV::Functions(FunctionsV::All),
        K::Union(_) => TypeV::Bottom,
    }
}

/// The model a kind describes: a union description folds its members
/// through the join, left to right.
pub open spec fn kind_model(k: K) -> TypeV
    decreases k, 1int,
    via kind_model_decreases
{
    match k {
        K::Union(ks) => fold_kinds(ks@),
        _ => base_kind_model(k),
    }
}

#[via_fn]
proof fn kind_model_decreases(k: K) {
    match k {
        K::Union(ks) => {
            assert(decreases_to!(k => k->Union_0));
            assert(decreases_to!(k->Union_0 => k->Union_0@));
        }
        _ => {}
    }
}

/// The left fold of a member list through the join; an empty list
/// stands for bottom.
pub open spec fn fold_kinds(ks: Seq<K>) -> TypeV
    decreases ks, 0int,
    via fold_kinds_decreases
{
    if ks.len() == 0 {
        TypeV::Bottom
    } else if ks.len() == 1 {
        kind_model(ks[0])
    } else {
        vunion(fold_kinds(ks.drop_last()), kind_model(ks.last()))
    }
}

#[via_fn]
proof fn fold_kinds_decreases(ks: Seq<K>) {
    if ks.len() == 1 {
        assert(decreases_to!(ks => ks[0]));
    } else if ks.len() > 1 {
        assert(decreases_to!(ks => ks[ks.len() - 1]));
    }
}

} // verus!
