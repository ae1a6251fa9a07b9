//! The executable join on terms: dynamic eclipses, bottom is the
//! identity, like shapes merge positionally or by key, and unlike
//! members collect into a canonical union.

use vstd::prelude::*;
use crate::algebra::{
    flavor_join, join_rec_val, lemma_int_with_key, lemma_key_with_int, lemma_vut_record,
    lemma_vut_record_empty, lemma_vut_tuple, lemma_vut_tuple_empty, lemma_vut_tuple_len,
    lemma_with_nil, vhas_false, vhas_nil, vhas_true, vfunctions_in, vnumbers_in, vsimplify,
    vslot_nil_ext, vslot_union, vstrings_in, vtables_in, vtvar_in, vunion, vunion_tables,
};
use crate::context::{ctx_extends, lemma_ctx_extends_refl, lemma_ctx_extends_trans, TypeContext};
use crate::lattice::{
    dyn_in_t, false_in_t, from_t_owned, functions_in_t, nil_in_t, numbers_in_t, strings_in_t,
    tables_in_t, true_in_t, tvar_in_t, union_functions, union_numbers, union_strings,
};
use crate::measure::{size_entries, size_s, size_slots, size_t, size_tables};
use crate::model::{entries_model, record_map, slots_model, FlavorV, SlotV, TablesV, TypeV};
use crate::kind::K;
use crate::value::{Mark, S, Str, T, Tables, Union};
use crate::wf::{
    lemma_tvars_ok_mono, tvar_free, tvar_free_tables, tvars_ok, tvars_ok_tables, wf_s, wf_t,
    wf_tables,
};

verus! {

/// A slot flavor without its payload.
#[derive(Clone, Copy, Debug, PartialEq, Eq, Structural)]
enum FKind {
    J,
    V,
    C,
    Cur,
    VC,
    VCur,
}

/// The flavor a kind stands for.
spec fn fk_model(k: FKind) -> FlavorV {
    match k {
        FKind::J => FlavorV::Just,
        FKind::V => FlavorV::Var,
        FKind::C => FlavorV::Const,
        FKind::Cur => FlavorV::Currently,
        FKind::VC => FlavorV::VarOrConst,
        FKind::VCur => FlavorV::VarOrCurrently,
    }
}

/// Takes a slot apart into its flavor kind, type, and mark.
fn split_s(s: S) -> (r: (FKind, T, Option<Mark>))
    ensures
        fk_model(r.0) == s@.flavor,
        r.1 == s.ty(),
        r.1@ == s@.ty,
{
    match s {
        S::Just(t) => (FKind::J, t, None),
        S::Var(t) => (FKind::V, t, None),
        S::Const(t) => (FKind::C, t, None),
        S::Currently(t) => (FKind::Cur, t, None),
        S::VarOrConst(t, m) => (FKind::VC, t, Some(m)),
        S::VarOrCurrently(t, m) => (FKind::VCur, t, Some(m)),
    }
}

/// Builds a slot back from its parts.
fn mk_s(k: FKind, t: T, m: Option<Mark>) -> (r: S)
    requires
        (k == FKind::VC || k == FKind::VCur) ==> m is Some,
    ensures
        r@ == (SlotV { flavor: fk_model(k), ty: t@ }),
        wf_t(t) ==> wf_s(r),
{
    match k {
        FKind::J => S::Just(t),
        FKind::V => S::Var(t),
        FKind::C => S::Const(t),
        FKind::Cur => S::Currently(t),
        FKind::VC => match m {
            Some(mk) => S::VarOrConst(t, mk),
            None => S::VarOrConst(t, Mark::any()),
        },
        FKind::VCur => match m {
            Some(mk) => S::VarOrCurrently(t, mk),
            None => S::VarOrCurrently(t, Mark::any()),
        },
    }
}

/// Joins two flavor kinds, as the flavor table gives it.
fn join_fk(a: FKind, b: FKind) -> (r: FKind)
    ensures
        fk_model(r) == flavor_join(fk_model(a), fk_model(b)),
{
    match (a, b) {
        (FKind::J, FKind::J) => FKind::J,
        (FKind::J, FKind::V) => FKind::VC,
        (FKind::V, FKind::J) => FKind::VC,
        (FKind::J, FKind::C) => FKind::C,
        (FKind::C, FKind::J) => FKind::C,
        (FKind::J, FKind::Cur) => FKind::VCur,
        (FKind::Cur, FKind::J) => FKind::VCur,
        (FKind::J, FKind::VC) => FKind::VC,
        (FKind::VC, FKind::J) => FKind::VC,
        (FKind::J, FKind::VCur) => FKind::VCur,
        (FKind::VCur, FKind::J) => FKind::VCur,
        (FKind::V, FKind::V) => FKind::VC,
        (FKind::V, FKind::C) => FKind::C,
        (FKind::C, FKind::V) => FKind::C,
        (FKind::V, FKind::Cur) => FKind::VCur,
        (FKind::Cur, FKind::V) => FKind::VCur,
        (FKind::V, FKind::VC) => FKind::VC,
        (FKind::VC, FKind::V) => FKind::VC,
        (FKind::V, FKind::VCur) => FKind::VCur,
        (FKind::VCur, FKind::V) => FKind::VCur,
        (FKind::C, FKind::C) => FKind::C,
        (FKind::C, FKind::Cur) => FKind::VC,
        (FKind::Cur, FKind::C) => FKind::VC,
        (FKind::C, FKind::VC) => FKind::VC,
        (FKind::VC, FKind::C) => FKind::VC,
        (FKind::C, FKind::VCur) => FKind::VC,
        (FKind::VCur, FKind::C) => FKind::VC,
        (FKind::Cur, FKind::Cur) => FKind::VCur,
        (FKind::Cur, FKind::VC) => FKind::VC,
        (FKind::VC, FKind::Cur) => FKind::VC,
        (FKind::Cur, FKind::VCur) => FKind::VCur,
        (FKind::VCur, FKind::Cur) => FKind::VCur,
        (FKind::VC, FKind::VC) => FKind::VC,
        (FKind::VC, FKind::VCur) => FKind::VC,
        (FKind::VCur, FKind::VC) => FKind::VC,
        (FKind::VCur, FKind::VCur) => FKind::VCur,
    }
}

impl S {
    /// Joins two slots: the flavors by the table, the types by the
    /// general join; a marked result flavor gets a fresh mark.
    #[verifier::rlimit(100)]
    #[verifier::spinoff_prover]
    pub fn union(self, other: S, ctx: &mut TypeContext) -> (r: S)
        requires
            wf_s(self),
            wf_s(other),
            old(ctx).wf(),
            tvars_ok(self@.ty, old(ctx).model().tvars.len() as int),
            tvars_ok(other@.ty, old(ctx).model().tvars.len() as int),
        ensures
            final(ctx).wf(),
            ctx_extends(final(ctx).model(), old(ctx).model()),
            wf_s(r),
            tvar_free(self@.ty) && tvar_free(other@.ty) ==> r@ == vslot_union(self@, other@),
        decreases size_s(self) + size_s(other),
    {
        let ghost c0 = ctx.model();
        let (ka, ta, _ma) = split_s(self);
        let (kb, tb, _mb) = split_s(other);
        let tu = ta.union(tb, ctx);
        let ghost c1 = ctx.model();
        let rk = join_fk(ka, kb);
        if rk == FKind::VC || rk == FKind::VCur {
            let m = ctx.gen_mark();
            proof {
                assert(ctx_extends(ctx.model(), c1)) by {
                    assert(ctx.model().tvars.subrange(0, c1.tvars.len() as int) =~= c1.tvars);
                    assert(ctx.model().edges.subrange(0, c1.edges.len() as int) =~= c1.edges);
                    assert(ctx.model().marks.subrange(0, c1.marks.len() as int) =~= c1.marks);
                }
                lemma_ctx_extends_trans(c0, c1, ctx.model());
            }
            mk_s(rk, tu, Some(m))
        } else {
            mk_s(rk, tu, None)
        }
    }
}

/// The slot a missing tuple position or record key contributes: the
/// present slot's type joined with nil, under a fresh `VarOrConst`
/// flavor (a missing key reads as nil and stays writable).
#[verifier::rlimit(100)]
#[verifier::spinoff_prover]
fn nil_ext_slot(s: S, ctx: &mut TypeContext) -> (r: S)
    requires
        wf_s(s),
        old(ctx).wf(),
        tvars_ok(s@.ty, old(ctx).model().tvars.len() as int),
    ensures
        final(ctx).wf(),
        ctx_extends(final(ctx).model(), old(ctx).model()),
        wf_s(r),
        tvar_free(s@.ty) ==> r@ == vslot_nil_ext(s@),
    decreases size_s(s) + 2,
{
    let ghost c0 = ctx.model();
    let (_k, t, _m) = split_s(s);
    let ghost tv = t@;
    let tu = t.union(T::Nil, ctx);
    let ghost c1 = ctx.model();
    let m = ctx.gen_mark();
    proof {
        assert(ctx_extends(ctx.model(), c1)) by {
            assert(ctx.model().tvars.subrange(0, c1.tvars.len() as int) =~= c1.tvars);
            assert(ctx.model().edges.subrange(0, c1.edges.len() as int) =~= c1.edges);
            assert(ctx.model().marks.subrange(0, c1.marks.len() as int) =~= c1.marks);
        }
        lemma_ctx_extends_trans(c0, c1, ctx.model());
        if tvar_free(tv) {
            lemma_with_nil(tv);
        }
    }
    mk_s(FKind::VC, tu, Some(m))
}


/// Joins two slot vectors positionally; a missing position gets the
/// nil extension.
#[verifier::rlimit(100)]
#[verifier::spinoff_prover]
#[verifier::loop_isolation(false)]
fn tuple_join(av: Vec<S>, bv: Vec<S>, ctx: &mut TypeContext) -> (r: Vec<S>)
    requires
        forall|i: int| 0 <= i < av@.len() ==> wf_s(#[trigger] av@[i]),
        forall|i: int| 0 <= i < bv@.len() ==> wf_s(#[trigger] bv@[i]),
        old(ctx).wf(),
        forall|i: int|
            0 <= i < av@.len() ==> tvars_ok(
                (#[trigger] av@[i])@.ty,
                old(ctx).model().tvars.len() as int,
            ),
        forall|i: int|
            0 <= i < bv@.len() ==> tvars_ok(
                (#[trigger] bv@[i])@.ty,
                old(ctx).model().tvars.len() as int,
            ),
    ensures
        final(ctx).wf(),
        ctx_extends(final(ctx).model(), old(ctx).model()),
        r@.len() == if av@.len() >= bv@.len() {
            av@.len()
        } else {
            bv@.len()
        },
        forall|i: int| 0 <= i < r@.len() ==> wf_s(#[trigger] r@[i]),
        (forall|i: int| 0 <= i < av@.len() ==> tvar_free((#[trigger] av@[i])@.ty)) && (forall|
            i: int,
        |
            0 <= i < bv@.len() ==> tvar_free((#[trigger] bv@[i])@.ty)) ==> forall|i: int|
            0 <= i < r@.len() ==> slots_model(r@)[i] == (
            if i < av@.len() && i < bv@.len() {
                vslot_union(av@[i]@, bv@[i]@)
            } else if i < av@.len() {
                vslot_nil_ext(av@[i]@)
            } else {
                vslot_nil_ext(bv@[i]@)
            }),
    decreases size_slots(av@) + size_slots(bv@) + 3,
{
    let ghost c0 = ctx.model();
    let ghost tf = (forall|i: int| 0 <= i < av@.len() ==> tvar_free((#[trigger] av@[i])@.ty)) && (
    forall|i: int| 0 <= i < bv@.len() ==> tvar_free((#[trigger] bv@[i])@.ty));
    let la = av.len();
    let lb = bv.len();
    let n = if la >= lb {
        la
    } else {
        lb
    };
    let mut ru: Vec<S> = Vec::new();
    let mut i: usize = 0;
    proof {
        lemma_ctx_extends_refl(c0);
    }
    while i < n
        invariant
            i <= n,
            ctx.wf(),
            ctx_extends(ctx.model(), c0),
            ru@.len() == i,
            forall|j: int| 0 <= j < ru@.len() ==> wf_s(#[trigger] ru@[j]),
            tf ==> forall|j: int|
                0 <= j < ru@.len() ==> slots_model(ru@)[j] == (
                if j < av@.len() && j < bv@.len() {
                    vslot_union(av@[j]@, bv@[j]@)
                } else if j < av@.len() {
                    vslot_nil_ext(av@[j]@)
                } else {
                    vslot_nil_ext(bv@[j]@)
                }),
        decreases n - i,
    {
        let ghost cprev = ctx.model();
        let ghost ru0 = ru@;
        if i < la {
            proof {
                crate::measure::lemma_size_slots_index(av@, i as int);
                lemma_tvars_ok_mono(
                    av@[i as int]@.ty,
                    c0.tvars.len() as int,
                    ctx.model().tvars.len() as int,
                );
            }
            if i < lb {
                proof {
                    crate::measure::lemma_size_slots_index(bv@, i as int);
                    lemma_tvars_ok_mono(
                        bv@[i as int]@.ty,
                        c0.tvars.len() as int,
                        ctx.model().tvars.len() as int,
                    );
                }
                let sa = av[i].clone();
                let sb = bv[i].clone();
                let su = sa.union(sb, ctx);
                ru.push(su);
            } else {
                let sa = av[i].clone();
                let su = nil_ext_slot(sa, ctx);
                ru.push(su);
            }
        } else {
            proof {
                crate::measure::lemma_size_slots_index(bv@, i as int);
                lemma_tvars_ok_mono(
                    bv@[i as int]@.ty,
                    c0.tvars.len() as int,
                    ctx.model().tvars.len() as int,
                );
            }
            let sb = bv[i].clone();
            let su = nil_ext_slot(sb, ctx);
            ru.push(su);
        }
        proof {
            lemma_ctx_extends_trans(c0, cprev, ctx.model());
            assert(ru@.drop_last() =~= ru0);
            crate::model::lemma_slots_model_len(ru0);
            if tf {
                assert forall|j: int| 0 <= j < ru@.len() implies slots_model(ru@)[j] == (
                if j < av@.len() && j < bv@.len() {
                    vslot_union(av@[j]@, bv@[j]@)
                } else if j < av@.len() {
                    vslot_nil_ext(av@[j]@)
                } else {
                    vslot_nil_ext(bv@[j]@)
                }) by {
                    crate::model::lemma_slots_model_index(ru@, j);
                    if j < ru0.len() {
                        crate::model::lemma_slots_model_index(ru0, j);
                    }
                }
            }
        }
        i = i + 1;
    }
    ru
}

/// Joins two records by key: every left key first (joined with its
/// partner, or nil-extended), then the right-only keys, nil-extended.
#[verifier::rlimit(100)]
#[verifier::spinoff_prover]
fn record_join(xs: Vec<(Str, S)>, ys: Vec<(Str, S)>, ctx: &mut TypeContext) -> (r: Vec<(Str, S)>)
    requires
        forall|a: int, b: int|
            0 <= a < b < xs@.len() ==> (#[trigger] xs@[a].0)@ != (#[trigger] xs@[b].0)@,
        forall|a: int, b: int|
            0 <= a < b < ys@.len() ==> (#[trigger] ys@[a].0)@ != (#[trigger] ys@[b].0)@,
        forall|i: int| 0 <= i < xs@.len() ==> wf_s((#[trigger] xs@[i]).1),
        forall|i: int| 0 <= i < ys@.len() ==> wf_s((#[trigger] ys@[i]).1),
        old(ctx).wf(),
        forall|i: int|
            0 <= i < xs@.len() ==> tvars_ok(
                (#[trigger] xs@[i]).1@.ty,
                old(ctx).model().tvars.len() as int,
            ),
        forall|i: int|
            0 <= i < ys@.len() ==> tvars_ok(
                (#[trigger] ys@[i]).1@.ty,
                old(ctx).model().tvars.len() as int,
            ),
    ensures
        final(ctx).wf(),
        ctx_extends(final(ctx).model(), old(ctx).model()),
        forall|a: int, b: int|
            0 <= a < b < r@.len() ==> (#[trigger] r@[a].0)@ != (#[trigger] r@[b].0)@,
        forall|i: int| 0 <= i < r@.len() ==> wf_s((#[trigger] r@[i]).1),
        forall|k: Seq<u8>|
            record_map(entries_model(r@)).contains_key(k) == (record_map(
                entries_model(xs@),
            ).contains_key(k) || record_map(entries_model(ys@)).contains_key(k)),
        (forall|i: int| 0 <= i < xs@.len() ==> tvar_free((#[trigger] xs@[i]).1@.ty)) && (forall|
            i: int,
        |
            0 <= i < ys@.len() ==> tvar_free((#[trigger] ys@[i]).1@.ty)) ==> forall|k: Seq<u8>|
            (record_map(entries_model(xs@)).contains_key(k) || record_map(
                entries_model(ys@),
            ).contains_key(k)) ==> record_map(entries_model(r@))[k] == join_rec_val(
                record_map(entries_model(xs@)),
                record_map(entries_model(ys@)),
                k,
            ),
    decreases size_entries(xs@) + size_entries(ys@) + 3,
{
    let ghost c0 = ctx.model();
    let ghost ma = record_map(entries_model(xs@));
    let ghost mb = record_map(entries_model(ys@));
    let ghost tf = (forall|i: int| 0 <= i < xs@.len() ==> tvar_free((#[trigger] xs@[i]).1@.ty))
        && (forall|i: int| 0 <= i < ys@.len() ==> tvar_free((#[trigger] ys@[i]).1@.ty));
    let mut ru: Vec<(Str, S)> = Vec::new();
    proof {
        lemma_ctx_extends_refl(c0);
        crate::model::lemma_entries_model_len(xs@);
        crate::model::lemma_entries_model_len(ys@);
    }
    let mut i: usize = 0;
    while i < xs.len()
        invariant
            i <= xs@.len(),
            forall|a: int, b: int|
                0 <= a < b < xs@.len() ==> (#[trigger] xs@[a].0)@ != (#[trigger] xs@[b].0)@,
            forall|a: int, b: int|
                0 <= a < b < ys@.len() ==> (#[trigger] ys@[a].0)@ != (#[trigger] ys@[b].0)@,
            forall|w: int| 0 <= w < xs@.len() ==> wf_s((#[trigger] xs@[w]).1),
            forall|w: int| 0 <= w < ys@.len() ==> wf_s((#[trigger] ys@[w]).1),
            forall|w: int|
                0 <= w < xs@.len() ==> tvars_ok((#[trigger] xs@[w]).1@.ty, c0.tvars.len() as int),
            forall|w: int|
                0 <= w < ys@.len() ==> tvars_ok((#[trigger] ys@[w]).1@.ty, c0.tvars.len() as int),
            tf == ((forall|w: int| 0 <= w < xs@.len() ==> tvar_free((#[trigger] xs@[w]).1@.ty)) && (
            forall|w: int| 0 <= w < ys@.len() ==> tvar_free((#[trigger] ys@[w]).1@.ty))),
            ma == record_map(entries_model(xs@)),
            mb == record_map(entries_model(ys@)),
            ctx.wf(),
            ctx_extends(ctx.model(), c0),
            ru@.len() == i,
            forall|j: int| 0 <= j < i ==> (#[trigger] ru@[j].0)@ == xs@[j].0@,
            forall|j: int| 0 <= j < i ==> wf_s((#[trigger] ru@[j]).1),
            tf ==> forall|j: int|
                0 <= j < i ==> (#[trigger] ru@[j]).1@ == (
                if mb.contains_key(xs@[j].0@) {
                    vslot_union(xs@[j].1@, mb[xs@[j].0@])
                } else {
                    vslot_nil_ext(xs@[j].1@)
                }),
        decreases xs@.len() - i,
    {
        let ghost cprev = ctx.model();
        let key = crate::clone_impls::dup_bytes(&xs[i].0);
        let sa = xs[i].1.clone();
        proof {
            crate::measure::lemma_size_entries_index(xs@, i as int);
            lemma_tvars_ok_mono(sa@.ty, c0.tvars.len() as int, ctx.model().tvars.len() as int);
        }
        let found = crate::eq::record_find(&ys, &xs[i].0);
        let su = match found {
            Some(s) => {
                let sb = s.clone();
                proof {
                    let w = choose|w: int|
                        0 <= w < ys@.len() && (#[trigger] ys@[w]).0@ == xs@[i as int].0@ && ys@[w].1
                            == *s;
                    crate::measure::lemma_size_entries_index(ys@, w);
                    lemma_tvars_ok_mono(
                        sb@.ty,
                        c0.tvars.len() as int,
                        ctx.model().tvars.len() as int,
                    );
                    if tf {
                        assert(tvar_free(ys@[w].1@.ty));
                    }
                }
                sa.union(sb, ctx)
            }
            None => nil_ext_slot(sa, ctx),
        };
        proof {
            lemma_ctx_extends_trans(c0, cprev, ctx.model());
        }
        ru.push((key, su));
        i = i + 1;
    }
    let mut j: usize = 0;
    while j < ys.len()
        invariant
            j <= ys@.len(),
            forall|a: int, b: int|
                0 <= a < b < xs@.len() ==> (#[trigger] xs@[a].0)@ != (#[trigger] xs@[b].0)@,
            forall|a: int, b: int|
                0 <= a < b < ys@.len() ==> (#[trigger] ys@[a].0)@ != (#[trigger] ys@[b].0)@,
            forall|w: int| 0 <= w < ys@.len() ==> wf_s((#[trigger] ys@[w]).1),
            forall|w: int|
                0 <= w < ys@.len() ==> tvars_ok((#[trigger] ys@[w]).1@.ty, c0.tvars.len() as int),
            tf == ((forall|w: int| 0 <= w < xs@.len() ==> tvar_free((#[trigger] xs@[w]).1@.ty)) && (
            forall|w: int| 0 <= w < ys@.len() ==> tvar_free((#[trigger] ys@[w]).1@.ty))),
            ma == record_map(entries_model(xs@)),
            mb == record_map(entries_model(ys@)),
            ctx.wf(),
            ctx_extends(ctx.model(), c0),
            ru@.len() >= xs@.len(),
            forall|jj: int| 0 <= jj < xs@.len() ==> (#[trigger] ru@[jj].0)@ == xs@[jj].0@,
            forall|jj: int| 0 <= jj < ru@.len() ==> wf_s((#[trigger] ru@[jj]).1),
            tf ==> forall|jj: int|
                0 <= jj < xs@.len() ==> (#[trigger] ru@[jj]).1@ == (
                if mb.contains_key(xs@[jj].0@) {
                    vslot_union(xs@[jj].1@, mb[xs@[jj].0@])
                } else {
                    vslot_nil_ext(xs@[jj].1@)
                }),
            forall|jj: int|
                xs@.len() <= jj < ru@.len() ==> mb.contains_key((#[trigger] ru@[jj].0)@)
                    && !ma.contains_key(ru@[jj].0@),
            tf ==> forall|jj: int|
                xs@.len() <= jj < ru@.len() ==> (#[trigger] ru@[jj]).1@ == vslot_nil_ext(
                    mb[ru@[jj].0@],
                ),
            forall|a: int, b: int|
                xs@.len() <= a < b < ru@.len() ==> (#[trigger] ru@[a].0)@ != (#[trigger] ru@[b].0)@,
            forall|w: int|
                0 <= w < j && !ma.contains_key((#[trigger] ys@[w]).0@) ==> exists|jj: int|
                    xs@.len() <= jj < ru@.len() && (#[trigger] ru@[jj].0)@ == ys@[w].0@,
            forall|jj: int|
                xs@.len() <= jj < ru@.len() ==> exists|w: int|
                    0 <= w < j && (#[trigger] ru@[jj].0)@ == ys@[w].0@,
        decreases ys@.len() - j,
    {
        let ghost cprev = ctx.model();
        let ghost ru_pre = ru@;
        let found = crate::eq::record_find(&xs, &ys[j].0);
        match found {
            Some(_s) => {
                proof {
                    assert forall|jj: int|
                        xs@.len() <= jj < ru@.len() implies exists|w: int|
                        0 <= w < j + 1 && (#[trigger] ru@[jj].0)@ == ys@[w].0@ by {
                        let w = choose|w: int|
                            0 <= w < j && (#[trigger] ru@[jj].0)@ == ys@[w].0@;
                        assert(0 <= w < j + 1 && ru@[jj].0@ == ys@[w].0@);
                    }
                }
            }
            None => {
                let key = crate::clone_impls::dup_bytes(&ys[j].0);
                let sb = ys[j].1.clone();
                proof {
                    crate::measure::lemma_size_entries_index(ys@, j as int);
                    lemma_tvars_ok_mono(
                        sb@.ty,
                        c0.tvars.len() as int,
                        ctx.model().tvars.len() as int,
                    );
                }
                let su = nil_ext_slot(sb, ctx);
                proof {
                    lemma_ctx_extends_trans(c0, cprev, ctx.model());
                    crate::model::lemma_entries_model_len(ys@);
                    crate::model::lemma_record_map_contains(entries_model(ys@), ys@[j as int].0@);
                    crate::model::lemma_entries_model_index(ys@, j as int);
                    assert(entries_model(ys@)[j as int].0 == ys@[j as int].0@);
                    assert(mb.contains_key(ys@[j as int].0@));
                    if tf {
                        assert forall|a: int, b: int|
                            0 <= a < b < entries_model(ys@).len() implies (
                        #[trigger] entries_model(ys@)[a]).0 != (
                        #[trigger] entries_model(ys@)[b]).0 by {
                            crate::model::lemma_entries_model_index(ys@, a);
                            crate::model::lemma_entries_model_index(ys@, b);
                        }
                        crate::model::lemma_record_map_index(entries_model(ys@), j as int);
                        assert(entries_model(ys@)[j as int].1 == ys@[j as int].1@);
                        assert(mb[ys@[j as int].0@] == ys@[j as int].1@);
                    }
                }
                ru.push((key, su));
                proof {
                    assert forall|jj: int|
                        xs@.len() <= jj < ru@.len() implies mb.contains_key(
                        (#[trigger] ru@[jj].0)@,
                    ) && !ma.contains_key(ru@[jj].0@) by {
                        if jj < ru_pre.len() {
                            assert(ru@[jj] == ru_pre[jj]);
                        }
                    }
                    assert forall|jj: int|
                        xs@.len() <= jj < ru@.len() implies exists|w: int|
                        0 <= w < j + 1 && (#[trigger] ru@[jj].0)@ == ys@[w].0@ by {
                        if jj < ru_pre.len() {
                            assert(ru@[jj] == ru_pre[jj]);
                            let w = choose|w: int|
                                0 <= w < j && (#[trigger] ru_pre[jj].0)@ == ys@[w].0@;
                            assert(0 <= w < j + 1 && ru@[jj].0@ == ys@[w].0@);
                        } else {
                            assert(ru@[jj].0@ == ys@[j as int].0@);
                        }
                    }
                    assert forall|a: int, b: int|
                        xs@.len() <= a < b < ru@.len() implies (#[trigger] ru@[a].0)@ != (
                    #[trigger] ru@[b].0)@ by {
                        if b < ru_pre.len() {
                            assert(ru@[a] == ru_pre[a]);
                            assert(ru@[b] == ru_pre[b]);
                        } else {
                            assert(ru@[a] == ru_pre[a]);
                            let w = choose|w: int|
                                0 <= w < j && (#[trigger] ru_pre[a].0)@ == ys@[w].0@;
                            assert(ys@[w].0@ != ys@[j as int].0@);
                            assert(ru@[b].0@ == ys@[j as int].0@);
                        }
                    }
                }
            }
        }
        proof {
            assert forall|w: int|
                0 <= w < j + 1 && !ma.contains_key((#[trigger] ys@[w]).0@) implies exists|jj: int|
                xs@.len() <= jj < ru@.len() && (#[trigger] ru@[jj].0)@ == ys@[w].0@ by {
                if w < j {
                    let jj = choose|jj: int|
                        xs@.len() <= jj < ru_pre.len() && (#[trigger] ru_pre[jj].0)@ == ys@[w].0@;
                    assert(ru@[jj] == ru_pre[jj]);
                    assert(xs@.len() <= jj < ru@.len() && ru@[jj].0@ == ys@[w].0@);
                } else {
                    crate::model::lemma_record_map_contains(entries_model(xs@), ys@[w].0@);
                    assert(!record_map(entries_model(xs@)).contains_key(ys@[w].0@));
                    assert(ru@[ru@.len() - 1].0@ == ys@[w].0@);
                }
            }
        }
        j = j + 1;
    }
    proof {
        record_join_result(xs@, ys@, ru@, tf);
    }
    ru
}

/// From the keywise facts the record join's loops establish, derives
/// the map-level statements of its contract.
#[verifier::rlimit(100)]
#[verifier::spinoff_prover]
proof fn record_join_result(xs: Seq<(Str, S)>, ys: Seq<(Str, S)>, ru: Seq<(Str, S)>, tf: bool)
    requires
        forall|a: int, b: int|
            0 <= a < b < xs.len() ==> (#[trigger] xs[a].0)@ != (#[trigger] xs[b].0)@,
        forall|a: int, b: int|
            0 <= a < b < ys.len() ==> (#[trigger] ys[a].0)@ != (#[trigger] ys[b].0)@,
        ru.len() >= xs.len(),
        forall|j: int| 0 <= j < xs.len() ==> (#[trigger] ru[j].0)@ == xs[j].0@,
        tf ==> forall|j: int|
            0 <= j < xs.len() ==> (#[trigger] ru[j]).1@ == (
            if record_map(entries_model(ys)).contains_key(xs[j].0@) {
                vslot_union(xs[j].1@, record_map(entries_model(ys))[xs[j].0@])
            } else {
                vslot_nil_ext(xs[j].1@)
            }),
        forall|jj: int|
            xs.len() <= jj < ru.len() ==> record_map(entries_model(ys)).contains_key(
                (#[trigger] ru[jj].0)@,
            ) && !record_map(entries_model(xs)).contains_key(ru[jj].0@),
        tf ==> forall|jj: int|
            xs.len() <= jj < ru.len() ==> (#[trigger] ru[jj]).1@ == vslot_nil_ext(
                record_map(entries_model(ys))[ru[jj].0@],
            ),
        forall|a: int, b: int|
            xs.len() <= a < b < ru.len() ==> (#[trigger] ru[a].0)@ != (#[trigger] ru[b].0)@,
        forall|w: int|
            0 <= w < ys.len() && !record_map(entries_model(xs)).contains_key(
                (#[trigger] ys[w].0)@,
            ) ==> exists|jj: int| xs.len() <= jj < ru.len() && (#[trigger] ru[jj].0)@ == ys[w].0@,
    ensures
        forall|a: int, b: int|
            0 <= a < b < ru.len() ==> (#[trigger] ru[a].0)@ != (#[trigger] ru[b].0)@,
        forall|k: Seq<u8>|
            record_map(entries_model(ru)).contains_key(k) == (record_map(
                entries_model(xs),
            ).contains_key(k) || record_map(entries_model(ys)).contains_key(k)),
        tf ==> forall|k: Seq<u8>|
            (record_map(entries_model(xs)).contains_key(k) || record_map(
                entries_model(ys),
            ).contains_key(k)) ==> record_map(entries_model(ru))[k] == join_rec_val(
                record_map(entries_model(xs)),
                record_map(entries_model(ys)),
                k,
            ),
{
    let ma = record_map(entries_model(xs));
    let mb = record_map(entries_model(ys));
    let mr = record_map(entries_model(ru));
    crate::model::lemma_entries_model_len(xs);
    crate::model::lemma_entries_model_len(ys);
    crate::model::lemma_entries_model_len(ru);
    assert forall|a: int, b: int|
        0 <= a < b < ru.len() implies (#[trigger] ru[a].0)@ != (#[trigger] ru[b].0)@ by {
        if b < xs.len() {
            assert(xs[a].0@ != xs[b].0@);
        } else if a < xs.len() {
            assert(ru[a].0@ == xs[a].0@);
            crate::model::lemma_record_map_contains(entries_model(xs), ru[a].0@);
            crate::model::lemma_entries_model_index(xs, a);
            assert(entries_model(xs)[a].0 == ru[a].0@);
            assert(ma.contains_key(ru[a].0@));
        }
    }
    assert forall|k: Seq<u8>|
        mr.contains_key(k) == (ma.contains_key(k) || mb.contains_key(k)) by {
        crate::model::lemma_record_map_contains(entries_model(ru), k);
        crate::model::lemma_record_map_contains(entries_model(xs), k);
        crate::model::lemma_record_map_contains(entries_model(ys), k);
        if mr.contains_key(k) {
            let i = choose|i: int|
                0 <= i < entries_model(ru).len() && #[trigger] entries_model(ru)[i].0 == k;
            crate::model::lemma_entries_model_index(ru, i);
            assert(ru[i].0@ == k);
            if i < xs.len() {
                crate::model::lemma_entries_model_index(xs, i);
                assert(entries_model(xs)[i].0 == k);
            } else {
                assert(mb.contains_key(ru[i].0@));
            }
        }
        if ma.contains_key(k) {
            let i = choose|i: int|
                0 <= i < entries_model(xs).len() && #[trigger] entries_model(xs)[i].0 == k;
            crate::model::lemma_entries_model_index(xs, i);
            assert(xs[i].0@ == k);
            crate::model::lemma_entries_model_index(ru, i);
            assert(entries_model(ru)[i].0 == k);
        } else if mb.contains_key(k) {
            let w = choose|w: int|
                0 <= w < entries_model(ys).len() && #[trigger] entries_model(ys)[w].0 == k;
            crate::model::lemma_entries_model_index(ys, w);
            assert(ys[w].0@ == k);
            assert(!ma.contains_key(ys[w].0@));
            let jj = choose|jj: int|
                xs.len() <= jj < ru.len() && (#[trigger] ru[jj].0)@ == ys[w].0@;
            crate::model::lemma_entries_model_index(ru, jj);
            assert(entries_model(ru)[jj].0 == k);
        }
    }
    if tf {
        assert forall|k: Seq<u8>|
            (ma.contains_key(k) || mb.contains_key(k)) implies record_map(entries_model(ru))[k]
            == join_rec_val(ma, mb, k) by {
            assert forall|a: int, b: int|
                0 <= a < b < entries_model(ru).len() implies (#[trigger] entries_model(ru)[a]).0
                != (#[trigger] entries_model(ru)[b]).0 by {
                crate::model::lemma_entries_model_index(ru, a);
                crate::model::lemma_entries_model_index(ru, b);
            }
            if ma.contains_key(k) {
                crate::model::lemma_record_map_contains(entries_model(xs), k);
                let i = choose|i: int|
                    0 <= i < entries_model(xs).len() && #[trigger] entries_model(xs)[i].0 == k;
                crate::model::lemma_entries_model_index(xs, i);
                assert forall|a: int, b: int|
                    0 <= a < b < entries_model(xs).len() implies (#[trigger] entries_model(
                        xs,
                    )[a]).0 != (#[trigger] entries_model(xs)[b]).0 by {
                    crate::model::lemma_entries_model_index(xs, a);
                    crate::model::lemma_entries_model_index(xs, b);
                }
                crate::model::lemma_record_map_index(entries_model(xs), i);
                assert(ma[k] == xs[i].1@);
                crate::model::lemma_entries_model_index(ru, i);
                crate::model::lemma_record_map_index(entries_model(ru), i);
            } else {
                crate::model::lemma_record_map_contains(entries_model(ys), k);
                let w = choose|w: int|
                    0 <= w < entries_model(ys).len() && #[trigger] entries_model(ys)[w].0 == k;
                crate::model::lemma_entries_model_index(ys, w);
                assert forall|a: int, b: int|
                    0 <= a < b < entries_model(ys).len() implies (#[trigger] entries_model(
                        ys,
                    )[a]).0 != (#[trigger] entries_model(ys)[b]).0 by {
                    crate::model::lemma_entries_model_index(ys, a);
                    crate::model::lemma_entries_model_index(ys, b);
                }
                crate::model::lemma_record_map_index(entries_model(ys), w);
                assert(mb[k] == ys[w].1@);
                assert(!ma.contains_key(ys[w].0@));
                let jj = choose|jj: int|
                    xs.len() <= jj < ru.len() && (#[trigger] ru[jj].0)@ == ys[w].0@;
                crate::model::lemma_entries_model_index(ru, jj);
                crate::model::lemma_record_map_index(entries_model(ru), jj);
                assert(ru[jj].1@ == vslot_nil_ext(mb[k]));
            }
        }
    }
}



/// Each slot of a tuple inherits the table-level variable bound.
proof fn tuple_elem_tvars(av: Seq<S>, n: int)
    requires
        tvars_ok_tables(TablesV::Tuple(slots_model(av)), n),
    ensures
        forall|i: int| 0 <= i < av.len() ==> tvars_ok((#[trigger] av[i])@.ty, n),
{
    crate::model::lemma_slots_model_len(av);
    assert forall|i: int| 0 <= i < av.len() implies tvars_ok((#[trigger] av[i])@.ty, n) by {
        crate::model::lemma_slots_model_index(av, i);
        assert(tvars_ok(slots_model(av)[i].ty, n));
    }
}

/// Each entry of a record inherits the table-level variable bound.
proof fn record_elem_tvars(xs: Seq<(Str, S)>, n: int)
    requires
        forall|a: int, b: int|
            0 <= a < b < xs.len() ==> (#[trigger] xs[a].0)@ != (#[trigger] xs[b].0)@,
        tvars_ok_tables(TablesV::Record(record_map(entries_model(xs))), n),
    ensures
        forall|i: int| 0 <= i < xs.len() ==> tvars_ok((#[trigger] xs[i]).1@.ty, n),
{
    crate::model::lemma_entries_model_len(xs);
    assert forall|a: int, b: int|
        0 <= a < b < entries_model(xs).len() implies (#[trigger] entries_model(xs)[a]).0 != (
    #[trigger] entries_model(xs)[b]).0 by {
        crate::model::lemma_entries_model_index(xs, a);
        crate::model::lemma_entries_model_index(xs, b);
    }
    crate::eq::lemma_record_map_card_pub(entries_model(xs));
    let m = record_map(entries_model(xs));
    assert forall|i: int| 0 <= i < xs.len() implies tvars_ok((#[trigger] xs[i]).1@.ty, n) by {
        crate::model::lemma_entries_model_index(xs, i);
        crate::model::lemma_record_map_index(entries_model(xs), i);
        assert(m.contains_key(xs[i].0@));
        assert(tvars_ok(m[xs[i].0@].ty, n));
    }
}

impl Tables {
    /// Joins two table shapes: like shapes merge, arrays and maps
    /// merge with an integer key, other mixed shapes widen to every
    /// table.
    #[verifier::rlimit(100)]
    #[verifier::spinoff_prover]
    pub fn union(self, other: Tables, ctx: &mut TypeContext) -> (r: Tables)
        requires
            wf_tables(self),
            wf_tables(other),
            old(ctx).wf(),
            tvars_ok_tables(self@, old(ctx).model().tvars.len() as int),
            tvars_ok_tables(other@, old(ctx).model().tvars.len() as int),
        ensures
            final(ctx).wf(),
            ctx_extends(final(ctx).model(), old(ctx).model()),
            wf_tables(r),
            tvar_free_tables(self@) && tvar_free_tables(other@) ==> r@ == vunion_tables(
                self@,
                other@,
            ),
        decreases size_tables(self) + size_tables(other),
    {
        let ghost c0 = ctx.model();
        let ghost sv = self@;
        let ghost ov = other@;
        proof {
            lemma_ctx_extends_refl(c0);
        }
        match (self, other) {
            (Tables::All, o) => Tables::All,
            (s, Tables::All) => Tables::All,
            (Tables::Empty, Tables::Empty) => Tables::Empty,
            (Tables::Empty, Tables::Array(b)) => Tables::Array(b),
            (Tables::Array(a), Tables::Empty) => Tables::Array(a),
            (Tables::Empty, Tables::Mapping(k, v)) => Tables::Mapping(k, v),
            (Tables::Mapping(k, v), Tables::Empty) => Tables::Mapping(k, v),
            (Tables::Tuple(av), Tables::Tuple(bv)) => {
                let ghost av0 = av@;
                let ghost bv0 = bv@;
                proof {
                    tuple_elem_tvars(av0, c0.tvars.len() as int);
                    tuple_elem_tvars(bv0, c0.tvars.len() as int);
                }
                let ru = tuple_join(av, bv, ctx);
                proof {
                    tuple_glue(av0, bv0, ru@, sv, ov);
                }
                Tables::Tuple(ru)
            }
            (Tables::Tuple(av), Tables::Empty) => {
                let ghost av0 = av@;
                let bv: Vec<S> = Vec::new();
                let ghost bv0 = bv@;
                proof {
                    tuple_elem_tvars(av0, c0.tvars.len() as int);
                }
                let ru = tuple_join(av, bv, ctx);
                proof {
                    tuple_glue(av0, bv0, ru@, sv, ov);
                }
                Tables::Tuple(ru)
            }
            (Tables::Empty, Tables::Tuple(bv)) => {
                let av: Vec<S> = Vec::new();
                let ghost av0 = av@;
                let ghost bv0 = bv@;
                proof {
                    tuple_elem_tvars(bv0, c0.tvars.len() as int);
                }
                let ru = tuple_join(av, bv, ctx);
                proof {
                    tuple_glue(av0, bv0, ru@, sv, ov);
                }
                Tables::Tuple(ru)
            }
            (Tables::Record(xs), Tables::Record(ys)) => {
                let ghost xs0 = xs@;
                let ghost ys0 = ys@;
                proof {
                    record_elem_tvars(xs0, c0.tvars.len() as int);
                    record_elem_tvars(ys0, c0.tvars.len() as int);
                }
                let ru = record_join(xs, ys, ctx);
                proof {
                    record_glue(xs0, ys0, ru@, sv, ov);
                }
                Tables::Record(ru)
            }
            (Tables::Record(xs), Tables::Empty) => {
                let ghost xs0 = xs@;
                let ys: Vec<(Str, S)> = Vec::new();
                let ghost ys0 = ys@;
                proof {
                    record_elem_tvars(xs0, c0.tvars.len() as int);
                }
                let ru = record_join(xs, ys, ctx);
                proof {
                    record_glue(xs0, ys0, ru@, sv, ov);
                }
                Tables::Record(ru)
            }
            (Tables::Empty, Tables::Record(ys)) => {
                let xs: Vec<(Str, S)> = Vec::new();
                let ghost xs0 = xs@;
                let ghost ys0 = ys@;
                proof {
                    record_elem_tvars(ys0, c0.tvars.len() as int);
                }
                let ru = record_join(xs, ys, ctx);
                proof {
                    record_glue(xs0, ys0, ru@, sv, ov);
                }
                Tables::Record(ru)
            }
            (Tables::Array(a), Tables::Array(b)) => {
                let su = (*a).union(*b, ctx);
                Tables::Array(Box::new(su))
            }
            (Tables::Array(a), Tables::Mapping(k2, v2)) => {
                let ghost k2v = (*k2)@;
                let ku = T::integer().union(*k2, ctx);
                let ghost c1 = ctx.model();
                proof {
                    lemma_tvars_ok_mono((*a)@.ty, c0.tvars.len() as int, c1.tvars.len() as int);
                    lemma_tvars_ok_mono((*v2)@.ty, c0.tvars.len() as int, c1.tvars.len() as int);
                }
                let su = (*a).union(*v2, ctx);
                proof {
                    lemma_ctx_extends_trans(c0, c1, ctx.model());
                    lemma_int_with_key(k2v);
                }
                Tables::Mapping(Box::new(ku), Box::new(su))
            }
            (Tables::Mapping(k1, v1), Tables::Array(b)) => {
                let ghost k1v = (*k1)@;
                let ku = (*k1).union(T::integer(), ctx);
                let ghost c1 = ctx.model();
                proof {
                    lemma_tvars_ok_mono((*v1)@.ty, c0.tvars.len() as int, c1.tvars.len() as int);
                    lemma_tvars_ok_mono((*b)@.ty, c0.tvars.len() as int, c1.tvars.len() as int);
                }
                let su = (*v1).union(*b, ctx);
                proof {
                    lemma_ctx_extends_trans(c0, c1, ctx.model());
                    lemma_key_with_int(k1v);
                }
                Tables::Mapping(Box::new(ku), Box::new(su))
            }
            (Tables::Mapping(k1, v1), Tables::Mapping(k2, v2)) => {
                let ku = (*k1).union(*k2, ctx);
                let ghost c1 = ctx.model();
                proof {
                    lemma_tvars_ok_mono((*v1)@.ty, c0.tvars.len() as int, c1.tvars.len() as int);
                    lemma_tvars_ok_mono((*v2)@.ty, c0.tvars.len() as int, c1.tvars.len() as int);
                }
                let su = (*v1).union(*v2, ctx);
                proof {
                    lemma_ctx_extends_trans(c0, c1, ctx.model());
                }
                Tables::Mapping(Box::new(ku), Box::new(su))
            }
            (s, o) => Tables::All,
        }
    }
}

/// Connects the tuple join's slotwise facts to the joined table model,
/// for tuple-tuple and the two tuple-empty pairs.
#[verifier::rlimit(100)]
#[verifier::spinoff_prover]
proof fn tuple_glue(av: Seq<S>, bv: Seq<S>, ru: Seq<S>, sv: TablesV, ov: TablesV)
    requires
        sv == TablesV::Tuple(slots_model(av)) || (sv == TablesV::Empty && av.len() == 0),
        ov == TablesV::Tuple(slots_model(bv)) || (ov == TablesV::Empty && bv.len() == 0),
        !(sv == TablesV::Empty && ov == TablesV::Empty),
        ru.len() == if av.len() >= bv.len() {
            av.len()
        } else {
            bv.len()
        },
        (forall|i: int| 0 <= i < av.len() ==> tvar_free((#[trigger] av[i])@.ty)) && (forall|i: int|
            0 <= i < bv.len() ==> tvar_free((#[trigger] bv[i])@.ty)) ==> forall|i: int|
            0 <= i < ru.len() ==> slots_model(ru)[i] == (
            if i < av.len() && i < bv.len() {
                vslot_union(av[i]@, bv[i]@)
            } else if i < av.len() {
                vslot_nil_ext(av[i]@)
            } else {
                vslot_nil_ext(bv[i]@)
            }),
    ensures
        tvar_free_tables(sv) && tvar_free_tables(ov) ==> vunion_tables(sv, ov) == TablesV::Tuple(
            slots_model(ru),
        ),
{
    let am = slots_model(av);
    let bm = slots_model(bv);
    crate::model::lemma_slots_model_len(av);
    crate::model::lemma_slots_model_len(bv);
    crate::model::lemma_slots_model_len(ru);
    assert forall|i: int| 0 <= i < av.len() implies am[i] == (#[trigger] av[i])@ by {
        crate::model::lemma_slots_model_index(av, i);
    }
    assert forall|i: int| 0 <= i < bv.len() implies bm[i] == (#[trigger] bv[i])@ by {
        crate::model::lemma_slots_model_index(bv, i);
    }
    if tvar_free_tables(sv) && tvar_free_tables(ov) {
        assert forall|i: int| 0 <= i < av.len() implies tvar_free((#[trigger] av[i])@.ty) by {
            assert(tvar_free(am[i].ty));
        }
        assert forall|i: int| 0 <= i < bv.len() implies tvar_free((#[trigger] bv[i])@.ty) by {
            assert(tvar_free(bm[i].ty));
        }
        let tgt = vunion_tables(sv, ov);
        assert(slots_model(ru) =~= tgt->Tuple_0) by {
            lemma_vut_tuple_len(am, bm);
            if sv is Tuple && ov is Tuple {
                assert forall|i: int| 0 <= i < ru.len() implies slots_model(ru)[i]
                    == tgt->Tuple_0[i] by {
                    lemma_vut_tuple(am, bm, i);
                    if i < av.len() {
                        assert(am[i] == av[i]@);
                    }
                    if i < bv.len() {
                        assert(bm[i] == bv[i]@);
                    }
                }
            } else if sv is Tuple {
                assert forall|i: int| 0 <= i < ru.len() implies slots_model(ru)[i]
                    == tgt->Tuple_0[i] by {
                    lemma_vut_tuple_empty(am, i);
                    assert(am[i] == av[i]@);
                }
            } else {
                assert forall|i: int| 0 <= i < ru.len() implies slots_model(ru)[i]
                    == tgt->Tuple_0[i] by {
                    lemma_vut_tuple_empty(bm, i);
                    assert(bm[i] == bv[i]@);
                }
            }
        }
    }
}

/// Connects the record join's keywise facts to the joined table model,
/// for record-record and the two record-empty pairs.
#[verifier::rlimit(100)]
#[verifier::spinoff_prover]
proof fn record_glue(xs: Seq<(Str, S)>, ys: Seq<(Str, S)>, ru: Seq<(Str, S)>, sv: TablesV, ov: TablesV)
    requires
        sv == TablesV::Record(record_map(entries_model(xs))) || (sv == TablesV::Empty && xs.len()
            == 0),
        ov == TablesV::Record(record_map(entries_model(ys))) || (ov == TablesV::Empty && ys.len()
            == 0),
        !(sv == TablesV::Empty && ov == TablesV::Empty),
        forall|a: int, b: int|
            0 <= a < b < xs.len() ==> (#[trigger] xs[a].0)@ != (#[trigger] xs[b].0)@,
        forall|a: int, b: int|
            0 <= a < b < ys.len() ==> (#[trigger] ys[a].0)@ != (#[trigger] ys[b].0)@,
        forall|k: Seq<u8>|
            record_map(entries_model(ru)).contains_key(k) == (record_map(
                entries_model(xs),
            ).contains_key(k) || record_map(entries_model(ys)).contains_key(k)),
        (forall|i: int| 0 <= i < xs.len() ==> tvar_free((#[trigger] xs[i]).1@.ty)) && (forall|
            i: int,
        |
            0 <= i < ys.len() ==> tvar_free((#[trigger] ys[i]).1@.ty)) ==> forall|k: Seq<u8>|
            (record_map(entries_model(xs)).contains_key(k) || record_map(
                entries_model(ys),
            ).contains_key(k)) ==> record_map(entries_model(ru))[k] == join_rec_val(
                record_map(entries_model(xs)),
                record_map(entries_model(ys)),
                k,
            ),
    ensures
        tvar_free_tables(sv) && tvar_free_tables(ov) ==> vunion_tables(sv, ov) == TablesV::Record(
            record_map(entries_model(ru)),
        ),
{
    let ma = record_map(entries_model(xs));
    let mb = record_map(entries_model(ys));
    crate::model::lemma_entries_model_len(xs);
    crate::model::lemma_entries_model_len(ys);
    assert forall|a: int, b: int|
        0 <= a < b < entries_model(xs).len() implies (#[trigger] entries_model(xs)[a]).0 != (
    #[trigger] entries_model(xs)[b]).0 by {
        crate::model::lemma_entries_model_index(xs, a);
        crate::model::lemma_entries_model_index(xs, b);
    }
    assert forall|a: int, b: int|
        0 <= a < b < entries_model(ys).len() implies (#[trigger] entries_model(ys)[a]).0 != (
    #[trigger] entries_model(ys)[b]).0 by {
        crate::model::lemma_entries_model_index(ys, a);
        crate::model::lemma_entries_model_index(ys, b);
    }
    crate::eq::lemma_record_map_card_pub(entries_model(xs));
    crate::eq::lemma_record_map_card_pub(entries_model(ys));
    if xs.len() == 0 {
        assert(entries_model(xs) =~= Seq::empty());
        assert(ma.dom() =~= Set::empty());
        assert forall|k: Seq<u8>| !ma.contains_key(k) by {}
    }
    if ys.len() == 0 {
        assert(entries_model(ys) =~= Seq::empty());
        assert(mb.dom() =~= Set::empty());
        assert forall|k: Seq<u8>| !mb.contains_key(k) by {}
    }
    if tvar_free_tables(sv) && tvar_free_tables(ov) {
        assert forall|i: int| 0 <= i < xs.len() implies tvar_free((#[trigger] xs[i]).1@.ty) by {
            crate::model::lemma_entries_model_index(xs, i);
            crate::model::lemma_record_map_index(entries_model(xs), i);
            assert(ma.contains_key(xs[i].0@));
            assert(tvar_free(ma[xs[i].0@].ty));
        }
        assert forall|i: int| 0 <= i < ys.len() implies tvar_free((#[trigger] ys[i]).1@.ty) by {
            crate::model::lemma_entries_model_index(ys, i);
            crate::model::lemma_record_map_index(entries_model(ys), i);
            assert(mb.contains_key(ys[i].0@));
            assert(tvar_free(mb[ys[i].0@].ty));
        }
        let tgt = vunion_tables(sv, ov);
        if sv is Record && ov is Record {
            lemma_vut_record(ma, mb, Seq::empty());
            assert(record_map(entries_model(ru)) =~= tgt->Record_0) by {
                assert forall|k: Seq<u8>|
                    record_map(entries_model(ru)).contains_key(k)
                        == tgt->Record_0.contains_key(k) by {
                    lemma_vut_record(ma, mb, k);
                }
                assert forall|k: Seq<u8>|
                    record_map(entries_model(ru)).contains_key(k) implies record_map(
                    entries_model(ru),
                )[k] == tgt->Record_0[k] by {
                    lemma_vut_record(ma, mb, k);
                }
            }
        } else if sv is Record {
            lemma_vut_record_empty(ma, Seq::empty());
            assert(record_map(entries_model(ru)) =~= tgt->Record_0) by {
                assert forall|k: Seq<u8>|
                    record_map(entries_model(ru)).contains_key(k)
                        == tgt->Record_0.contains_key(k) by {
                    lemma_vut_record_empty(ma, k);
                }
                assert forall|k: Seq<u8>|
                    record_map(entries_model(ru)).contains_key(k) implies record_map(
                    entries_model(ru),
                )[k] == tgt->Record_0[k] by {
                    lemma_vut_record_empty(ma, k);
                    assert(join_rec_val(ma, mb, k) == vslot_nil_ext(ma[k]));
                }
            }
        } else {
            lemma_vut_record_empty(mb, Seq::empty());
            assert(record_map(entries_model(ru)) =~= tgt->Record_0) by {
                assert forall|k: Seq<u8>|
                    record_map(entries_model(ru)).contains_key(k)
                        == tgt->Record_0.contains_key(k) by {
                    lemma_vut_record_empty(mb, k);
                }
                assert forall|k: Seq<u8>|
                    record_map(entries_model(ru)).contains_key(k) implies record_map(
                    entries_model(ru),
                )[k] == tgt->Record_0[k] by {
                    lemma_vut_record_empty(mb, k);
                    assert(join_rec_val(ma, mb, k) == vslot_nil_ext(mb[k]));
                }
            }
        }
    }
}


impl T {
    /// The join of two terms: dynamic eclipses, bottom is the
    /// identity, like shapes merge, unlike members collect into a
    /// canonical union.  A pair of type variables joins to a fresh
    /// variable bounded below by both.
    #[verifier::rlimit(100)]
    #[verifier::spinoff_prover]
    pub fn union(self, other: T, ctx: &mut TypeContext) -> (r: T)
        requires
            wf_t(self),
            wf_t(other),
            old(ctx).wf(),
            tvars_ok(self@, old(ctx).model().tvars.len() as int),
            tvars_ok(other@, old(ctx).model().tvars.len() as int),
        ensures
            final(ctx).wf(),
            ctx_extends(final(ctx).model(), old(ctx).model()),
            wf_t(r),
            r is Builtin ==> (self is Builtin && other is Builtin),
            self is TVar && other is TVar ==> r == T::TVar(
                crate::value::TVar(old(ctx).model().tvars.len() as usize),
            ),
            tvar_free(self@) && tvar_free(other@) ==> r@ == vunion(self@, other@),
        decreases size_t(self) + size_t(other),
    {
        let ghost c0 = ctx.model();
        let ghost sv = self@;
        let ghost ov = other@;
        proof {
            lemma_ctx_extends_refl(c0);
        }
        match (self, other) {
            (T::Builtin(ba, x), T::Builtin(bb, y)) => {
                let u = (*x).union(*y, ctx);
                if ba == bb {
                    T::Builtin(ba, Box::new(u))
                } else {
                    u
                }
            }
            (T::Builtin(ba, x), yb) => (*x).union(yb, ctx),
            (xa, T::Builtin(bb, y)) => xa.union(*y, ctx),
            (T::Dynamic, o) => T::Dynamic,
            (s, T::Dynamic) => T::Dynamic,
            (T::Bottom, o) => o,
            (s, T::Bottom) => s,
            (T::Nil, T::Nil) => T::Nil,
            (T::Boolean, T::Boolean) => T::Boolean,
            (T::Boolean, T::True) => T::Boolean,
            (T::Boolean, T::False) => T::Boolean,
            (T::True, T::Boolean) => T::Boolean,
            (T::False, T::Boolean) => T::Boolean,
            (T::True, T::True) => T::True,
            (T::True, T::False) => T::Boolean,
            (T::False, T::True) => T::Boolean,
            (T::False, T::False) => T::False,
            (T::Numbers(n1), T::Numbers(n2)) => T::Numbers(union_numbers(n1, n2)),
            (T::Strings(s1), T::Strings(s2)) => T::Strings(union_strings(s1, s2)),
            (T::Tables(t1), T::Tables(t2)) => T::Tables(t1.union(t2, ctx)),
            (T::Functions(f1), T::Functions(f2)) => T::Functions(union_functions(f1, f2)),
            (T::TVar(a), T::TVar(b)) => {
                let c = ctx.union_tvars(a, b);
                proof {
                    assert(ctx_extends(ctx.model(), c0)) by {
                        assert(ctx.model().tvars.subrange(0, c0.tvars.len() as int) =~= c0.tvars);
                        assert(ctx.model().edges.subrange(0, c0.edges.len() as int) =~= c0.edges);
                        assert(ctx.model().marks.subrange(0, c0.marks.len() as int) =~= c0.marks);
                    }
                }
                T::TVar(c)
            }
            (sa, ob) => {
                let ghost sav = sa@;
                let ghost obv = ob@;
                let res = union_mixed(sa, ob, ctx);
                proof {
                    if tvar_free(sv) && tvar_free(ov) {
                        assert(vunion(sv, ov) == mixed_merge(sav, obv));
                    }
                }
                res
            }
        }
    }
}

/// What the join of two unlike members is at the level of models: the
/// per-family merge of their union forms, canonicalized.
pub open spec fn mixed_merge(a: TypeV, b: TypeV) -> TypeV {
    vsimplify(
        crate::model::UnionV {
            has_dynamic: false,
            has_nil: vhas_nil(a) || vhas_nil(b),
            has_true: vhas_true(a) || vhas_true(b),
            has_false: vhas_false(a) || vhas_false(b),
            numbers: crate::algebra::merge_numbers_opt(vnumbers_in(a), vnumbers_in(b)),
            strings: crate::algebra::merge_strings_opt(vstrings_in(a), vstrings_in(b)),
            tables: match (vtables_in(a), vtables_in(b)) {
                (Some(t1), Some(t2)) => Some(vunion_tables(t1, t2)),
                (Some(t1), None) => Some(t1),
                (None, t) => t,
            },
            functions: crate::algebra::merge_functions_opt(vfunctions_in(a), vfunctions_in(b)),
            tvar: match (vtvar_in(a), vtvar_in(b)) {
                (Some(v1), _) => Some(v1),
                (None, t) => t,
            },
        },
    )
}

/// Joins two unlike terms by collecting their members into a union
/// form and canonicalizing it.
#[verifier::rlimit(100)]
#[verifier::spinoff_prover]
fn union_mixed(sa: T, ob: T, ctx: &mut TypeContext) -> (r: T)
    requires
        wf_t(sa),
        wf_t(ob),
        !(sa is Builtin),
        !(ob is Builtin),
        !(sa is Dynamic),
        !(ob is Dynamic),
        old(ctx).wf(),
        tvars_ok(sa@, old(ctx).model().tvars.len() as int),
        tvars_ok(ob@, old(ctx).model().tvars.len() as int),
    ensures
        final(ctx).wf(),
        ctx_extends(final(ctx).model(), old(ctx).model()),
        wf_t(r),
        !(r is Builtin),
        tvar_free(sa@) && tvar_free(ob@) ==> r@ == mixed_merge(sa@, ob@),
    decreases size_t(sa) + size_t(ob), 0int,
{
    let ghost c0 = ctx.model();
    let ghost sv = sa@;
    let ghost ov = ob@;
    proof {
        lemma_ctx_extends_refl(c0);
    }
            let ghost sag = sa;
            let ghost obg = ob;
            let (ua, _back_a) = from_t_owned(sa);
            let (ub, _back_b) = from_t_owned(ob);
            let numbers = match (ua.numbers, ub.numbers) {
                (Some(n1), Some(n2)) => Some(union_numbers(n1, n2)),
                (Some(n1), None) => Some(n1),
                (None, n2) => n2,
            };
            let strings = match (ua.strings, ub.strings) {
                (Some(s1), Some(s2)) => Some(union_strings(s1, s2)),
                (Some(s1), None) => Some(s1),
                (None, s2) => s2,
            };
            proof {
                members_model(sag);
                members_model(obg);
                member_sizes(sag);
                member_sizes(obg);
                member_tvar_free(sag);
                member_tvar_free(obg);
                member_tvars_ok(sag, c0.tvars.len() as int);
                member_tvars_ok(obg, c0.tvars.len() as int);
            }
            let tables = match (ua.tables, ub.tables) {
                (Some(ta), Some(tb)) => Some(ta.union(tb, ctx)),
                (Some(ta), None) => Some(ta),
                (None, tb) => tb,
            };
            let ghost c1 = ctx.model();
            let functions = match (ua.functions, ub.functions) {
                (Some(f1), Some(f2)) => Some(union_functions(f1, f2)),
                (Some(f1), None) => Some(f1),
                (None, f2) => f2,
            };
            let tvar = match (ua.tvar, ub.tvar) {
                (Some(va), Some(vb)) => {
                    let c = ctx.union_tvars(va, vb);
                    proof {
                        assert(ctx_extends(ctx.model(), c1)) by {
                        assert(ctx.model().tvars.subrange(0, c1.tvars.len() as int)
                            =~= c1.tvars);
                        assert(ctx.model().edges.subrange(0, c1.edges.len() as int)
                            =~= c1.edges);
                        assert(ctx.model().marks.subrange(0, c1.marks.len() as int)
                            =~= c1.marks);
                        }
                        lemma_ctx_extends_trans(c0, c1, ctx.model());
                    }
                    Some(c)
                }
                (Some(va), None) => Some(va),
                (None, vb) => vb,
            };
            let u3 = Union {
                has_dynamic: false,
                has_nil: ua.has_nil || ub.has_nil,
                has_true: ua.has_true || ub.has_true,
                has_false: ua.has_false || ub.has_false,
                numbers,
                strings,
                tables,
                functions,
                tvar,
            };
            u3.simplify()
}

/// The value-level members of an untagged term model the view-level
/// members of its model.
proof fn members_model(t: T)
    requires
        !(t is Builtin),
    ensures
        nil_in_t(t) == vhas_nil(t@),
        true_in_t(t) == vhas_true(t@),
        false_in_t(t) == vhas_false(t@),
        match numbers_in_t(t) {
            Some(n) => vnumbers_in(t@) == Some(n@),
            None => vnumbers_in(t@) is None,
        },
        match strings_in_t(t) {
            Some(s) => vstrings_in(t@) == Some(s@),
            None => vstrings_in(t@) is None,
        },
        match tables_in_t(t) {
            Some(tb) => vtables_in(t@) == Some(tb@),
            None => vtables_in(t@) is None,
        },
        match functions_in_t(t) {
            Some(f) => vfunctions_in(t@) == Some(f@),
            None => vfunctions_in(t@) is None,
        },
        match tvar_in_t(t) {
            Some(v) => vtvar_in(t@) == Some(v.0 as int),
            None => vtvar_in(t@) is None,
        },
{
    match t {
        T::Union(bu) => {
            assert(t@ == TypeV::Union((*bu).model()));
            assert((*bu).model().has_nil == (*bu).has_nil);
            assert((*bu).model().has_true == (*bu).has_true);
            assert((*bu).model().has_false == (*bu).has_false);
        }
        _ => {}
    }
}

/// An untagged term's table member weighs strictly less than the term.
proof fn member_sizes(t: T)
    requires
        !(t is Builtin),
    ensures
        match tables_in_t(t) {
            Some(tb) => size_tables(tb) < size_t(t),
            None => true,
        },
{
    match t {
        T::Union(bu) => {
            match (*bu).tables {
                Some(tb) => {
                    assert(size_t(t) == 1 + crate::measure::size_union(*bu));
                    assert(crate::measure::size_union(*bu) >= 1 + size_tables(tb));
                }
                None => {}
            }
        }
        _ => {}
    }
}

/// A variable-free untagged term has variable-free members.
proof fn member_tvar_free(t: T)
    requires
        !(t is Builtin),
    ensures
        tvar_free(t@) ==> match tables_in_t(t) {
            Some(tb) => tvar_free_tables(tb@),
            None => true,
        },
        tvar_free(t@) ==> tvar_in_t(t) is None,
{
    match t {
        T::Union(bu) => {
            assert(t@ == TypeV::Union((*bu).model()));
            match (*bu).tables {
                Some(tb) => {
                    assert((*bu).model().tables == Some(tb@));
                }
                None => {}
            }
        }
        _ => {}
    }
}

/// An untagged term whose variables are in bound has members whose
/// variables are in bound.
proof fn member_tvars_ok(t: T, n: int)
    requires
        !(t is Builtin),
        tvars_ok(t@, n),
    ensures
        match tables_in_t(t) {
            Some(tb) => tvars_ok_tables(tb@, n),
            None => true,
        },
        match tvar_in_t(t) {
            Some(v) => (v.0 as int) < n,
            None => true,
        },
{
    match t {
        T::Union(bu) => {
            assert(t@ == TypeV::Union((*bu).model()));
            match (*bu).tables {
                Some(tb) => {
                    assert((*bu).model().tables == Some(tb@));
                }
                None => {}
            }
            match (*bu).tvar {
                Some(v) => {
                    assert((*bu).model().tvar == Some(v.0 as int));
                }
                None => {}
            }
        }
        _ => {}
    }
}


/// Whether a model is one of the simple shapes a kind can describe:
/// atoms, numeric and string shapes, the whole table and function
/// families, and unions of those.
pub open spec fn simple_model(v: TypeV) -> bool {
    match v {
        TypeV::Tables(t) => t is All,
        TypeV::Functions(f) => f is All,
        TypeV::TVar(_) => false,
        TypeV::Builtin(_, _) => false,
        TypeV::Union(u) => {
            &&& u.tvar is None
            &&& match u.tables {
                Some(t) => t is All,
                None => true,
            }
            &&& match u.functions {
                Some(f) => f is All,
                None => true,
            }
        },
        _ => true,
    }
}

/// A simple model mentions no type variable.
proof fn lemma_simple_tvar_free(v: TypeV)
    requires
        simple_model(v),
    ensures
        tvar_free(v),
{
    match v {
        TypeV::Tables(t) => {
            assert(tvar_free_tables(t));
        }
        TypeV::Functions(f) => {
            assert(crate::wf::tvar_free_functions(f));
        }
        TypeV::Union(u) => {
            match u.tables {
                Some(t) => {
                    assert(tvar_free_tables(t));
                }
                None => {}
            }
            match u.functions {
                Some(f) => {
                    assert(crate::wf::tvar_free_functions(f));
                }
                None => {}
            }
        }
        _ => {}
    }
}

/// The join of two simple models is simple.
#[verifier::rlimit(100)]
#[verifier::spinoff_prover]
proof fn lemma_vunion_simple(a: TypeV, b: TypeV)
    requires
        simple_model(a),
        simple_model(b),
    ensures
        simple_model(vunion(a, b)),
{
    assert(vunion_tables(TablesV::All, TablesV::All) == TablesV::All);
    match a {
        TypeV::Dynamic => {
            match b {
                    TypeV::Dynamic => {}
                    TypeV::Bottom => {}
                    TypeV::Nil => {}
                    TypeV::Boolean => {}
                    TypeV::True => {}
                    TypeV::False => {}
                    TypeV::Numbers(_) => {}
                    TypeV::Strings(_) => {}
                    TypeV::Tables(_) => {}
                    TypeV::Functions(_) => {}
                    TypeV::Union(_) => {}
                _ => {}
            }
        }
        TypeV::Bottom => {
            match b {
                    TypeV::Dynamic => {}
                    TypeV::Bottom => {}
                    TypeV::Nil => {}
                    TypeV::Boolean => {}
                    TypeV::True => {}
                    TypeV::False => {}
                    TypeV::Numbers(_) => {}
                    TypeV::Strings(_) => {}
                    TypeV::Tables(_) => {}
                    TypeV::Functions(_) => {}
                    TypeV::Union(_) => {}
                _ => {}
            }
        }
        TypeV::Nil => {
            match b {
                    TypeV::Dynamic => {}
                    TypeV::Bottom => {}
                    TypeV::Nil => {}
                    TypeV::Boolean => {}
                    TypeV::True => {}
                    TypeV::False => {}
                    TypeV::Numbers(_) => {}
                    TypeV::Strings(_) => {}
                    TypeV::Tables(_) => {}
                    TypeV::Functions(_) => {}
                    TypeV::Union(_) => {}
                _ => {}
            }
        }
        TypeV::Boolean => {
            match b {
                    TypeV::Dynamic => {}
                    TypeV::Bottom => {}
                    TypeV::Nil => {}
                    TypeV::Boolean => {}
                    TypeV::True => {}
                    TypeV::False => {}
                    TypeV::Numbers(_) => {}
                    TypeV::Strings(_) => {}
                    TypeV::Tables(_) => {}
                    TypeV::Functions(_) => {}
                    TypeV::Union(_) => {}
                _ => {}
            }
        }
        TypeV::True => {
            match b {
                    TypeV::Dynamic => {}
                    TypeV::Bottom => {}
                    TypeV::Nil => {}
                    TypeV::Boolean => {}
                    TypeV::True => {}
                    TypeV::False => {}
                    TypeV::Numbers(_) => {}
                    TypeV::Strings(_) => {}
                    TypeV::Tables(_) => {}
                    TypeV::Functions(_) => {}
                    TypeV::Union(_) => {}
                _ => {}
            }
        }
        TypeV::False => {
            match b {
                    TypeV::Dynamic => {}
                    TypeV::Bottom => {}
                    TypeV::Nil => {}
                    TypeV::Boolean => {}
                    TypeV::True => {}
                    TypeV::False => {}
                    TypeV::Numbers(_) => {}
                    TypeV::Strings(_) => {}
                    TypeV::Tables(_) => {}
                    TypeV::Functions(_) => {}
                    TypeV::Union(_) => {}
                _ => {}
            }
        }
        TypeV::Numbers(_) => {
            match b {
                    TypeV::Dynamic => {}
                    TypeV::Bottom => {}
                    TypeV::Nil => {}
                    TypeV::Boolean => {}
                    TypeV::True => {}
                    TypeV::False => {}
                    TypeV::Numbers(_) => {}
                    TypeV::Strings(_) => {}
                    TypeV::Tables(_) => {}
                    TypeV::Functions(_) => {}
                    TypeV::Union(_) => {}
                _ => {}
            }
        }
        TypeV::Strings(_) => {
            match b {
                    TypeV::Dynamic => {}
                    TypeV::Bottom => {}
                    TypeV::Nil => {}
                    TypeV::Boolean => {}
                    TypeV::True => {}
                    TypeV::False => {}
                    TypeV::Numbers(_) => {}
                    TypeV::Strings(_) => {}
                    TypeV::Tables(_) => {}
                    TypeV::Functions(_) => {}
                    TypeV::Union(_) => {}
                _ => {}
            }
        }
        TypeV::Tables(_) => {
            match b {
                    TypeV::Dynamic => {}
                    TypeV::Bottom => {}
                    TypeV::Nil => {}
                    TypeV::Boolean => {}
                    TypeV::True => {}
                    TypeV::False => {}
                    TypeV::Numbers(_) => {}
                    TypeV::Strings(_) => {}
                    TypeV::Tables(_) => {}
                    TypeV::Functions(_) => {}
                    TypeV::Union(_) => {}
                _ => {}
            }
        }
        TypeV::Functions(_) => {
            match b {
                    TypeV::Dynamic => {}
                    TypeV::Bottom => {}
                    TypeV::Nil => {}
                    TypeV::Boolean => {}
                    TypeV::True => {}
                    TypeV::False => {}
                    TypeV::Numbers(_) => {}
                    TypeV::Strings(_) => {}
                    TypeV::Tables(_) => {}
                    TypeV::Functions(_) => {}
                    TypeV::Union(_) => {}
                _ => {}
            }
        }
        TypeV::Union(_) => {
            match b {
                    TypeV::Dynamic => {}
                    TypeV::Bottom => {}
                    TypeV::Nil => {}
                    TypeV::Boolean => {}
                    TypeV::True => {}
                    TypeV::False => {}
                    TypeV::Numbers(_) => {}
                    TypeV::Strings(_) => {}
                    TypeV::Tables(_) => {}
                    TypeV::Functions(_) => {}
                    TypeV::Union(_) => {}
                _ => {}
            }
        }
        _ => {}
    }
}

/// Converts a kind into a term.  The kinds the parser produces carry
/// no slots or type variables, so the conversion needs no context.
#[verifier::rlimit(100)]
#[verifier::spinoff_prover]
pub fn from_kind(kind: &K) -> (r: T)
    requires
        crate::kind::wf_kind(*kind),
    ensures
        r@ == crate::kind::kind_model(*kind),
        wf_t(r),
        simple_model(r@),
    decreases *kind,
{
    match kind {
        K::Dynamic => T::Dynamic,
        K::Nil => T::Nil,
        K::Boolean => T::Boolean,
        K::BooleanLit(b) => {
            if *b {
                T::True
            } else {
                T::False
            }
        }
        K::Number => T::number(),
        K::Integer => T::integer(),
        K::IntegerLit(v) => T::int_of(*v),
        K::Str => T::string(),
        K::StrLit(s) => T::str_of(crate::clone_impls::dup_bytes(s)),
        K::Table => T::table(),
        K::Function => T::function(),
        K::Union(ks) => {
            let ghost ksv = ks@;
            proof {
                assert(decreases_to!(*kind => kind->Union_0));
                assert(decreases_to!(kind->Union_0 => kind->Union_0@));
                assert(decreases_to!(kind->Union_0@ => kind->Union_0@[0]));
            }
            let mut ctx = TypeContext::new();
            let mut acc = from_kind(&ks[0]);
            proof {
                assert(ksv.subrange(0, 1) =~= seq![ksv[0]]);
                assert(crate::kind::fold_kinds(seq![ksv[0]]) == crate::kind::kind_model(ksv[0]))
                    by {
                    assert(seq![ksv[0]][0] == ksv[0]);
                }
            }
            let mut i: usize = 1;
            while i < ks.len()
                invariant
                    1 <= i <= ks@.len(),
                    ks@ == ksv,
                    *kind == K::Union(*ks),
                    forall|w: int| 0 <= w < ks@.len() ==> crate::kind::wf_kind(#[trigger] ks@[w]),
                    acc@ == crate::kind::fold_kinds(ksv.subrange(0, i as int)),
                    wf_t(acc),
                    simple_model(acc@),
                    ctx.wf(),
                decreases ks@.len() - i,
            {
                proof {
                    assert(decreases_to!(*kind => kind->Union_0));
                    assert(decreases_to!(kind->Union_0 => kind->Union_0@));
                    assert(decreases_to!(kind->Union_0@ => kind->Union_0@[i as int]));
                }
                let nx = from_kind(&ks[i]);
                proof {
                    lemma_simple_tvar_free(acc@);
                    lemma_simple_tvar_free(nx@);
                    crate::wf::lemma_tvar_free_ok(acc@, ctx.model().tvars.len() as int);
                    crate::wf::lemma_tvar_free_ok(nx@, ctx.model().tvars.len() as int);
                    lemma_vunion_simple(acc@, nx@);
                }
                let ghost accv = acc@;
                acc = acc.union(nx, &mut ctx);
                proof {
                    let sub1 = ksv.subrange(0, i as int + 1);
                    assert(sub1.drop_last() =~= ksv.subrange(0, i as int));
                    assert(sub1.last() == ksv[i as int]);
                    assert(sub1.len() > 1);
                    assert(acc@ == crate::kind::fold_kinds(sub1));
                }
                i = i + 1;
            }
            proof {
                assert(ksv.subrange(0, ksv.len() as int) =~= ksv);
            }
            acc
        }
    }
}

} // verus!
