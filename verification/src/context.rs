//! The constraint context: it issues type variables and slot-flavor
//! marks, stores each variable's monotone bounds, and propagates
//! refinements along variable-to-variable edges.

use vstd::prelude::*;
use crate::model::{types_model, TypeV};
use crate::value::{Mark, T, TVar};
use crate::wf::{tvar_free, wf_t};

verus! {

/// One type variable's constraints: the lower bounds asserted so far
/// and the tightest upper bound.
pub struct TvarEntry {
    pub lowers: Vec<T>,
    pub upper: T,
}

/// One mark's state: unresolved, unified with an earlier mark, or
/// fixed to a choice (`true` stands for the writable flavor).
#[derive(Clone, Copy, Debug, PartialEq, Eq, Structural)]
pub enum MarkEntry {
    Free,
    Link(usize),
    Val(bool),
}

/// The model of a mark's state.
pub ghost enum MarkV {
    Free,
    Link(int),
    Val(bool),
}

/// The model of a context: for each variable its lower-bound models
/// and upper-bound model, the subtype edges, and the marks.
pub ghost struct CtxV {
    pub tvars: Seq<(Seq<TypeV>, TypeV)>,
    pub edges: Seq<(int, int)>,
    pub marks: Seq<MarkV>,
}

/// One context model extends another when every issued variable, edge
/// and mark of the old one is still there, unchanged in the variables'
/// case only by what lies beyond the old length.
pub open spec fn ctx_extends(new: CtxV, old: CtxV) -> bool {
    &&& old.tvars.len() <= new.tvars.len()
    &&& new.tvars.subrange(0, old.tvars.len() as int) == old.tvars
    &&& old.edges.len() <= new.edges.len()
    &&& new.edges.subrange(0, old.edges.len() as int) == old.edges
    &&& old.marks.len() <= new.marks.len()
    &&& new.marks.subrange(0, old.marks.len() as int) == old.marks
}

/// Context extension is reflexive.
pub proof fn lemma_ctx_extends_refl(c: CtxV)
    ensures
        ctx_extends(c, c),
{
    assert(c.tvars.subrange(0, c.tvars.len() as int) =~= c.tvars);
    assert(c.edges.subrange(0, c.edges.len() as int) =~= c.edges);
    assert(c.marks.subrange(0, c.marks.len() as int) =~= c.marks);
}

/// Context extension is transitive.
pub proof fn lemma_ctx_extends_trans(a: CtxV, b: CtxV, c: CtxV)
    requires
        ctx_extends(b, a),
        ctx_extends(c, b),
    ensures
        ctx_extends(c, a),
{
    assert(c.tvars.subrange(0, a.tvars.len() as int) =~= a.tvars) by {
        assert forall|i: int| 0 <= i < a.tvars.len() implies c.tvars.subrange(
            0,
            a.tvars.len() as int,
        )[i] == a.tvars[i] by {
            assert(c.tvars.subrange(0, b.tvars.len() as int)[i] == b.tvars[i]);
            assert(b.tvars.subrange(0, a.tvars.len() as int)[i] == a.tvars[i]);
        }
    }
    assert(c.edges.subrange(0, a.edges.len() as int) =~= a.edges) by {
        assert forall|i: int| 0 <= i < a.edges.len() implies c.edges.subrange(
            0,
            a.edges.len() as int,
        )[i] == a.edges[i] by {
            assert(c.edges.subrange(0, b.edges.len() as int)[i] == b.edges[i]);
            assert(b.edges.subrange(0, a.edges.len() as int)[i] == a.edges[i]);
        }
    }
    assert(c.marks.subrange(0, a.marks.len() as int) =~= a.marks) by {
        assert forall|i: int| 0 <= i < a.marks.len() implies c.marks.subrange(
            0,
            a.marks.len() as int,
        )[i] == a.marks[i] by {
            assert(c.marks.subrange(0, b.marks.len() as int)[i] == b.marks[i]);
            assert(b.marks.subrange(0, a.marks.len() as int)[i] == a.marks[i]);
        }
    }
}

/// The root a mark resolves to: links are followed downward until a
/// non-link entry; anything out of range or ill-linked is its own
/// root.
pub open spec fn mark_root(marks: Seq<MarkV>, i: int) -> int
    decreases i,
{
    if 0 <= i < marks.len() {
        match marks[i] {
            MarkV::Link(j) => if 0 <= j < i {
                mark_root(marks, j)
            } else {
                i
            },
            _ => i,
        }
    } else {
        i
    }
}

/// What unifying two marks leaves in the store: nothing when the roots
/// already coincide; otherwise the later root links to the earlier
/// one, which takes the fixed choice if only the later had one.
pub open spec fn mark_eq_result(marks: Seq<MarkV>, a: int, b: int) -> Seq<MarkV> {
    let r1 = mark_root(marks, a);
    let r2 = mark_root(marks, b);
    if r1 == r2 {
        marks
    } else {
        let lo = if r1 < r2 {
            r1
        } else {
            r2
        };
        let hi = if r1 < r2 {
            r2
        } else {
            r1
        };
        if marks[lo] is Free && marks[hi] is Val {
            marks.update(lo, marks[hi]).update(hi, MarkV::Link(lo))
        } else {
            marks.update(hi, MarkV::Link(lo))
        }
    }
}

/// The constraint context.
pub struct TypeContext {
    tvars: Vec<TvarEntry>,
    edges: Vec<(usize, usize)>,
    marks: Vec<MarkEntry>,
}

impl TypeContext {
    /// The model of this context.
    pub closed spec fn model(self) -> CtxV {
        CtxV {
            tvars: Seq::new(
                self.tvars@.len(),
                |i: int|
                    (
                        types_model(self.tvars@[i].lowers@),
                        self.tvars@[i].upper.model(),
                    ),
            ),
            edges: Seq::new(
                self.edges@.len(),
                |i: int| (self.edges@[i].0 as int, self.edges@[i].1 as int),
            ),
            marks: Seq::new(
                self.marks@.len(),
                |i: int|
                    match self.marks@[i] {
                        MarkEntry::Free => MarkV::Free,
                        MarkEntry::Link(j) => MarkV::Link(j as int),
                        MarkEntry::Val(b) => MarkV::Val(b),
                    },
            ),
        }
    }

    /// Well-formedness: every edge and link points at an issued id,
    /// links point strictly backwards, and every stored bound is a
    /// well-formed, variable-free type.
    pub closed spec fn wf(self) -> bool {
        &&& forall|i: int|
            0 <= i < self.edges@.len() ==> (#[trigger] self.edges@[i]).0 < self.tvars@.len()
                && self.edges@[i].1 < self.tvars@.len()
        &&& forall|i: int|
            0 <= i < self.marks@.len() ==> match #[trigger] self.marks@[i] {
                MarkEntry::Link(j) => j < i,
                _ => true,
            }
        &&& forall|i: int|
            0 <= i < self.tvars@.len() ==> wf_t((#[trigger] self.tvars@[i]).upper) && tvar_free(
                self.tvars@[i].upper@,
            )
        &&& forall|i: int, j: int|
            0 <= i < self.tvars@.len() && 0 <= j < self.tvars@[i].lowers@.len() ==> wf_t(
                #[trigger] self.tvars@[i].lowers@[j],
            ) && tvar_free(self.tvars@[i].lowers@[j]@)
    }

    /// A fresh, empty context.
    pub fn new() -> (r: TypeContext)
        ensures
            r.wf(),
            r.model().tvars.len() == 0,
            r.model().edges.len() == 0,
            r.model().marks.len() == 0,
    {
        let r = TypeContext { tvars: Vec::new(), edges: Vec::new(), marks: Vec::new() };
        proof {
            assert(r.model().tvars =~= Seq::empty());
            assert(r.model().edges =~= Seq::empty());
            assert(r.model().marks =~= Seq::empty());
        }
        r
    }

    /// The number of type variables issued so far.
    pub fn tvar_count(&self) -> (r: usize)
        ensures
            r == self.model().tvars.len(),
    {
        self.tvars.len()
    }

    /// Issues a fresh type variable, initially unconstrained: no lower
    /// bounds, the dynamic type above.
    pub fn gen_tvar(&mut self) -> (r: TVar)
        requires
            old(self).wf(),
        ensures
            final(self).wf(),
            r.0 == old(self).model().tvars.len(),
            final(self).model().tvars == old(self).model().tvars.push(
                (Seq::<TypeV>::empty(), TypeV::Dynamic),
            ),
            final(self).model().edges == old(self).model().edges,
            final(self).model().marks == old(self).model().marks,
    {
        let id = self.tvars.len();
        self.tvars.push(TvarEntry { lowers: Vec::new(), upper: T::Dynamic });
        proof {
            assert(final(self).model().tvars =~= old(self).model().tvars.push(
                (Seq::<TypeV>::empty(), TypeV::Dynamic),
            ));
            assert(final(self).model().edges =~= old(self).model().edges);
            assert(final(self).model().marks =~= old(self).model().marks);
        }
        TVar(id)
    }

    /// Issues a fresh, unresolved mark.
    pub fn gen_mark(&mut self) -> (r: Mark)
        requires
            old(self).wf(),
        ensures
            final(self).wf(),
            r.0 == old(self).model().marks.len(),
            final(self).model().marks == old(self).model().marks.push(MarkV::Free),
            final(self).model().tvars == old(self).model().tvars,
            final(self).model().edges == old(self).model().edges,
    {
        let id = self.marks.len();
        self.marks.push(MarkEntry::Free);
        proof {
            assert(final(self).model().marks =~= old(self).model().marks.push(MarkV::Free));
            assert(final(self).model().tvars =~= old(self).model().tvars);
            assert(final(self).model().edges =~= old(self).model().edges);
        }
        Mark(id)
    }

    /// Joins two type variables: a fresh variable above both, linked by
    /// two new edges.
    pub fn union_tvars(&mut self, a: TVar, b: TVar) -> (r: TVar)
        requires
            old(self).wf(),
            a.0 < old(self).model().tvars.len(),
            b.0 < old(self).model().tvars.len(),
        ensures
            final(self).wf(),
            r.0 == old(self).model().tvars.len(),
            final(self).model().tvars == old(self).model().tvars.push(
                (Seq::<TypeV>::empty(), TypeV::Dynamic),
            ),
            final(self).model().edges == old(self).model().edges.push(
                (a.0 as int, r.0 as int),
            ).push((b.0 as int, r.0 as int)),
            final(self).model().marks == old(self).model().marks,
    {
        let id = self.tvars.len();
        self.tvars.push(TvarEntry { lowers: Vec::new(), upper: T::Dynamic });
        self.edges.push((a.0, id));
        self.edges.push((b.0, id));
        proof {
            assert(final(self).model().tvars =~= old(self).model().tvars.push(
                (Seq::<TypeV>::empty(), TypeV::Dynamic),
            ));
            assert(final(self).model().edges =~= old(self).model().edges.push(
                (a.0 as int, id as int),
            ).push((b.0 as int, id as int)));
            assert(final(self).model().marks =~= old(self).model().marks);
        }
        TVar(id)
    }

    /// Follows a mark's links to its root entry.
    fn resolve_mark(&self, m: usize) -> (r: usize)
        requires
            self.wf(),
            m < self.model().marks.len(),
        ensures
            r <= m,
            r < self.model().marks.len(),
            !(self.model().marks[r as int] is Link),
            r as int == mark_root(self.model().marks, m as int),
        decreases m,
    {
        match self.marks[m] {
            MarkEntry::Link(j) => self.resolve_mark(j),
            _ => m,
        }
    }

    /// Requires the mark to resolve to the writable choice: this
    /// succeeds exactly when the mark's root is unresolved or already
    /// fixed writable, and then fixes it.  On failure the context is
    /// left exactly as it was: a failed mark assertion adds nothing.
    pub fn assert_mark_true(&mut self, m: Mark) -> (r: Result<(), ()>)
        requires
            old(self).wf(),
            m.0 < old(self).model().marks.len(),
        ensures
            final(self).wf(),
            final(self).model().tvars == old(self).model().tvars,
            final(self).model().edges == old(self).model().edges,
            r is Ok <==> old(self).model().marks[mark_root(
                old(self).model().marks,
                m.0 as int,
            )] != MarkV::Val(false),
            r is Ok ==> final(self).model().marks == old(self).model().marks.update(
                mark_root(old(self).model().marks, m.0 as int),
                MarkV::Val(true),
            ),
            r is Err ==> *final(self) == *old(self),
    {
        let root = self.resolve_mark(m.0);
        match self.marks[root] {
            MarkEntry::Free => {
                self.marks.set(root, MarkEntry::Val(true));
                proof {
                    assert(final(self).model().tvars =~= old(self).model().tvars);
                    assert(final(self).model().edges =~= old(self).model().edges);
                    assert(final(self).model().marks =~= old(self).model().marks.update(
                        root as int,
                        MarkV::Val(true),
                    ));
                }
                Ok(())
            }
            MarkEntry::Val(true) => {
                proof {
                    assert(final(self).model().marks =~= old(self).model().marks.update(
                        root as int,
                        MarkV::Val(true),
                    ));
                }
                Ok(())
            }
            _ => Err(()),
        }
    }

    /// Requires the mark to resolve to the read-only choice: this
    /// succeeds exactly when the mark's root is unresolved or already
    /// fixed read-only, and then fixes it.  On failure the context is
    /// left exactly as it was.
    pub fn assert_mark_false(&mut self, m: Mark) -> (r: Result<(), ()>)
        requires
            old(self).wf(),
            m.0 < old(self).model().marks.len(),
        ensures
            final(self).wf(),
            final(self).model().tvars == old(self).model().tvars,
            final(self).model().edges == old(self).model().edges,
            r is Ok <==> old(self).model().marks[mark_root(
                old(self).model().marks,
                m.0 as int,
            )] != MarkV::Val(true),
            r is Ok ==> final(self).model().marks == old(self).model().marks.update(
                mark_root(old(self).model().marks, m.0 as int),
                MarkV::Val(false),
            ),
            r is Err ==> *final(self) == *old(self),
    {
        let root = self.resolve_mark(m.0);
        match self.marks[root] {
            MarkEntry::Free => {
                self.marks.set(root, MarkEntry::Val(false));
                proof {
                    assert(final(self).model().tvars =~= old(self).model().tvars);
                    assert(final(self).model().edges =~= old(self).model().edges);
                    assert(final(self).model().marks =~= old(self).model().marks.update(
                        root as int,
                        MarkV::Val(false),
                    ));
                }
                Ok(())
            }
            MarkEntry::Val(false) => {
                proof {
                    assert(final(self).model().marks =~= old(self).model().marks.update(
                        root as int,
                        MarkV::Val(false),
                    ));
                }
                Ok(())
            }
            _ => Err(()),
        }
    }

    /// Unifies two marks: this succeeds exactly when their roots
    /// coincide, either is still unresolved, or both carry the same
    /// choice; it then links the later root to the earlier one, so
    /// later assertions resolve together.  On failure (opposite
    /// choices) the context is left exactly as it was.
    pub fn assert_mark_eq(&mut self, m1: Mark, m2: Mark) -> (r: Result<(), ()>)
        requires
            old(self).wf(),
            m1.0 < old(self).model().marks.len(),
            m2.0 < old(self).model().marks.len(),
        ensures
            final(self).wf(),
            final(self).model().tvars == old(self).model().tvars,
            final(self).model().edges == old(self).model().edges,
            r is Ok <==> ({
                let mk = old(self).model().marks;
                let r1 = mark_root(mk, m1.0 as int);
                let r2 = mark_root(mk, m2.0 as int);
                r1 == r2 || mk[r1] is Free || mk[r2] is Free || mk[r1] == mk[r2]
            }),
            r is Ok ==> final(self).model().marks == mark_eq_result(
                old(self).model().marks,
                m1.0 as int,
                m2.0 as int,
            ),
            r is Err ==> *final(self) == *old(self),
    {
        let ghost mk0 = self.model().marks;
        let r1 = self.resolve_mark(m1.0);
        let r2 = self.resolve_mark(m2.0);
        if r1 == r2 {
            return Ok(());
        }
        let (lo, hi) = if r1 < r2 {
            (r1, r2)
        } else {
            (r2, r1)
        };
        let res = match (self.marks[lo], self.marks[hi]) {
            (MarkEntry::Free, _) => {
                match self.marks[hi] {
                    MarkEntry::Val(b) => {
                        self.marks.set(lo, MarkEntry::Val(b));
                        self.marks.set(hi, MarkEntry::Link(lo));
                        proof {
                            assert(self.model().marks =~= mk0.update(
                                lo as int,
                                MarkV::Val(b),
                            ).update(hi as int, MarkV::Link(lo as int)));
                        }
                        Ok(())
                    }
                    _ => {
                        self.marks.set(hi, MarkEntry::Link(lo));
                        proof {
                            assert(self.model().marks =~= mk0.update(
                                hi as int,
                                MarkV::Link(lo as int),
                            ));
                        }
                        Ok(())
                    }
                }
            }
            (MarkEntry::Val(_), MarkEntry::Free) => {
                self.marks.set(hi, MarkEntry::Link(lo));
                proof {
                    assert(self.model().marks =~= mk0.update(hi as int, MarkV::Link(lo as int)));
                }
                Ok(())
            }
            (MarkEntry::Val(b1), MarkEntry::Val(b2)) => {
                if b1 == b2 {
                    self.marks.set(hi, MarkEntry::Link(lo));
                    proof {
                        assert(self.model().marks =~= mk0.update(
                            hi as int,
                            MarkV::Link(lo as int),
                        ));
                    }
                    Ok(())
                } else {
                    Err(())
                }
            }
            _ => Err(()),
        };
        proof {
            assert(final(self).model().tvars =~= old(self).model().tvars);
            assert(final(self).model().edges =~= old(self).model().edges);
        }
        res
    }
}

} // verus!
