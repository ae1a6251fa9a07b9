//! The type algebra's data: shape types for each primitive family,
//! slots with their mutability flavors, the canonical union form, and
//! the type term `T` itself.

use vstd::prelude::*;
use crate::tag::Tag;

verus! {

/// A byte string of the checked language.
pub type Str = Vec<u8>;

/// A type variable handle, issued by a `TypeContext`.
#[derive(Clone, Copy, Debug, PartialEq, Eq, Structural)]
pub struct TVar(pub usize);

/// A slot-flavor unification variable, issued by a `TypeContext`.  Two
/// slots that differ only in their marks are considered equal.
#[derive(Clone, Copy, Debug)]
pub struct Mark(pub usize);

impl Mark {
    /// A placeholder mark, usable where the mark's identity does not
    /// matter (equality never consults it).
    pub fn any() -> (r: Mark)
        ensures
            r.0 == usize::MAX,
    {
        Mark(usize::MAX)
    }
}

/// The numeric family: every number, every integer, one integer
/// literal, or a finite set of integer literals.
#[derive(Debug)]
pub enum Numbers {
    All,
    Int,
    One(i32),
    Many(Vec<i32>),
}

/// The string family: every string, one literal, or a finite set of
/// literals.
#[derive(Debug)]
pub enum Strings {
    All,
    One(Str),
    Many(Vec<Str>),
}

/// A slot: a cell inside a table shape, wrapping a type with a
/// mutability flavor.
#[derive(Debug)]
pub enum S {
    /// A concrete value.
    Just(T),
    /// A read-write typed cell.
    Var(T),
    /// A read-only typed cell.
    Const(T),
    /// A cell whose type may still be refined by writes.
    Currently(T),
    /// Either `Var` or `Const`; the mark decides later.
    VarOrConst(T, Mark),
    /// Either `Var` or `Currently`; the mark decides later.
    VarOrCurrently(T, Mark),
}

/// The table family: every table, the empty table, or one of four
/// mutually exclusive structured shapes.
#[derive(Debug)]
pub enum Tables {
    All,
    Empty,
    /// Positionally indexed slots.
    Tuple(Vec<S>),
    /// Byte-string keys to slots; the entry order is irrelevant and
    /// the keys are distinct.
    Record(Vec<(Str, S)>),
    /// Keyed by positive integers.
    Array(Box<S>),
    /// Keyed by an arbitrary type.
    Mapping(Box<T>, Box<S>),
}

/// A simple function shape: a parameter list and a return list.
#[derive(Debug)]
pub struct Function {
    pub args: Vec<T>,
    pub rets: Vec<T>,
}

/// The function family: every function or one simple shape.
#[derive(Debug)]
pub enum Functions {
    All,
    Simple(Function),
}

/// The canonical union form: at most one member per primitive family,
/// plus presence bits for nil and the two booleans.
#[derive(Debug)]
pub struct Union {
    pub has_dynamic: bool,
    pub has_nil: bool,
    pub has_true: bool,
    pub has_false: bool,
    pub numbers: Option<Numbers>,
    pub strings: Option<Strings>,
    pub tables: Option<Tables>,
    pub functions: Option<Functions>,
    pub tvar: Option<TVar>,
}

/// A type term.
#[derive(Debug)]
pub enum T {
    /// `?`: eclipses everything in joins, compatible with everything.
    Dynamic,
    /// The bottom type: subtype of everything, identity for joins.
    Bottom,
    Nil,
    Boolean,
    True,
    False,
    Numbers(Numbers),
    Strings(Strings),
    Tables(Tables),
    Functions(Functions),
    TVar(TVar),
    /// A type wrapped with an attribute tag; never nested.
    Builtin(Tag, Box<T>),
    /// A canonical union; used only when a join cannot be a single
    /// family shape.
    Union(Box<Union>),
}

impl T {
    /// The integer type.
    pub fn integer() -> (r: T)
        ensures
            r@ == crate::model::TypeV::Numbers(crate::model::NumbersV::Int),
            crate::wf::wf_t(r),
            crate::wf::tvar_free(r@),
            crate::measure::size_t(r) == 1,
    {
        proof {
            assert(Numbers::Int.model() == crate::model::NumbersV::Int);
        }
        T::Numbers(Numbers::Int)
    }

    /// The number type.
    pub fn number() -> (r: T)
        ensures
            r@ == crate::model::TypeV::Numbers(crate::model::NumbersV::All),
            crate::wf::wf_t(r),
    {
        proof {
            assert(Numbers::All.model() == crate::model::NumbersV::All);
        }
        T::Numbers(Numbers::All)
    }

    /// One integer literal.
    pub fn int_of(v: i32) -> (r: T)
        ensures
            r@ == crate::model::TypeV::Numbers(
                crate::model::NumbersV::Lits(Set::empty().insert(v as int)),
            ),
            crate::wf::wf_t(r),
    {
        proof {
            assert(Numbers::One(v).model() == crate::model::NumbersV::Lits(
                Set::empty().insert(v as int),
            ));
        }
        T::Numbers(Numbers::One(v))
    }

    /// A finite set of integer literals.
    pub fn ints(vs: Vec<i32>) -> (r: T)
        ensures
            r@ == crate::model::TypeV::Numbers(
                crate::model::NumbersV::Lits(crate::model::ints_lits(vs@)),
            ),
            crate::wf::wf_t(r),
    {
        proof {
            assert(Numbers::Many(vs).model() == crate::model::NumbersV::Lits(
                crate::model::ints_lits(vs@),
            ));
        }
        T::Numbers(Numbers::Many(vs))
    }

    /// The string type.
    pub fn string() -> (r: T)
        ensures
            r@ == crate::model::TypeV::Strings(crate::model::StringsV::All),
            crate::wf::wf_t(r),
    {
        proof {
            assert(Strings::All.model() == crate::model::StringsV::All);
        }
        T::Strings(Strings::All)
    }

    /// One string literal.
    pub fn str_of(s: Str) -> (r: T)
        ensures
            r@ == crate::model::TypeV::Strings(
                crate::model::StringsV::Lits(Set::empty().insert(s@)),
            ),
            crate::wf::wf_t(r),
    {
        proof {
            assert(Strings::One(s).model() == crate::model::StringsV::Lits(
                Set::empty().insert(s@),
            ));
        }
        T::Strings(Strings::One(s))
    }

    /// A finite set of string literals.
    pub fn strs(vs: Vec<Str>) -> (r: T)
        ensures
            r@ == crate::model::TypeV::Strings(
                crate::model::StringsV::Lits(crate::model::strs_lits(vs@)),
            ),
            crate::wf::wf_t(r),
    {
        proof {
            assert(Strings::Many(vs).model() == crate::model::StringsV::Lits(
                crate::model::strs_lits(vs@),
            ));
        }
        T::Strings(Strings::Many(vs))
    }

    /// The table type.
    pub fn table() -> (r: T)
        ensures
            r@ == crate::model::TypeV::Tables(crate::model::TablesV::All),
            crate::wf::wf_t(r),
    {
        proof {
            assert(Tables::All.model() == crate::model::TablesV::All);
            assert(crate::wf::wf_tables(Tables::All));
        }
        T::Tables(Tables::All)
    }

    /// The empty table.
    pub fn empty_table() -> (r: T)
        ensures
            r@ == crate::model::TypeV::Tables(crate::model::TablesV::Empty),
            crate::wf::wf_t(r),
    {
        proof {
            assert(Tables::Empty.model() == crate::model::TablesV::Empty);
            assert(crate::wf::wf_tables(Tables::Empty));
        }
        T::Tables(Tables::Empty)
    }

    /// The function type.
    pub fn function() -> (r: T)
        ensures
            r@ == crate::model::TypeV::Functions(crate::model::FunctionsV::All),
            crate::wf::wf_t(r),
    {
        proof {
            assert(Functions::All.model() == crate::model::FunctionsV::All);
            assert(crate::wf::wf_functions(Functions::All));
        }
        T::Functions(Functions::All)
    }

    /// One simple function shape.
    pub fn func(f: Function) -> (r: T)
        ensures
            r@ == crate::model::TypeV::Functions(f.model()),
            crate::wf::wf_functions(Functions::Simple(f)) ==> crate::wf::wf_t(r),
    {
        proof {
            assert(Functions::Simple(f).model() == f.model());
            assert(crate::wf::wf_functions(Functions::Simple(f)) ==> crate::wf::wf_t(
                T::Functions(Functions::Simple(f)),
            ));
        }
        T::Functions(Functions::Simple(f))
    }

    /// A tuple shape from its slots.
    pub fn tuple(vs: Vec<S>) -> (r: T)
        ensures
            r@ == crate::model::TypeV::Tables(
                crate::model::TablesV::Tuple(crate::model::slots_model(vs@)),
            ),
            (forall|i: int| 0 <= i < vs@.len() ==> crate::wf::wf_s(#[trigger] vs@[i]))
                ==> crate::wf::wf_t(r),
    {
        proof {
            assert(Tables::Tuple(vs).model() == crate::model::TablesV::Tuple(
                crate::model::slots_model(vs@),
            ));
            assert((forall|i: int| 0 <= i < vs@.len() ==> crate::wf::wf_s(#[trigger] vs@[i]))
                ==> crate::wf::wf_tables(Tables::Tuple(vs)));
        }
        T::Tables(Tables::Tuple(vs))
    }

    /// A record shape from keyed slots; the keys must be distinct for
    /// the result to be well-formed.
    pub fn record(es: Vec<(Str, S)>) -> (r: T)
        ensures
            r@ == crate::model::TypeV::Tables(
                crate::model::TablesV::Record(
                    crate::model::record_map(crate::model::entries_model(es@)),
                ),
            ),
            ((forall|a: int, b: int|
                0 <= a < b < es@.len() ==> (#[trigger] es@[a].0)@ != (#[trigger] es@[b].0)@)
                && (forall|i: int|
                0 <= i < es@.len() ==> crate::wf::wf_s((#[trigger] es@[i]).1)))
                ==> crate::wf::wf_t(r),
    {
        proof {
            assert(Tables::Record(es).model() == crate::model::TablesV::Record(
                crate::model::record_map(crate::model::entries_model(es@)),
            ));
            assert(((forall|a: int, b: int|
                0 <= a < b < es@.len() ==> (#[trigger] es@[a].0)@ != (#[trigger] es@[b].0)@) && (
            forall|i: int| 0 <= i < es@.len() ==> crate::wf::wf_s((#[trigger] es@[i]).1)))
                ==> crate::wf::wf_tables(Tables::Record(es)));
        }
        T::Tables(Tables::Record(es))
    }

    /// An array shape from its value slot.
    pub fn array(v: S) -> (r: T)
        ensures
            r@ == crate::model::TypeV::Tables(
                crate::model::TablesV::Array(Box::new(v.model())),
            ),
            crate::wf::wf_s(v) ==> crate::wf::wf_t(r),
    {
        proof {
            assert(Tables::Array(Box::new(v)).model() == crate::model::TablesV::Array(
                Box::new(v.model()),
            ));
            assert(crate::wf::wf_s(v) ==> crate::wf::wf_tables(Tables::Array(Box::new(v))));
        }
        T::Tables(Tables::Array(Box::new(v)))
    }

    /// A map shape from its key type and value slot.
    pub fn map(k: T, v: S) -> (r: T)
        ensures
            r@ == crate::model::TypeV::Tables(
                crate::model::TablesV::Mapping(Box::new(k.model()), Box::new(v.model())),
            ),
            crate::wf::wf_t(k) && crate::wf::wf_s(v) ==> crate::wf::wf_t(r),
    {
        proof {
            assert(Tables::Mapping(Box::new(k), Box::new(v)).model()
                == crate::model::TablesV::Mapping(Box::new(k.model()), Box::new(v.model())));
            assert(crate::wf::wf_t(k) && crate::wf::wf_s(v) ==> crate::wf::wf_tables(
                Tables::Mapping(Box::new(k), Box::new(v)),
            ));
        }
        T::Tables(Tables::Mapping(Box::new(k), Box::new(v)))
    }

    /// A copy of this term; the representation is value-semantic, so a
    /// borrowed view is a copy.
    pub fn to_ref(&self) -> (r: T)
        ensures
            r@ == self@,
            crate::wf::wf_t(*self) ==> crate::wf::wf_t(r),
    {
        self.clone()
    }

    /// This term as an owned value; value semantics make this the
    /// identity.
    pub fn into_send(self) -> (r: T)
        ensures
            r == self,
    {
        self
    }

    /// Whether `true` is a member, looking under a tag wrapper.
    pub fn has_true(&self) -> (r: bool)
        ensures
            r == crate::lattice::true_in_t(*self),
        decreases self,
    {
        match self {
            T::Boolean => true,
            T::True => true,
            T::Builtin(_, t) => (**t).has_true(),
            T::Union(u) => u.has_true,
            _ => false,
        }
    }

    /// Whether `false` is a member, looking under a tag wrapper.
    pub fn has_false(&self) -> (r: bool)
        ensures
            r == crate::lattice::false_in_t(*self),
        decreases self,
    {
        match self {
            T::Boolean => true,
            T::False => true,
            T::Builtin(_, t) => (**t).has_false(),
            T::Union(u) => u.has_false,
            _ => false,
        }
    }

    /// The numeric member, if any, looking under a tag wrapper.
    pub fn has_numbers(&self) -> (r: Option<&Numbers>)
        ensures
            match r {
                Some(n) => crate::lattice::numbers_in_t(*self) == Some(*n),
                None => crate::lattice::numbers_in_t(*self) is None,
            },
        decreases self,
    {
        match self {
            T::Numbers(n) => Some(n),
            T::Builtin(_, t) => (**t).has_numbers(),
            T::Union(u) => match &u.numbers {
                Some(n) => Some(n),
                None => None,
            },
            _ => None,
        }
    }

    /// The string member, if any, looking under a tag wrapper.
    pub fn has_strings(&self) -> (r: Option<&Strings>)
        ensures
            match r {
                Some(s) => crate::lattice::strings_in_t(*self) == Some(*s),
                None => crate::lattice::strings_in_t(*self) is None,
            },
        decreases self,
    {
        match self {
            T::Strings(s) => Some(s),
            T::Builtin(_, t) => (**t).has_strings(),
            T::Union(u) => match &u.strings {
                Some(s) => Some(s),
                None => None,
            },
            _ => None,
        }
    }

    /// The table member, if any, looking under a tag wrapper.
    pub fn has_tables(&self) -> (r: Option<&Tables>)
        ensures
            match r {
                Some(t) => crate::lattice::tables_in_t(*self) == Some(*t),
                None => crate::lattice::tables_in_t(*self) is None,
            },
        decreases self,
    {
        match self {
            T::Tables(t) => Some(t),
            T::Builtin(_, t) => (**t).has_tables(),
            T::Union(u) => match &u.tables {
                Some(t) => Some(t),
                None => None,
            },
            _ => None,
        }
    }

    /// The function member, if any, looking under a tag wrapper.
    pub fn has_functions(&self) -> (r: Option<&Functions>)
        ensures
            match r {
                Some(f) => crate::lattice::functions_in_t(*self) == Some(*f),
                None => crate::lattice::functions_in_t(*self) is None,
            },
        decreases self,
    {
        match self {
            T::Functions(f) => Some(f),
            T::Builtin(_, t) => (**t).has_functions(),
            T::Union(u) => match &u.functions {
                Some(f) => Some(f),
                None => None,
            },
            _ => None,
        }
    }

    /// The type-variable member, if any, looking under a tag wrapper.
    pub fn has_tvar(&self) -> (r: Option<TVar>)
        ensures
            r == crate::lattice::tvar_in_t(*self),
        decreases self,
    {
        match self {
            T::TVar(v) => Some(*v),
            T::Builtin(_, t) => (**t).has_tvar(),
            T::Union(u) => u.tvar,
            _ => None,
        }
    }

    /// The tag, when the term is a tagged one.
    pub fn builtin(&self) -> (r: Option<crate::tag::Tag>)
        ensures
            match *self {
                T::Builtin(b, _) => r == Some(b),
                _ => r is None,
            },
    {
        match self {
            T::Builtin(b, _) => Some(*b),
            _ => None,
        }
    }

    /// The term under its tag, if tagged; the term itself otherwise.
    pub fn as_base(&self) -> (r: &T)
        ensures
            match *self {
                T::Builtin(_, t) => *r == *t,
                _ => *r == *self,
            },
    {
        match self {
            T::Builtin(_, t) => &*t,
            _ => self,
        }
    }

    /// Takes the term out of its tag, if tagged.
    pub fn into_base(self) -> (r: T)
        ensures
            match self {
                T::Builtin(_, t) => r == *t,
                _ => r == self,
            },
    {
        match self {
            T::Builtin(_, t) => *t,
            t => t,
        }
    }
}


impl Union {
    /// The family bitset of this union form.
    pub open spec fn spec_flags(self) -> u16 {
        (if self.has_dynamic {
            crate::flags::T_DYNAMIC
        } else {
            0
        }) | (if self.has_nil {
            crate::flags::T_NIL
        } else {
            0
        }) | (if self.has_true {
            crate::flags::T_TRUE
        } else {
            0
        }) | (if self.has_false {
            crate::flags::T_FALSE
        } else {
            0
        }) | (match self.numbers {
            Some(Numbers::All) => crate::flags::T_NUMBER,
            Some(_) => crate::flags::T_INTEGER,
            None => 0,
        }) | (if self.strings is Some {
            crate::flags::T_STRING
        } else {
            0
        }) | (if self.tables is Some {
            crate::flags::T_TABLE
        } else {
            0
        }) | (if self.functions is Some {
            crate::flags::T_FUNCTION
        } else {
            0
        })
    }

    /// The family bitset of this union form.
    pub fn flags(&self) -> (r: crate::flags::Flags)
        ensures
            r.0 == self.spec_flags(),
    {
        let f: u16 = (if self.has_dynamic {
            crate::flags::T_DYNAMIC
        } else {
            0
        }) | (if self.has_nil {
            crate::flags::T_NIL
        } else {
            0
        }) | (if self.has_true {
            crate::flags::T_TRUE
        } else {
            0
        }) | (if self.has_false {
            crate::flags::T_FALSE
        } else {
            0
        }) | (match &self.numbers {
            Some(Numbers::All) => crate::flags::T_NUMBER,
            Some(_) => crate::flags::T_INTEGER,
            None => 0,
        }) | (if self.strings.is_some() {
            crate::flags::T_STRING
        } else {
            0
        }) | (if self.tables.is_some() {
            crate::flags::T_TABLE
        } else {
            0
        }) | (if self.functions.is_some() {
            crate::flags::T_FUNCTION
        } else {
            0
        });
        crate::flags::Flags(f)
    }
}

impl T {
    /// The family bitset of this term: which primitive families it
    /// inhabits.  A tag wrapper is looked under; a bare type variable
    /// inhabits none.
    pub open spec fn spec_flags(self) -> u16
        decreases self,
    {
        match self {
            T::Dynamic => crate::flags::T_DYNAMIC,
            T::Bottom => crate::flags::T_NONE,
            T::Nil => crate::flags::T_NIL,
            T::Boolean => crate::flags::T_BOOLEAN,
            T::True => crate::flags::T_TRUE,
            T::False => crate::flags::T_FALSE,
            T::Numbers(Numbers::All) => crate::flags::T_NUMBER,
            T::Numbers(_) => crate::flags::T_INTEGER,
            T::Strings(_) => crate::flags::T_STRING,
            T::Tables(_) => crate::flags::T_TABLE,
            T::Functions(_) => crate::flags::T_FUNCTION,
            T::TVar(_) => crate::flags::T_NONE,
            T::Builtin(_, t) => (*t).spec_flags(),
            T::Union(u) => (*u).spec_flags(),
        }
    }

    /// The family bitset of this term.
    pub fn flags(&self) -> (r: crate::flags::Flags)
        ensures
            r.0 == self.spec_flags(),
        decreases self,
    {
        match self {
            T::Dynamic => crate::flags::Flags(crate::flags::T_DYNAMIC),
            T::Bottom => crate::flags::Flags(crate::flags::T_NONE),
            T::Nil => crate::flags::Flags(crate::flags::T_NIL),
            T::Boolean => crate::flags::Flags(crate::flags::T_BOOLEAN),
            T::True => crate::flags::Flags(crate::flags::T_TRUE),
            T::False => crate::flags::Flags(crate::flags::T_FALSE),
            T::Numbers(n) => match n {
                Numbers::All => crate::flags::Flags(crate::flags::T_NUMBER),
                _ => crate::flags::Flags(crate::flags::T_INTEGER),
            },
            T::Strings(_) => crate::flags::Flags(crate::flags::T_STRING),
            T::Tables(_) => crate::flags::Flags(crate::flags::T_TABLE),
            T::Functions(_) => crate::flags::Flags(crate::flags::T_FUNCTION),
            T::TVar(_) => crate::flags::Flags(crate::flags::T_NONE),
            T::Builtin(_, t) => (**t).flags(),
            T::Union(u) => (*u).flags(),
        }
    }

    /// Whether every value of this term is dynamic.
    pub fn is_dynamic(&self) -> (r: bool)
        ensures
            r == crate::flags::Flags(self.spec_flags()).spec_is_dynamic(),
    {
        self.flags().is_dynamic()
    }

    /// Whether every value of this term is an integer.
    pub fn is_integral(&self) -> (r: bool)
        ensures
            r == crate::flags::Flags(self.spec_flags()).spec_is_sub_family(
                crate::flags::T_INTEGER,
            ),
    {
        self.flags().is_integral()
    }

    /// Whether every value of this term is a number.
    pub fn is_numeric(&self) -> (r: bool)
        ensures
            r == crate::flags::Flags(self.spec_flags()).spec_is_sub_family(
                crate::flags::T_NUMBER,
            ),
    {
        self.flags().is_numeric()
    }

    /// Whether every value of this term is a string.
    pub fn is_stringy(&self) -> (r: bool)
        ensures
            r == crate::flags::Flags(self.spec_flags()).spec_is_sub_family(
                crate::flags::T_STRING,
            ),
    {
        self.flags().is_stringy()
    }

    /// Whether every value of this term is a table.
    pub fn is_tabular(&self) -> (r: bool)
        ensures
            r == crate::flags::Flags(self.spec_flags()).spec_is_sub_family(crate::flags::T_TABLE),
    {
        self.flags().is_tabular()
    }

    /// Whether every value of this term is callable.
    pub fn is_callable(&self) -> (r: bool)
        ensures
            r == crate::flags::Flags(self.spec_flags()).spec_is_sub_family(
                crate::flags::T_FUNCTION,
            ),
    {
        self.flags().is_callable()
    }

    /// Whether values of this term are reference-like; for now that is
    /// the tables.
    pub fn is_referential(&self) -> (r: bool)
        ensures
            r == crate::flags::Flags(self.spec_flags()).spec_is_sub_family(crate::flags::T_TABLE),
    {
        self.flags().is_tabular()
    }
}

} // verus!
