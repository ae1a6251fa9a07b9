//! Flags: a small bitset classifying which primitive families a type
//! inhabits (dynamic, nil, the two booleans, integer, number, string,
//! table, function).

use vstd::prelude::*;

verus! {

/// The dynamic bit; a dynamic type also carries every family bit.
pub const T_DYNAMIC_BIT: u16 = 0x0001;

/// No family at all: the bottom type.
pub const T_NONE: u16 = 0x0000;

/// Every bit: the dynamic type inhabits all families.
pub const T_DYNAMIC: u16 = 0x01FF;

/// The nil family.
pub const T_NIL: u16 = 0x0002;

/// The literal `true`.
pub const T_TRUE: u16 = 0x0004;

/// The literal `false`.
pub const T_FALSE: u16 = 0x0008;

/// Both booleans.
pub const T_BOOLEAN: u16 = T_TRUE | T_FALSE;

/// The integers, a subfamily of the numbers.
pub const T_INTEGER: u16 = 0x0010;

/// All numbers, integers included.
pub const T_NUMBER: u16 = T_INTEGER | 0x0020;

/// The strings.
pub const T_STRING: u16 = 0x0040;

/// The tables.
pub const T_TABLE: u16 = 0x0080;

/// The functions.
pub const T_FUNCTION: u16 = 0x0100;

/// The family bitset of a type.
#[derive(Clone, Copy, Debug, PartialEq, Eq, Structural)]
pub struct Flags(pub u16);

impl Flags {
    /// Whether the dynamic bit is set.
    pub open spec fn spec_is_dynamic(self) -> bool {
        self.0 & T_DYNAMIC_BIT != 0
    }

    /// Whether the type is dynamic or inhabits exactly a subset of the
    /// given family, and is inhabited at all.
    pub open spec fn spec_is_sub_family(self, fam: u16) -> bool {
        self.spec_is_dynamic() || (self.0 != 0 && self.0 & !fam == 0)
    }

    /// Whether every value of the type is dynamic.
    pub fn is_dynamic(self) -> (r: bool)
        ensures
            r == self.spec_is_dynamic(),
    {
        self.0 & T_DYNAMIC_BIT != 0
    }

    /// Whether every value of the type is an integer.
    pub fn is_integral(self) -> (r: bool)
        ensures
            r == self.spec_is_sub_family(T_INTEGER),
    {
        self.is_dynamic() || (self.0 != 0 && self.0 & !T_INTEGER == 0)
    }

    /// Whether every value of the type is a number.
    pub fn is_numeric(self) -> (r: bool)
        ensures
            r == self.spec_is_sub_family(T_NUMBER),
    {
        self.is_dynamic() || (self.0 != 0 && self.0 & !T_NUMBER == 0)
    }

    /// Whether every value of the type is a string.
    pub fn is_stringy(self) -> (r: bool)
        ensures
            r == self.spec_is_sub_family(T_STRING),
    {
        self.is_dynamic() || (self.0 != 0 && self.0 & !T_STRING == 0)
    }

    /// Whether every value of the type is a table.
    pub fn is_tabular(self) -> (r: bool)
        ensures
            r == self.spec_is_sub_family(T_TABLE),
    {
        self.is_dynamic() || (self.0 != 0 && self.0 & !T_TABLE == 0)
    }

    /// Whether every value of the type is a function.
    pub fn is_callable(self) -> (r: bool)
        ensures
            r == self.spec_is_sub_family(T_FUNCTION),
    {
        self.is_dynamic() || (self.0 != 0 && self.0 & !T_FUNCTION == 0)
    }

    /// The bitwise union of two flag sets.
    pub fn union(self, other: Flags) -> (r: Flags)
        ensures
            r.0 == self.0 | other.0,
    {
        Flags(self.0 | other.0)
    }
}

} // verus!
