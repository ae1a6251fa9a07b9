//! Attribute tags: a closed enumeration of the attributes the checker
//! recognizes on types, with their lookup by name and their two
//! behavioral classifications.

use vstd::prelude::*;
use crate::strutil::str_eq;

verus! {

/// An attribute tag attached to a type.  The underscore-prefixed tags
/// exist only to exercise the subtype classification in tests.
#[derive(Clone, Copy, Debug, PartialEq, Eq, Structural)]
pub enum Tag {
    _Subtype,
    _NoSubtype,
    _NoSubtype2,
    Require,
    Type,
    Assert,
    AssertNot,
    AssertType,
    GenericPairs,
    GlobalEnv,
    GlobalEval,
    BecomeModule,
    PackagePath,
    PackageCpath,
    StringMeta,
    MakeClass,
    Constructible,
    Constructor,
    KailuaGenTvar,
    KailuaAssertTvar,
}

/// The stable short name of each tag, as a character sequence.
pub open spec fn spec_tag_name(t: Tag) -> Seq<char> {
    match t {
        Tag::Require => "require"@,
        Tag::Type => "type"@,
        Tag::Assert => "assert"@,
        Tag::AssertNot => "assert_not"@,
        Tag::AssertType => "assert_type"@,
        Tag::GenericPairs => "generic_pairs"@,
        Tag::GlobalEnv => "genv"@,
        Tag::GlobalEval => "geval"@,
        Tag::BecomeModule => "become_module"@,
        Tag::PackagePath => "package_path"@,
        Tag::PackageCpath => "package_cpath"@,
        Tag::StringMeta => "string_meta"@,
        Tag::MakeClass => "make_class"@,
        Tag::_Subtype => "internal subtype"@,
        Tag::_NoSubtype => "internal no_subtype"@,
        Tag::_NoSubtype2 => "internal no_subtype2"@,
        Tag::Constructible => "internal constructible"@,
        Tag::Constructor => "internal constructor"@,
        Tag::KailuaGenTvar => "internal kailua_gen_tvar"@,
        Tag::KailuaAssertTvar => "internal kailua_assert_tvar"@,
    }
}

/// The tag that a given attribute name denotes, if any.  The two tags
/// that the checker creates internally (`Constructible`, `Constructor`)
/// have no attribute spelling and are never returned.
pub open spec fn spec_tag_from_name(name: Seq<char>) -> Option<Tag> {
    if name == "internal subtype"@ {
        Some(Tag::_Subtype)
    } else if name == "internal no_subtype"@ {
        Some(Tag::_NoSubtype)
    } else if name == "internal no_subtype2"@ {
        Some(Tag::_NoSubtype2)
    } else if name == "require"@ {
        Some(Tag::Require)
    } else if name == "type"@ {
        Some(Tag::Type)
    } else if name == "assert"@ {
        Some(Tag::Assert)
    } else if name == "assert_not"@ {
        Some(Tag::AssertNot)
    } else if name == "assert_type"@ {
        Some(Tag::AssertType)
    } else if name == "generic_pairs"@ {
        Some(Tag::GenericPairs)
    } else if name == "genv"@ {
        Some(Tag::GlobalEnv)
    } else if name == "geval"@ {
        Some(Tag::GlobalEval)
    } else if name == "become_module"@ {
        Some(Tag::BecomeModule)
    } else if name == "package_path"@ {
        Some(Tag::PackagePath)
    } else if name == "package_cpath"@ {
        Some(Tag::PackageCpath)
    } else if name == "string_meta"@ {
        Some(Tag::StringMeta)
    } else if name == "make_class"@ {
        Some(Tag::MakeClass)
    } else if name == "internal kailua_gen_tvar"@ {
        Some(Tag::KailuaGenTvar)
    } else if name == "internal kailua_assert_tvar"@ {
        Some(Tag::KailuaAssertTvar)
    } else {
        None
    }
}

/// Whether the effect of the tag is local to the current lexical scope.
pub open spec fn spec_scope_local(t: Tag) -> bool {
    match t {
        Tag::Type => true,
        Tag::Assert => true,
        Tag::AssertNot => true,
        Tag::AssertType => true,
        Tag::GenericPairs => true,
        Tag::MakeClass => true,
        Tag::Constructible => true,
        Tag::Constructor => true,
        Tag::KailuaGenTvar => true,
        Tag::KailuaAssertTvar => true,
        _ => false,
    }
}

/// Whether two types carrying this tag are interchangeable only under
/// the strict subtype rule.
pub open spec fn spec_needs_subtype(t: Tag) -> bool {
    match t {
        Tag::_Subtype => true,
        Tag::_NoSubtype => false,
        Tag::_NoSubtype2 => false,
        Tag::PackagePath => false,
        Tag::PackageCpath => false,
        Tag::Constructible => false,
        Tag::Constructor => false,
        _ => true,
    }
}

impl Tag {
    /// Parses an attribute name.  An unknown name yields `None`; the
    /// caller is expected to report it as a warning.  The `internal`
    /// spellings are recognized here so that the checker's own test
    /// sources can name them; a front end that takes attributes from
    /// user source is expected to reject `internal` names before
    /// calling this.
    pub fn from_name(name: &str) -> (r: Option<Tag>)
        ensures
            r == spec_tag_from_name(name@),
    {
        if str_eq(name, "internal subtype") {
            Some(Tag::_Subtype)
        } else if str_eq(name, "internal no_subtype") {
            Some(Tag::_NoSubtype)
        } else if str_eq(name, "internal no_subtype2") {
            Some(Tag::_NoSubtype2)
        } else if str_eq(name, "require") {
            Some(Tag::Require)
        } else if str_eq(name, "type") {
            Some(Tag::Type)
        } else if str_eq(name, "assert") {
            Some(Tag::Assert)
        } else if str_eq(name, "assert_not") {
            Some(Tag::AssertNot)
        } else if str_eq(name, "assert_type") {
            Some(Tag::AssertType)
        } else if str_eq(name, "generic_pairs") {
            Some(Tag::GenericPairs)
        } else if str_eq(name, "genv") {
            Some(Tag::GlobalEnv)
        } else if str_eq(name, "geval") {
            Some(Tag::GlobalEval)
        } else if str_eq(name, "become_module") {
            Some(Tag::BecomeModule)
        } else if str_eq(name, "package_path") {
            Some(Tag::PackagePath)
        } else if str_eq(name, "package_cpath") {
            Some(Tag::PackageCpath)
        } else if str_eq(name, "string_meta") {
            Some(Tag::StringMeta)
        } else if str_eq(name, "make_class") {
            Some(Tag::MakeClass)
        } else if str_eq(name, "internal kailua_gen_tvar") {
            Some(Tag::KailuaGenTvar)
        } else if str_eq(name, "internal kailua_assert_tvar") {
            Some(Tag::KailuaAssertTvar)
        } else {
            None
        }
    }

    /// The stable short name, used for diagnostics and round-tripping.
    pub fn name(&self) -> (r: &'static str)
        ensures
            r@ == spec_tag_name(*self),
    {
        match *self {
            Tag::Require => "require",
            Tag::Type => "type",
            Tag::Assert => "assert",
            Tag::AssertNot => "assert_not",
            Tag::AssertType => "assert_type",
            Tag::GenericPairs => "generic_pairs",
            Tag::GlobalEnv => "genv",
            Tag::GlobalEval => "geval",
            Tag::BecomeModule => "become_module",
            Tag::PackagePath => "package_path",
            Tag::PackageCpath => "package_cpath",
            Tag::StringMeta => "string_meta",
            Tag::MakeClass => "make_class",
            Tag::_Subtype => "internal subtype",
            Tag::_NoSubtype => "internal no_subtype",
            Tag::_NoSubtype2 => "internal no_subtype2",
            Tag::Constructible => "internal constructible",
            Tag::Constructor => "internal constructor",
            Tag::KailuaGenTvar => "internal kailua_gen_tvar",
            Tag::KailuaAssertTvar => "internal kailua_assert_tvar",
        }
    }

    /// Whether the effect of the tag is local to the current lexical
    /// scope; non-scope-local tags have limited ability inside
    /// non-global scopes.
    pub fn scope_local(&self) -> (r: bool)
        ensures
            r == spec_scope_local(*self),
    {
        match *self {
            Tag::Type
            | Tag::Assert
            | Tag::AssertNot
            | Tag::AssertType
            | Tag::GenericPairs
            | Tag::MakeClass
            | Tag::Constructible
            | Tag::Constructor
            | Tag::KailuaGenTvar
            | Tag::KailuaAssertTvar => true,
            _ => false,
        }
    }

    /// Whether this tag needs the strict subtyping rule: a tagged type
    /// cannot be replaced by an untagged one of the same shape.
    pub fn needs_subtype(&self) -> (r: bool)
        ensures
            r == spec_needs_subtype(*self),
    {
        match *self {
            Tag::_Subtype => true,
            Tag::_NoSubtype => false,
            Tag::_NoSubtype2 => false,
            Tag::PackagePath | Tag::PackageCpath | Tag::Constructible | Tag::Constructor => false,
            _ => true,
        }
    }
}

} // verus!
