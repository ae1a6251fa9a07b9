use kailua_core::tag::Tag;

#[test]
fn tag_round_trip_names() {
    for t in [Tag::Require, Tag::Type, Tag::Assert, Tag::AssertNot, Tag::AssertType,
              Tag::GenericPairs, Tag::GlobalEnv, Tag::GlobalEval, Tag::BecomeModule,
              Tag::PackagePath, Tag::PackageCpath, Tag::StringMeta, Tag::MakeClass,
              Tag::_Subtype, Tag::_NoSubtype, Tag::_NoSubtype2] {
        assert_eq!(Tag::from_name(t.name()), Some(t));
    }
    assert_eq!(Tag::from_name("no_such_attribute"), None);
    assert_eq!(Tag::from_name("internal constructible"), None);
}

#[test]
fn tag_classifications() {
    assert!(Tag::Type.scope_local());
    assert!(!Tag::Require.scope_local());
    assert!(Tag::_Subtype.needs_subtype());
    assert!(!Tag::PackagePath.needs_subtype());
    assert!(Tag::Require.needs_subtype());
}
