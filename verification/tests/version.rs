use aerugo_render::version::Version;

#[test]
fn test_cmp() {
    assert!(Version::version_1_1() > Version::version_1_0());
    assert!(Version::version_1_2() > Version::version_1_0());
    assert!(Version::version_1_1() < Version::version_1_2());
}

#[test]
fn packs_fields_into_the_raw_word() {
    let v = Version { variant: 0, major: 1, minor: 2, patch: 3 };
    assert_eq!(v.to_raw(), (1u32 << 22) | (2u32 << 12) | 3);
    assert_eq!(Version::version_1_0().to_raw(), 1u32 << 22);
}

#[test]
fn unpacks_the_raw_word_into_fields() {
    let raw = (1u32 << 29) | (7u32 << 22) | (11u32 << 12) | 42;
    let v = Version::from_raw(raw);
    assert_eq!(v.variant, 1);
    assert_eq!(v.major, 7);
    assert_eq!(v.minor, 11);
    assert_eq!(v.patch, 42);
    assert_eq!(v.to_raw(), raw);
}

#[test]
fn ordering_is_by_variant_then_major_minor_patch() {
    let a = Version { variant: 0, major: 2, minor: 0, patch: 9 };
    let b = Version { variant: 0, major: 2, minor: 1, patch: 0 };
    assert!(a < b);
    let c = Version { variant: 1, major: 0, minor: 0, patch: 0 };
    assert!(b < c);
    assert_eq!(a.partial_cmp(&a), Some(std::cmp::Ordering::Equal));
}
