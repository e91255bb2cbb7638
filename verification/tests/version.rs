use spacetimedb_lib::{VersionTuple, MODULE_ABI_MAJOR_VERSION};

#[test]
fn version_packs_into_one_number() {
    assert_eq!(VersionTuple::new(10, 3).to_u32(), 0x000A_0003);
    assert_eq!(VersionTuple::new(0xFFFF, 0xFFFF).to_u32(), u32::MAX);
    assert_eq!(VersionTuple::new(0, 0).to_u32(), 0);
}

#[test]
fn version_is_read_from_a_number() {
    assert_eq!(VersionTuple::from_u32(0x000A_0003), VersionTuple::new(10, 3));
    assert_eq!(VersionTuple::from_u32(0x000A_01FE), VersionTuple::new(10, 0xFE));
}

#[test]
fn version_comes_back_if_its_minor_fits_a_byte() {
    for major in [0, 1, 10, 0xFFFF] {
        for minor in [0, 1, 0x7F, 0xFF] {
            let version = VersionTuple::new(major, minor);
            assert_eq!(VersionTuple::from_u32(version.to_u32()), version);
        }
    }
    let wide = VersionTuple::new(1, 0x100);
    assert_eq!(VersionTuple::from_u32(wide.to_u32()), VersionTuple::new(1, 0));
}

#[test]
fn number_comes_back_if_its_third_byte_is_zero() {
    assert_eq!(VersionTuple::from_u32(0x1234_0056).to_u32(), 0x1234_0056);
    assert_eq!(VersionTuple::from_u32(0x1234_0156).to_u32(), 0x1234_0056);
}

#[test]
fn support_goes_by_major_and_minor() {
    let host = VersionTuple::new(10, 2);
    assert!(host.supports(VersionTuple::new(10, 2)));
    assert!(host.supports(VersionTuple::new(10, 0)));
    assert!(!host.supports(VersionTuple::new(10, 3)));
    assert!(!host.supports(VersionTuple::new(9, 0)));
    assert!(!host.supports(VersionTuple::new(11, 0)));
}

#[test]
fn of_two_versions_with_one_major_one_supports_the_other() {
    for (a, b) in [(0, 0), (0, 1), (7, 3), (0, u16::MAX)] {
        let (a, b) = (VersionTuple::new(4, a), VersionTuple::new(4, b));
        assert!(a.supports(b) || b.supports(a));
    }
}

#[test]
fn equality_of_versions() {
    let version = VersionTuple::new(10, 2);
    assert!(VersionTuple::eq(version, VersionTuple::new(10, 2)));
    assert!(!VersionTuple::eq(version, VersionTuple::new(10, 3)));
    assert!(!VersionTuple::eq(version, VersionTuple::new(2, 2)));
    assert!(version < VersionTuple::new(10, 3));
}

#[test]
fn version_as_text() {
    assert_eq!(VersionTuple::new(MODULE_ABI_MAJOR_VERSION, 0).to_string(), "10.0");
    assert_eq!(VersionTuple::new(65535, 1234).to_string(), "65535.1234");
}
