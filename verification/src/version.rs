//! The version of the interface between a host and the modules that it runs.

use vstd::prelude::*;
use vstd::string::*;

use crate::text::push_decimal;

verus! {

pub const MODULE_ABI_MAJOR_VERSION: u16 = 10;

/// A version, by which a host decides whether it can run a module.
#[derive(PartialEq, Eq, PartialOrd, Ord, Copy, Clone, Debug, Structural)]
pub struct VersionTuple {
    /// Breaking change; different major versions are not at all compatible with each other.
    pub major: u16,
    /// Non-breaking change; a host can run a module that requests an older minor version than the
    /// host implements, but not the other way around.
    pub minor: u16,
}

impl VersionTuple {
    /// Whether a host of this version can run a module of version `module_version`.
    pub open spec fn can_run(self, module_version: VersionTuple) -> bool {
        self.major == module_version.major && self.minor >= module_version.minor
    }

    /// The version as one number: the major version above the sixteen bits of the minor one.
    pub open spec fn packed(self) -> int {
        self.major * 0x1_0000 + self.minor
    }

    /// The version read from a number: the major version from the upper sixteen bits, the minor
    /// one from the lowest eight.
    pub open spec fn unpacked(v: u32) -> VersionTuple {
        VersionTuple { major: (v / 0x1_0000) as u16, minor: (v % 0x100) as u16 }
    }

    pub fn new(major: u16, minor: u16) -> (r: Self)
        ensures
            r == (VersionTuple { major, minor }),
    {
        Self { major, minor }
    }

    /// Whether both versions are the same.
    pub fn eq(self, other: Self) -> (r: bool)
        ensures
            r == (self == other),
    {
        self.major == other.major && self.minor == other.minor
    }

    /// Checks if a host implementing this version can run a module that expects `module_version`.
    pub fn supports(self, module_version: VersionTuple) -> (r: bool)
        ensures
            r == self.can_run(module_version),
    {
        self.major == module_version.major && self.minor >= module_version.minor
    }

    pub fn from_u32(v: u32) -> (r: Self)
        ensures
            r == Self::unpacked(v),
    {
        assert(v >> 16 == v / 0x1_0000 && v >> 16 <= 0xFFFF) by (bit_vector);
        assert(v & 0xFF == v % 0x100 && v & 0xFF <= 0xFF) by (bit_vector);
        let major: u16 = (v >> 16) as u16;
        let minor: u16 = (v & 0xFF) as u16;
        Self { major, minor }
    }

    pub fn to_u32(self) -> (r: u32)
        ensures
            r == self.packed(),
    {
        let major: u32 = self.major as u32;
        let minor: u32 = self.minor as u32;
        assert((major << 16 | minor) == major * 0x1_0000 + minor) by (bit_vector)
            requires
                major <= 0xFFFF,
                minor <= 0xFFFF,
        ;
        major << 16 | minor
    }

    /// The version as text: both numbers in decimal notation, with a dot between them.
    pub fn to_string(&self) -> (r: String)
        ensures
            r@ == crate::text::decimal(self.major as nat) + seq!['.'] + crate::text::decimal(
                self.minor as nat,
            ),
    {
        let mut out = String::new();
        push_decimal(&mut out, self.major as u64);
        proof {
            reveal_strlit(".");
        }
        out.append(".");
        assert(out@ =~= crate::text::decimal(self.major as nat) + seq!['.']);
        push_decimal(&mut out, self.minor as u64);
        out
    }
}

/// Reading a packed version gives the version back, as long as its minor version fits in the
/// eight bits that are read.
pub proof fn law_unpacked_of_packed(version: VersionTuple, v: u32)
    requires
        v == version.packed(),
        version.minor < 0x100,
    ensures
        VersionTuple::unpacked(v) == version,
{
}

/// Packing what was read from a number gives the number back exactly when the eight bits between
/// the minor and the major version are zero.
pub proof fn law_packed_of_unpacked(v: u32)
    ensures
        VersionTuple::unpacked(v).packed() == v <==> (v / 0x100) % 0x100 == 0,
{
}

/// Two versions that pack to the same number are the same version.
pub proof fn law_packed_is_injective(a: VersionTuple, b: VersionTuple)
    requires
        a.packed() == b.packed(),
    ensures
        a == b,
{
}

/// A packed version fits in thirty-two bits, so packing never loses anything.
pub proof fn law_packed_fits(version: VersionTuple)
    ensures
        0 <= version.packed() <= u32::MAX,
{
}

/// Every version supports itself, support carries over from one version to the next, and two
/// versions that support each other are the same. Within one major version, of any two versions
/// one supports the other.
pub proof fn law_support_is_an_order(a: VersionTuple, b: VersionTuple, c: VersionTuple)
    ensures
        a.can_run(a),
        a.can_run(b) && b.can_run(c) ==> a.can_run(c),
        a.can_run(b) && b.can_run(a) ==> a == b,
        a.major == b.major ==> a.can_run(b) || b.can_run(a),
{
}

/// Different major versions are not compatible in either direction; with the same major version
/// the newer one runs the older one, and not the other way around.
pub proof fn law_major_decides_compatibility(a: VersionTuple, b: VersionTuple)
    ensures
        a.major != b.major ==> !a.can_run(b) && !b.can_run(a),
        a.major == b.major && a.minor > b.minor ==> a.can_run(b) && !b.can_run(a),
{
}

/// Packing counts: the version 0.0 packs to zero, the next minor version to the next number, and
/// the next major version to the number that lies as far ahead as there are minor versions.
pub proof fn law_packing_counts_versions(version: VersionTuple)
    ensures
        version.major == 0 && version.minor == 0 ==> version.packed() == 0,
        version.minor < u16::MAX ==> (VersionTuple {
            minor: (version.minor + 1) as u16,
            ..version
        }).packed() == version.packed() + 1,
        version.major < u16::MAX ==> (VersionTuple {
            major: (version.major + 1) as u16,
            ..version
        }).packed() == version.packed() + 0x1_0000,
{
}

/// Packed versions are in the order of their major versions, and of their minor versions where
/// these are the same.
pub proof fn law_packing_keeps_the_order(a: VersionTuple, b: VersionTuple)
    ensures
        a.packed() < b.packed() <==> a.major < b.major || (a.major == b.major && a.minor
            < b.minor),
{
}

/// Every number is a packed version. Reading it gives that version's major version, and of its
/// minor version the lowest eight bits.
pub proof fn law_every_number_is_read(v: u32) -> (version: VersionTuple)
    ensures
        version.packed() == v,
        VersionTuple::unpacked(v).major == version.major,
        VersionTuple::unpacked(v).minor == version.minor % 0x100,
{
    VersionTuple { major: (v / 0x1_0000) as u16, minor: (v % 0x1_0000) as u16 }
}

} // verus!
