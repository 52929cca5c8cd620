use vstd::prelude::*;

use core::cmp::Ordering;

verus! {

/// A Vulkan API version, unpacked from the 32-bit word the API encodes
/// versions in: three bits of variant, seven of major, ten of minor and
/// twelve of patch.
#[derive(Debug, Clone, Copy, PartialEq, Eq, Hash, Structural)]
pub struct Version {
    /// The variant of the API. The Vulkan specification itself uses
    /// variant 0.
    pub variant: u32,
    /// The major version of the API.
    pub major: u32,
    /// The minor version of the API.
    pub minor: u32,
    /// The patch version of the API. Calls that take a version typically
    /// ignore it.
    pub patch: u32,
}

/// The 32-bit encoding of a version: variant, major, minor and patch
/// packed from the high bits down.
pub open spec fn packed_version(variant: u32, major: u32, minor: u32, patch: u32) -> u32 {
    (variant << 29u32) | (major << 22u32) | (minor << 12u32) | patch
}

/// Relies on ash::vk::make_api_version: packs the four version fields
/// into one 32-bit version word by shifting and or-ing.
pub assume_specification[ ash::vk::make_api_version ](
    variant: u32,
    major: u32,
    minor: u32,
    patch: u32,
) -> (r: u32)
    ensures
        r == packed_version(variant, major, minor, patch),
;

/// Relies on ash::vk::api_version_variant: the top three bits of a packed
/// version word.
pub assume_specification[ ash::vk::api_version_variant ](version: u32) -> (r: u32)
    ensures
        r == version >> 29u32,
;

/// Relies on ash::vk::api_version_major: bits 22 to 28 of a packed
/// version word.
pub assume_specification[ ash::vk::api_version_major ](version: u32) -> (r: u32)
    ensures
        r == (version >> 22u32) & 0x7fu32,
;

/// Relies on ash::vk::api_version_minor: bits 12 to 21 of a packed
/// version word.
pub assume_specification[ ash::vk::api_version_minor ](version: u32) -> (r: u32)
    ensures
        r == (version >> 12u32) & 0x3ffu32,
;

/// Relies on ash::vk::api_version_patch: the low twelve bits of a packed
/// version word.
pub assume_specification[ ash::vk::api_version_patch ](version: u32) -> (r: u32)
    ensures
        r == version & 0xfffu32,
;

impl Version {
    /// Each field fits the width its slot in the packed word gives it.
    pub open spec fn in_range(self) -> bool {
        &&& self.variant < 8
        &&& self.major < 128
        &&& self.minor < 1024
        &&& self.patch < 4096
    }

    /// How this version orders against another: by variant, then major,
    /// then minor, then patch.
    pub open spec fn cmp_spec(self, other: Version) -> Ordering {
        if self.variant != other.variant {
            if self.variant < other.variant { Ordering::Less } else { Ordering::Greater }
        } else if self.major != other.major {
            if self.major < other.major { Ordering::Less } else { Ordering::Greater }
        } else if self.minor != other.minor {
            if self.minor < other.minor { Ordering::Less } else { Ordering::Greater }
        } else if self.patch != other.patch {
            if self.patch < other.patch { Ordering::Less } else { Ordering::Greater }
        } else {
            Ordering::Equal
        }
    }

    /// Version 1.0 of the Vulkan API.
    pub fn version_1_0() -> (v: Version)
        ensures
            v == (Version { variant: 0u32, major: 1u32, minor: 0u32, patch: 0u32 }),
    {
        Version { variant: 0, major: 1, minor: 0, patch: 0 }
    }

    /// Version 1.1 of the Vulkan API.
    pub fn version_1_1() -> (v: Version)
        ensures
            v == (Version { variant: 0u32, major: 1u32, minor: 1u32, patch: 0u32 }),
    {
        Version { variant: 0, major: 1, minor: 1, patch: 0 }
    }

    /// Version 1.2 of the Vulkan API.
    pub fn version_1_2() -> (v: Version)
        ensures
            v == (Version { variant: 0u32, major: 1u32, minor: 2u32, patch: 0u32 }),
    {
        Version { variant: 0, major: 1, minor: 2, patch: 0 }
    }

    /// Unpacks a 32-bit version word into a version struct.
    pub fn from_raw(raw: u32) -> (v: Version)
        ensures
            v.variant == raw >> 29u32,
            v.major == (raw >> 22u32) & 0x7fu32,
            v.minor == (raw >> 12u32) & 0x3ffu32,
            v.patch == raw & 0xfffu32,
            v.in_range(),
            packed_version(v.variant, v.major, v.minor, v.patch) == raw,
    {
        let v = Version {
            variant: ash::vk::api_version_variant(raw),
            major: ash::vk::api_version_major(raw),
            minor: ash::vk::api_version_minor(raw),
            patch: ash::vk::api_version_patch(raw),
        };
        proof {
            lemma_pack_unpack(raw);
            assert(raw >> 29u32 < 8u32) by (bit_vector);
            assert((raw >> 22u32) & 0x7fu32 < 128u32) by (bit_vector);
            assert((raw >> 12u32) & 0x3ffu32 < 1024u32) by (bit_vector);
            assert(raw & 0xfffu32 < 4096u32) by (bit_vector);
        }
        v
    }

    /// Packs a version struct into the 32-bit encoding.
    pub fn to_raw(self) -> (r: u32)
        ensures
            r == packed_version(self.variant, self.major, self.minor, self.patch),
    {
        ash::vk::make_api_version(self.variant, self.major, self.minor, self.patch)
    }
}

/// Unpacking a version word and packing the fields again yields the same
/// word, for every word.
pub proof fn lemma_pack_unpack(raw: u32)
    ensures
        packed_version(
            raw >> 29u32,
            (raw >> 22u32) & 0x7fu32,
            (raw >> 12u32) & 0x3ffu32,
            raw & 0xfffu32,
        ) == raw,
{
    assert((((raw >> 29u32) << 29u32) | (((raw >> 22u32) & 0x7fu32) << 22u32) | (((raw
        >> 12u32) & 0x3ffu32) << 12u32) | (raw & 0xfffu32)) == raw) by (bit_vector);
}

/// Packing a version whose fields are in range and unpacking the word
/// again yields the same fields.
pub proof fn lemma_unpack_pack(v: Version)
    requires
        v.in_range(),
    ensures
        packed_version(v.variant, v.major, v.minor, v.patch) >> 29u32 == v.variant,
        (packed_version(v.variant, v.major, v.minor, v.patch) >> 22u32) & 0x7fu32 == v.major,
        (packed_version(v.variant, v.major, v.minor, v.patch) >> 12u32) & 0x3ffu32 == v.minor,
        packed_version(v.variant, v.major, v.minor, v.patch) & 0xfffu32 == v.patch,
{
    let variant = v.variant;
    let major = v.major;
    let minor = v.minor;
    let patch = v.patch;
    assert(((variant << 29u32) | (major << 22u32) | (minor << 12u32) | patch) >> 29u32
        == variant) by (bit_vector)
        requires
            variant < 8u32,
            major < 128u32,
            minor < 1024u32,
            patch < 4096u32,
    ;
    assert((((variant << 29u32) | (major << 22u32) | (minor << 12u32) | patch) >> 22u32)
        & 0x7fu32 == major) by (bit_vector)
        requires
            variant < 8u32,
            major < 128u32,
            minor < 1024u32,
            patch < 4096u32,
    ;
    assert((((variant << 29u32) | (major << 22u32) | (minor << 12u32) | patch) >> 12u32)
        & 0x3ffu32 == minor) by (bit_vector)
        requires
            variant < 8u32,
            major < 128u32,
            minor < 1024u32,
            patch < 4096u32,
    ;
    assert(((variant << 29u32) | (major << 22u32) | (minor << 12u32) | patch) & 0xfffu32
        == patch) by (bit_vector)
        requires
            variant < 8u32,
            major < 128u32,
            minor < 1024u32,
            patch < 4096u32,
    ;
}

impl PartialOrd for Version {
    fn partial_cmp(&self, other: &Version) -> (r: Option<Ordering>) {
        if self.variant != other.variant {
            if self.variant < other.variant {
                Some(Ordering::Less)
            } else {
                Some(Ordering::Greater)
            }
        } else if self.major != other.major {
            if self.major < other.major {
                Some(Ordering::Less)
            } else {
                Some(Ordering::Greater)
            }
        } else if self.minor != other.minor {
            if self.minor < other.minor {
                Some(Ordering::Less)
            } else {
                Some(Ordering::Greater)
            }
        } else if self.patch != other.patch {
            if self.patch < other.patch {
                Some(Ordering::Less)
            } else {
                Some(Ordering::Greater)
            }
        } else {
            Some(Ordering::Equal)
        }
    }
}

impl vstd::std_specs::cmp::PartialOrdSpecImpl for Version {
    open spec fn obeys_partial_cmp_spec() -> bool {
        true
    }

    open spec fn partial_cmp_spec(&self, other: &Version) -> Option<Ordering> {
        Some(self.cmp_spec(*other))
    }
}

} // verus!
