//! API versions and their packed 32-bit encoding.

use vstd::prelude::*;
use vstd::string::StringExecFns;

verus! {

/// Packs a version into the ABI's 32-bit layout: 10 bits of major version
/// at bit 22, 10 bits of minor version at bit 12, 12 bits of patch.
pub open spec fn packed(major: u32, minor: u32, patch: u32) -> u32 {
    (major << 22u32) | (minor << 12u32) | patch
}

pub open spec fn major_of(raw: u32) -> u32 {
    raw >> 22u32
}

pub open spec fn minor_of(raw: u32) -> u32 {
    (raw >> 12u32) & 0x3ffu32
}

pub open spec fn patch_of(raw: u32) -> u32 {
    raw & 0xfffu32
}

/// Packs a version into its 32-bit form.
pub fn make_version(major: u32, minor: u32, patch: u32) -> (r: u32)
    ensures
        r == packed(major, minor, patch),
{
    (major << 22u32) | (minor << 12u32) | patch
}

/// The major part of a packed version.
pub fn version_major(raw: u32) -> (r: u32)
    ensures
        r == major_of(raw),
{
    raw >> 22u32
}

/// The minor part of a packed version.
pub fn version_minor(raw: u32) -> (r: u32)
    ensures
        r == minor_of(raw),
{
    (raw >> 12u32) & 0x3ffu32
}

/// The patch part of a packed version.
pub fn version_patch(raw: u32) -> (r: u32)
    ensures
        r == patch_of(raw),
{
    raw & 0xfffu32
}

/// Unpacking then packing gives back any 32-bit version.
pub proof fn lemma_unpack_pack(raw: u32)
    ensures
        packed(major_of(raw), minor_of(raw), patch_of(raw)) == raw,
{
    assert(((raw >> 22u32) << 22u32) | ((((raw >> 12u32) & 0x3ffu32)) << 12u32) | (raw & 0xfffu32) == raw) by (bit_vector);
}

/// Packing then unpacking gives back each part that fits its bits.
pub proof fn lemma_pack_unpack(major: u32, minor: u32, patch: u32)
    requires
        major < 1024,
        minor < 1024,
        patch < 4096,
    ensures
        major_of(packed(major, minor, patch)) == major,
        minor_of(packed(major, minor, patch)) == minor,
        patch_of(packed(major, minor, patch)) == patch,
{
    assert((((major << 22u32) | (minor << 12u32) | patch) >> 22u32) == major) by (bit_vector)
        requires
            major < 1024u32,
            minor < 1024u32,
            patch < 4096u32,
    ;
    assert(((((major << 22u32) | (minor << 12u32) | patch) >> 12u32) & 0x3ffu32) == minor) by (bit_vector)
        requires
            major < 1024u32,
            minor < 1024u32,
            patch < 4096u32,
    ;
    assert((((major << 22u32) | (minor << 12u32) | patch) & 0xfffu32) == patch) by (bit_vector)
        requires
            major < 1024u32,
            minor < 1024u32,
            patch < 4096u32,
    ;
}

/// The decimal digit for `d`.
pub open spec fn digit(d: nat) -> char {
    ((d + 48) as u8) as char
}

/// The decimal numeral of `n`, without leading zeros.
pub open spec fn decimal(n: nat) -> Seq<char>
    decreases n,
{
    if n < 10 {
        seq![digit(n)]
    } else {
        decimal(n / 10) + seq![digit(n % 10)]
    }
}

fn digit_str(d: u64) -> (r: &'static str)
    requires
        d < 10,
    ensures
        r@ == seq![digit(d as nat)],
{
    proof {
        reveal_strlit("0");
        reveal_strlit("1");
        reveal_strlit("2");
        reveal_strlit("3");
        reveal_strlit("4");
        reveal_strlit("5");
        reveal_strlit("6");
        reveal_strlit("7");
        reveal_strlit("8");
        reveal_strlit("9");
    }
    match d {
        0 => "0",
        1 => "1",
        2 => "2",
        3 => "3",
        4 => "4",
        5 => "5",
        6 => "6",
        7 => "7",
        8 => "8",
        _ => "9",
    }
}

/// The decimal numeral of `n`.
pub fn decimal_string(n: u64) -> (r: String)
    ensures
        r@ == decimal(n as nat),
    decreases n,
{
    if n < 10 {
        String::from_str(digit_str(n))
    } else {
        let mut s = decimal_string(n / 10);
        s.append(digit_str(n % 10));
        s
    }
}

/// An API version `major.minor.patch`.
#[derive(Copy, Clone, Debug, PartialEq, Eq, Structural, PartialOrd, Ord, Hash)]
pub struct Version {
    pub major: u32,
    pub minor: u32,
    pub patch: u32,
}

impl Version {
    /// Constructs a version from its three parts.
    pub fn new(major: u32, minor: u32, patch: u32) -> (r: Self)
        ensures
            r == (Version { major, minor, patch }),
    {
        Version { major, minor, patch }
    }

    /// The version `1.0.0`, assumed where the driver cannot report its own.
    pub fn v1_0_0() -> (r: Self)
        ensures
            r == (Version { major: 1, minor: 0, patch: 0 }),
    {
        Version::new(1, 0, 0)
    }

    /// The version `1.1.0`.
    pub fn v1_1_0() -> (r: Self)
        ensures
            r == (Version { major: 1, minor: 1, patch: 0 }),
    {
        Version::new(1, 1, 0)
    }

    /// The version `1.2.0`.
    pub fn v1_2_0() -> (r: Self)
        ensures
            r == (Version { major: 1, minor: 2, patch: 0 }),
    {
        Version::new(1, 2, 0)
    }

    /// Whether each part fits in the bits that the packed form gives it.
    pub open spec fn fits(self) -> bool {
        self.major < 1024 && self.minor < 1024 && self.patch < 4096
    }

    /// Unpacks a 32-bit version.
    pub fn from_raw(raw: u32) -> (r: Self)
        ensures
            r == (Version { major: major_of(raw), minor: minor_of(raw), patch: patch_of(raw) }),
            r.fits(),
    {
        proof {
            assert(raw >> 22u32 < 1024u32) by (bit_vector);
            assert((raw >> 12u32) & 0x3ffu32 < 1024u32) by (bit_vector);
            assert(raw & 0xfffu32 < 4096u32) by (bit_vector);
        }
        Version::new(version_major(raw), version_minor(raw), version_patch(raw))
    }

    /// Packs this version into 32 bits.
    pub fn to_raw(self) -> (r: u32)
        ensures
            r == packed(self.major, self.minor, self.patch),
    {
        make_version(self.major, self.minor, self.patch)
    }

    /// Renders this version as `major.minor.patch`.
    pub fn to_string(&self) -> (r: String)
        ensures
            r@ == decimal(self.major as nat) + seq!['.'] + decimal(self.minor as nat) + seq!['.']
                + decimal(self.patch as nat),
    {
        proof {
            reveal_strlit(".");
        }
        let mut s = decimal_string(self.major as u64);
        s.append(".");
        let m = decimal_string(self.minor as u64);
        s.append(m.as_str());
        s.append(".");
        let p = decimal_string(self.patch as u64);
        s.append(p.as_str());
        s
    }

    /// Splits this version into `(major, minor, patch)`.
    pub fn to_tuple(self) -> (r: (u32, u32, u32))
        ensures
            r == (self.major, self.minor, self.patch),
    {
        (self.major, self.minor, self.patch)
    }
}

impl Default for Version {
    /// Version 1.0.0.
    fn default() -> (r: Self)
        ensures
            r == (Version { major: 1, minor: 0, patch: 0 }),
    {
        Version::v1_0_0()
    }
}

impl From<u32> for Version {
    fn from(raw: u32) -> (r: Self) {
        Version::from_raw(raw)
    }
}

impl vstd::std_specs::convert::FromSpecImpl<u32> for Version {
    open spec fn obeys_from_spec() -> bool {
        true
    }

    open spec fn from_spec(raw: u32) -> Self {
        Version { major: major_of(raw), minor: minor_of(raw), patch: patch_of(raw) }
    }
}

impl From<Version> for u32 {
    fn from(v: Version) -> (r: Self) {
        v.to_raw()
    }
}

impl vstd::std_specs::convert::FromSpecImpl<Version> for u32 {
    open spec fn obeys_from_spec() -> bool {
        true
    }

    open spec fn from_spec(v: Version) -> Self {
        packed(v.major, v.minor, v.patch)
    }
}

} // verus!
