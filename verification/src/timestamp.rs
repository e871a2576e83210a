//! Timestamps of the timestamp oracle, and the versions they stand for.
use vstd::prelude::*;

verus! {

/// A timestamp: a physical part in milliseconds and a logical counter.  Its
/// version is `physical * 2^18 + logical`.
#[derive(Clone, Copy, Debug, PartialEq, Eq, Structural)]
pub struct Timestamp {
    pub physical: i64,
    pub logical: i64,
    pub suffix_bits: u32,
}

/// The factor of the physical part in a version: 2^18.
pub open spec fn physical_unit() -> int {
    262144
}

/// The version that `ts` stands for.
pub open spec fn version_of(ts: Timestamp) -> int {
    ts.physical * physical_unit() + ts.logical
}

impl Timestamp {
    /// The timestamp of `version`: the version, read as an `i64`, split into
    /// its physical part (the version shifted right by 18 bits) and its
    /// logical part (the low 18 bits).
    pub fn from_version(version: u64) -> (ts: Timestamp)
        ensures
            ts.physical == (version as i64) / 262144,
            ts.logical == (version as i64) % 262144,
            ts.suffix_bits == 0,
    {
        let v: i64 = version as i64;
        let physical: i64 = v >> 18u32;
        let logical: i64 = v & 262143i64;
        assert(physical == v / 262144 && logical == v % 262144) by (bit_vector)
            requires
                physical == v >> 18u32,
                logical == v & 262143i64,
        ;
        Timestamp { physical, logical, suffix_bits: 0 }
    }

    /// The version this timestamp stands for, where it is not negative and
    /// fits in an `i64`.
    pub fn version(&self) -> (r: u64)
        requires
            i64::MIN <= self.physical * physical_unit() <= i64::MAX,
            0 <= version_of(*self) <= i64::MAX,
        ensures
            r == version_of(*self),
    {
        let shifted: i64 = self.physical * 262144;
        let v: i64 = shifted + self.logical;
        v as u64
    }
}

/// A version up to `i64::MAX` comes back unchanged from the timestamp that
/// `from_version` gives for it, and `version` accepts that timestamp.
pub proof fn lemma_version_roundtrip(version: u64, ts: Timestamp)
    requires
        version <= i64::MAX,
        ts.physical == (version as i64) / 262144,
        ts.logical == (version as i64) % 262144,
    ensures
        version_of(ts) == version,
        i64::MIN <= ts.physical * physical_unit() <= i64::MAX,
{
    let v = version as i64;
    assert(v == version);
    vstd::arithmetic::div_mod::lemma_fundamental_div_mod(v as int, 262144);
}

} // verus!
