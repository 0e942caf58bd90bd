//! Hardware capabilities: what a probe reported, and the cache that keeps it.
use vstd::prelude::*;

verus! {

/// The key under which the kernel's auxiliary vector holds the capability word.
pub const AT_HWCAP: u64 = 16;

/// The bit of the capability word that reports the atomic instructions
/// with a double-width compare-and-swap.
pub const HWCAP_ATOMICS: u64 = 0x100;

/// The bit of the capability word that reports the newer extension, under
/// which aligned double-width loads and stores are single-copy atomic.
pub const HWCAP_USCAT: u64 = 0x200_0000;

/// A set of capabilities, one bit each.
#[derive(Clone, Copy, Debug, PartialEq, Eq, Structural)]
pub struct CpuInfo(pub u32);

/// Whether bit `bit` of `x` is set.
pub open spec fn bit_is_set(x: u32, bit: u32) -> bool {
    x & (1u32 << bit) != 0
}

/// Setting bit `bit` leaves every other bit as it was.
pub proof fn lemma_set_bit(x: u32, bit: u32, other: u32)
    requires
        bit < 32,
        other < 32,
    ensures
        bit_is_set(x | (1u32 << bit), other) == (bit_is_set(x, other) || other == bit),
{
    assert((x | (1u32 << bit)) & (1u32 << other) != 0 <==> (x & (1u32 << other) != 0 || other
        == bit)) by (bit_vector)
        requires
            bit < 32,
            other < 32,
    ;
}

/// No bit of zero is set.
pub proof fn lemma_zero_has_no_bit(bit: u32)
    requires
        bit < 32,
    ensures
        !bit_is_set(0, bit),
{
    assert(0u32 & (1u32 << bit) == 0) by (bit_vector);
}

/// A mask with some bit set is not zero.
pub proof fn lemma_bit_set_nonzero(x: u32, bit: u32)
    requires
        bit_is_set(x, bit),
    ensures
        x != 0,
{
    assert(x & (1u32 << bit) != 0 ==> x != 0) by (bit_vector);
}

/// The capabilities that the capability word `hwcap` reports; bits of it
/// that stand for anything else are ignored.
pub open spec fn probed(hwcap: u64) -> Set<u32> {
    Set::new(
        |bit: u32|
            (bit == CpuInfo::HAS_LSE && hwcap & HWCAP_ATOMICS != 0) || (bit == CpuInfo::HAS_LSE2
                && hwcap & HWCAP_USCAT != 0),
    )
}

impl View for CpuInfo {
    type V = Set<u32>;

    /// The capabilities that are present.
    open spec fn view(&self) -> Set<u32> {
        Set::new(|bit: u32| bit < 32 && bit_is_set(self.0, bit))
    }
}

impl CpuInfo {
    /// Marks a mask as computed, so that a computed mask is never zero.
    pub const INIT: u32 = 0;

    /// The atomic instructions with a double-width compare-and-swap.
    pub const HAS_LSE: u32 = 1;

    /// The newer atomic extension.
    pub const HAS_LSE2: u32 = 2;

    /// The mask with no capability.
    pub fn empty() -> (info: CpuInfo)
        ensures
            info@ == Set::<u32>::empty(),
            info.0 == 0,
    {
        let info = CpuInfo(0);
        proof {
            assert forall|bit: u32| !info@.contains(bit) by {
                if bit < 32 {
                    lemma_zero_has_no_bit(bit);
                }
            }
            assert(info@ =~= Set::<u32>::empty());
        }
        info
    }

    /// Adds the capability `bit`.
    pub fn set(&mut self, bit: u32)
        requires
            bit < 32,
        ensures
            final(self)@ == old(self)@.insert(bit),
            final(self).0 == old(self).0 | (1u32 << bit),
    {
        let before = self.0;
        self.0 = before | (1u32 << bit);
        proof {
            assert forall|other: u32|
                self@.contains(other) == old(self)@.insert(bit).contains(other) by {
                if other < 32 {
                    lemma_set_bit(before, bit, other);
                }
            }
            assert(self@ =~= old(self)@.insert(bit));
        }
    }

    /// Whether the capability `bit` is present.
    pub fn test(self, bit: u32) -> (present: bool)
        requires
            bit < 32,
        ensures
            present == self@.contains(bit),
    {
        self.0 & (1u32 << bit) != 0
    }

    /// Whether the atomic instructions with a double-width compare-and-swap
    /// are present.
    pub fn has_lse(self) -> (present: bool)
        ensures
            present == self@.contains(CpuInfo::HAS_LSE),
    {
        self.test(CpuInfo::HAS_LSE)
    }

    /// Whether the newer atomic extension is present.
    pub fn has_lse2(self) -> (present: bool)
        ensures
            present == self@.contains(CpuInfo::HAS_LSE2),
    {
        self.test(CpuInfo::HAS_LSE2)
    }
}

/// The mask of the capabilities that the capability word `hwcap` reports.
pub open spec fn probed_mask(hwcap: u64) -> u32 {
    (if hwcap & HWCAP_ATOMICS != 0 {
        1u32 << CpuInfo::HAS_LSE
    } else {
        0u32
    }) | (if hwcap & HWCAP_USCAT != 0 {
        1u32 << CpuInfo::HAS_LSE2
    } else {
        0u32
    })
}

/// Adds to `info` the capabilities that the capability word `hwcap` reports.
pub fn _detect(info: &mut CpuInfo, hwcap: u64)
    ensures
        final(info)@ == old(info)@ + probed(hwcap),
        final(info).0 == old(info).0 | probed_mask(hwcap),
{
    let ghost before = info.0;
    if hwcap & HWCAP_ATOMICS != 0 {
        info.set(CpuInfo::HAS_LSE);
    }
    if hwcap & HWCAP_USCAT != 0 {
        info.set(CpuInfo::HAS_LSE2);
    }
    proof {
        assert(info@ =~= old(info)@ + probed(hwcap));
        let a: u32 = 1u32 << CpuInfo::HAS_LSE;
        let b: u32 = 1u32 << CpuInfo::HAS_LSE2;
        assert((before | a) | b == before | (a | b)) by (bit_vector);
        assert(before | a == before | (a | 0u32)) by (bit_vector);
        assert(before | b == before | (0u32 | b)) by (bit_vector);
        assert(before == before | (0u32 | 0u32)) by (bit_vector);
    }
}

/// The capabilities that a first query computes from the capability word
/// `hwcap`: what the probe reports, and the marker.
pub open spec fn computed(hwcap: u64) -> Set<u32> {
    probed(hwcap).insert(CpuInfo::INIT)
}

/// The mask that a first query computes from the capability word `hwcap`.
pub open spec fn computed_mask(hwcap: u64) -> u32 {
    (1u32 << CpuInfo::INIT) | probed_mask(hwcap)
}

/// The capabilities of the running processor, computed at most once.
///
/// The stored mask is zero until the first query; from then on it holds the
/// marker bit and never changes again.
#[derive(Clone, Copy, Debug, PartialEq, Eq, Structural)]
pub struct CapabilityCache {
    /// The stored mask.
    pub bits: u32,
}

impl CapabilityCache {
    /// Whether a query has filled the cache.
    pub open spec fn is_filled(self) -> bool {
        self.bits != 0
    }

    /// The mask that the cache holds.
    pub open spec fn info(self) -> CpuInfo {
        CpuInfo(self.bits)
    }

    /// The cache before any query.
    pub fn new() -> (cache: CapabilityCache)
        ensures
            !cache.is_filled(),
    {
        CapabilityCache { bits: 0 }
    }

    /// The stored mask, if a query has filled the cache. No probe is needed
    /// when this returns a mask.
    pub fn get(&self) -> (stored: Option<CpuInfo>)
        ensures
            stored == if self.is_filled() {
                Some(self.info())
            } else {
                None::<CpuInfo>
            },
    {
        if self.bits != 0 {
            Some(CpuInfo(self.bits))
        } else {
            None
        }
    }

    /// Answers a query. A filled cache answers with what it holds and
    /// ignores `hwcap`; an empty one computes the mask from `hwcap`, keeps
    /// it and answers with it.
    pub fn detect(&mut self, hwcap: u64) -> (info: CpuInfo)
        ensures
            final(self).is_filled(),
            final(self).info() == info,
            old(self).is_filled() ==> *final(self) == *old(self),
            !old(self).is_filled() ==> info@ == computed(hwcap) && info.0 == computed_mask(hwcap),
    {
        if self.bits != 0 {
            return CpuInfo(self.bits);
        }
        let mut info = CpuInfo::empty();
        info.set(CpuInfo::INIT);
        _detect(&mut info, hwcap);
        proof {
            assert(info@ =~= computed(hwcap));
            assert(info@.contains(CpuInfo::INIT));
            lemma_bit_set_nonzero(info.0, CpuInfo::INIT);
            let m = probed_mask(hwcap);
            assert((0u32 | (1u32 << 0u32)) | m == (1u32 << 0u32) | m) by (bit_vector);
        }
        self.bits = info.0;
        info
    }
}

} // verus!
