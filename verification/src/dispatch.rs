//! The choice, made for each operation, between the native and the emulated path.
use vstd::prelude::*;
use crate::detect::CpuInfo;

verus! {

/// The implementation that serves an operation.
#[derive(Clone, Copy, Debug, PartialEq, Eq, Structural)]
pub enum Path {
    /// A hardware atomic instruction.
    Native,
    /// The lock-emulated cell.
    Fallback,
}

/// What is known, when the program is built, of the double-width atomic
/// instruction.
#[derive(Clone, Copy, Debug, PartialEq, Eq, Structural)]
pub enum Support {
    /// Every processor the program can run on has it: the choice is a constant.
    Always,
    /// No such processor has it: the choice is a constant.
    Never,
    /// Some have it: the capability mask is asked on every call.
    Probed,
}

/// The machine that the choice is made for.
#[derive(Clone, Copy, Debug, PartialEq, Eq, Structural)]
pub struct Target {
    /// The width, in bits, up to which plain atomic instructions exist.
    pub word_bits: u32,
    /// What is known of the instruction for twice that width.
    pub wide: Support,
}

/// The path for an operation on a value of `width` bits.
///
/// Up to the word's width the hardware always serves; at twice that width it
/// serves where the double-width instruction is present; beyond, never.
pub open spec fn path_for(target: Target, width: u32, info: CpuInfo) -> Path {
    if width <= target.word_bits {
        Path::Native
    } else if width as int == 2 * target.word_bits {
        match target.wide {
            Support::Always => Path::Native,
            Support::Never => Path::Fallback,
            Support::Probed => if info@.contains(CpuInfo::HAS_LSE) {
                Path::Native
            } else {
                Path::Fallback
            },
        }
    } else {
        Path::Fallback
    }
}

/// Whether the path for `width` bits depends on the capability mask, so
/// that the processor has to be probed before the path can be chosen.
pub open spec fn depends_on_probe(target: Target, width: u32) -> bool {
    width > target.word_bits && width as int == 2 * target.word_bits && target.wide
        == Support::Probed
}

/// Where no probe is needed, the path is the same for every mask.
pub proof fn lemma_static_choice_is_constant(target: Target, width: u32, a: CpuInfo, b: CpuInfo)
    requires
        !depends_on_probe(target, width),
    ensures
        path_for(target, width, a) == path_for(target, width, b),
{
}

impl Target {
    /// Tells whether the choice for `width` bits needs the capability mask.
    pub fn needs_probe(&self, width: u32) -> (needed: bool)
        ensures
            needed == depends_on_probe(*self, width),
    {
        width > self.word_bits && width - self.word_bits == self.word_bits && match self.wide {
            Support::Probed => true,
            _ => false,
        }
    }

    /// Picks the path for an operation on a value of `width` bits.
    pub fn dispatch(&self, width: u32, info: CpuInfo) -> (path: Path)
        ensures
            path == path_for(*self, width, info),
    {
        if width <= self.word_bits {
            Path::Native
        } else if width - self.word_bits == self.word_bits {
            match self.wide {
                Support::Always => Path::Native,
                Support::Never => Path::Fallback,
                Support::Probed => if info.has_lse() {
                    Path::Native
                } else {
                    Path::Fallback
                },
            }
        } else {
            Path::Fallback
        }
    }

    /// Whether values of `width` bits are updated without a lock.
    pub fn is_lock_free(&self, width: u32, info: CpuInfo) -> (free: bool)
        ensures
            free == (path_for(*self, width, info) == Path::Native),
    {
        match self.dispatch(width, info) {
            Path::Native => true,
            Path::Fallback => false,
        }
    }
}

} // verus!
