//! What the call stack depends on of the configuration of its runtime.
use vstd::prelude::*;
use crate::frame::FrameVec;
use crate::types::Balance;

verus! {

/// The greatest number of frames above the first one that a runtime can ask for: the length of the
/// longest array that can back a `smallvec::SmallVec`.
pub const MAX_CALL_DEPTH: u32 = 0x10_0000;

/// The number of frames that there may be above the first one.
#[derive(Clone, Copy, Debug, PartialEq, Eq)]
pub struct CallDepth {
    frames: u32,
}

impl CallDepth {
    #[verifier::type_invariant]
    spec fn bounded(self) -> bool {
        self.frames <= MAX_CALL_DEPTH
    }

    /// The number of frames.
    pub closed spec fn limit(self) -> nat {
        self.frames as nat
    }

    /// The given number of frames, unless it is more than a runtime can ask for.
    pub fn new(frames: u32) -> (depth: Option<CallDepth>)
        ensures
            frames <= MAX_CALL_DEPTH ==> (depth matches Some(d) && d.limit() == frames),
            frames > MAX_CALL_DEPTH ==> depth is None,
    {
        if frames <= MAX_CALL_DEPTH {
            Some(CallDepth { frames })
        } else {
            None
        }
    }

    /// The number of frames.
    pub fn frames(&self) -> (frames: usize)
        ensures
            frames == self.limit(),
            frames <= MAX_CALL_DEPTH,
    {
        proof {
            use_type_invariant(self);
        }
        self.frames as usize
    }
}

impl Default for CallDepth {
    /// As many frames as are kept without an allocation.
    fn default() -> (depth: CallDepth)
        ensures
            depth.limit() == 31,
    {
        CallDepth { frames: FrameVec::size() as u32 }
    }
}

/// How large the balances of the runtime are.
#[derive(Clone, Copy, Debug, PartialEq, Eq)]
pub enum BalanceWidth {
    /// They have 32 bits.
    Bits32,
    /// They have 64 bits.
    Bits64,
    /// They have 128 bits.
    Bits128,
}

impl BalanceWidth {
    /// The number of bytes that an encoded balance takes.
    pub open spec fn bytes(self) -> nat {
        match self {
            BalanceWidth::Bits32 => 4,
            BalanceWidth::Bits64 => 8,
            BalanceWidth::Bits128 => 16,
        }
    }

    /// The greatest balance.
    pub open spec fn greatest(self) -> Balance {
        match self {
            BalanceWidth::Bits32 => 0xffff_ffff,
            BalanceWidth::Bits64 => 0xffff_ffff_ffff_ffff,
            BalanceWidth::Bits128 => u128::MAX,
        }
    }

    /// The greatest balance.
    pub fn max_value(self) -> (value: Balance)
        ensures
            value == self.greatest(),
    {
        match self {
            BalanceWidth::Bits32 => 0xffff_ffff,
            BalanceWidth::Bits64 => 0xffff_ffff_ffff_ffff,
            BalanceWidth::Bits128 => u128::MAX,
        }
    }
}

/// The hash function of the runtime.
#[derive(Clone, Copy, Debug, PartialEq, Eq)]
pub enum Hashing {
    /// BLAKE2b with a digest of 256 bits.
    BlakeTwo256,
    /// Keccak with a digest of 256 bits.
    Keccak256,
}

/// What the call stack depends on of the configuration of its runtime.
#[derive(Clone, Copy, Debug, PartialEq, Eq)]
pub struct Config {
    /// How many frames there may be above the first one.
    pub call_depth: CallDepth,
    /// How large balances are.
    pub balance: BalanceWidth,
    /// The hash function.
    pub hashing: Hashing,
}

} // verus!
