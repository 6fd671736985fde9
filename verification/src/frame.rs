//! The entries of the call stack.
use vstd::prelude::*;
use crate::config::MAX_CALL_DEPTH;
use crate::executable::ExportedFunction;
use crate::gas::GasMeter;
use crate::types::{
    AccountId, AliveContractInfo, Balance, ChainId, ContractInfo, DispatchError,
};

verus! {

/// The state of a contract as a [`Frame`] knows it.
#[derive(Clone, Copy, Debug, PartialEq, Eq)]
pub enum CachedContract {
    /// The cached contract is up to date with the in-storage value.
    Cached(AliveContractInfo),
    /// A recursive call into the same contract did write to the contract info.
    ///
    /// The cached contract is stale and has to be read from storage again.
    Invalidated,
    /// The contract was removed by the code that runs in this frame.
    ///
    /// To read it again is neither allowed nor possible.
    Terminated,
}

/// The cache after storage was read for it.
pub open spec fn loaded(cache: CachedContract, stored: Option<ContractInfo>) -> CachedContract {
    match (cache, stored) {
        (CachedContract::Invalidated, Some(ContractInfo::Alive(info))) => CachedContract::Cached(
            info,
        ),
        _ => cache,
    }
}

/// The contract that is behind the cache, if there is one.
pub open spec fn effective(
    cache: CachedContract,
    stored: Option<ContractInfo>,
) -> Option<AliveContractInfo> {
    match loaded(cache, stored) {
        CachedContract::Cached(info) => Some(info),
        _ => None,
    }
}

impl CachedContract {
    /// Takes the contract from storage if the cache is stale.
    ///
    /// `stored` is what storage holds for the account of the contract.
    pub fn load(&mut self, stored: Option<ContractInfo>)
        ensures
            *final(self) == loaded(*old(self), stored),
    {
        if let CachedContract::Invalidated = self {
            if let Some(contract) = stored {
                if let Some(info) = contract.get_alive() {
                    *self = CachedContract::Cached(info);
                }
            }
        }
    }

    /// The contract, for reading and writing.
    pub fn as_alive(&mut self, stored: Option<ContractInfo>) -> (info: &mut AliveContractInfo)
        requires
            effective(*old(self), stored) is Some,
        ensures
            effective(*old(self), stored) == Some(*info),
            *final(self) == CachedContract::Cached(*final(info)),
    {
        self.load(stored);
        match self {
            CachedContract::Cached(info) => info,
            _ => vstd::pervasive::unreached(),
        }
    }

    /// Gives the contract away and marks the cache as stale.
    pub fn invalidate(&mut self, stored: Option<ContractInfo>) -> (info: AliveContractInfo)
        requires
            effective(*old(self), stored) is Some,
        ensures
            effective(*old(self), stored) == Some(info),
            *final(self) == CachedContract::Invalidated,
    {
        let info: AliveContractInfo = *self.as_alive(stored);
        *self = CachedContract::Invalidated;
        info
    }

    /// Gives the contract away and marks it as removed.
    pub fn terminate(&mut self, stored: Option<ContractInfo>) -> (info: AliveContractInfo)
        requires
            effective(*old(self), stored) is Some,
        ensures
            effective(*old(self), stored) == Some(info),
            *final(self) == CachedContract::Terminated,
    {
        let info: AliveContractInfo = *self.as_alive(stored);
        *self = CachedContract::Terminated;
        info
    }
}

/// One entry in the call stack.
///
/// For each nested contract call or instantiate one frame is created. It holds specific
/// information for the said call and caches what storage holds for the contract.
#[derive(Debug, PartialEq, Eq)]
pub struct Frame {
    /// The account id of the executing contract.
    pub account_id: AccountId,
    /// The cached in-storage data of the contract.
    pub contract_info: CachedContract,
    /// The amount of balance transferred by the caller as part of the call.
    pub value_transferred: Balance,
    /// Determines whether this is a call or instantiate frame.
    pub entry_point: ExportedFunction,
    /// The gas meter capped to the supplied gas limit.
    pub nested_meter: GasMeter,
    /// If `false` the contract enabled its defense against reentrance attacks.
    pub allows_reentry: bool,
    /// The chain that the code of this frame has to run on, if it is not this one.
    pub target_id: Option<ChainId>,
}

impl Frame {
    /// The contract of this frame, for reading and writing.
    pub fn contract_info(&mut self, stored: Option<ContractInfo>) -> (info: &mut AliveContractInfo)
        requires
            effective(old(self).contract_info, stored) is Some,
        ensures
            effective(old(self).contract_info, stored) == Some(*info),
            *final(self) == (Frame {
                contract_info: CachedContract::Cached(*final(info)),
                ..*old(self)
            }),
    {
        self.contract_info.as_alive(stored)
    }

    /// Gives the contract of this frame away and marks the cache as stale.
    pub fn invalidate(&mut self, stored: Option<ContractInfo>) -> (info: AliveContractInfo)
        requires
            effective(old(self).contract_info, stored) is Some,
        ensures
            effective(old(self).contract_info, stored) == Some(info),
            *final(self) == (Frame { contract_info: CachedContract::Invalidated, ..*old(self) }),
    {
        self.contract_info.invalidate(stored)
    }

    /// Gives the contract of this frame away and marks it as removed.
    ///
    /// The contract cannot be accessed any more after this.
    pub fn terminate(&mut self, stored: Option<ContractInfo>) -> (info: AliveContractInfo)
        requires
            effective(old(self).contract_info, stored) is Some,
        ensures
            effective(old(self).contract_info, stored) == Some(info),
            *final(self) == (Frame { contract_info: CachedContract::Terminated, ..*old(self) }),
    {
        self.contract_info.terminate(stored)
    }
}

/// What a new frame is made from.
pub enum FrameArgs<E> {
    /// The frame is for a call.
    Call {
        /// The account id of the contract that is to be called.
        dest: AccountId,
        /// If `None` the contract is taken from storage.
        cached_info: Option<AliveContractInfo>,
        /// What storage holds for `dest`. It counts only where nothing is cached.
        stored: Option<ContractInfo>,
    },
    /// The frame is for an instantiation.
    Instantiate {
        /// The account id that was derived for the new contract.
        account_id: AccountId,
        /// The new contract, or why it could not be made.
        created: Result<AliveContractInfo, DispatchError>,
        /// The executable whose `deploy` function is run.
        executable: E,
    },
}

/// The frames above the first one, the topmost last.
///
/// They are kept in a `smallvec::SmallVec` with room for 31 frames inside of it.
#[verifier::external_body]
#[derive(Debug)]
pub struct FrameVec {
    inner: smallvec::SmallVec<[Frame; 31]>,
}

/// The frames that a [`FrameVec`] holds, the topmost last.
pub uninterp spec fn frames_held(frames: FrameVec) -> Seq<Frame>;

impl FrameVec {
    /// Calls `smallvec::SmallVec::new`, which gives a vector that holds nothing.
    #[verifier::external_body]
    pub(crate) fn new() -> (frames: FrameVec)
        ensures
            frames_held(frames) == Seq::<Frame>::empty(),
    {
        FrameVec { inner: smallvec::SmallVec::new() }
    }

    /// Calls `smallvec::Array::size` of the array that backs the vector, which is its length.
    #[verifier::external_body]
    pub(crate) fn size() -> (size: usize)
        ensures
            size == 31,
    {
        <[Frame; 31] as smallvec::Array>::size()
    }

    /// Calls `smallvec::SmallVec::len`, which counts the items.
    #[verifier::external_body]
    pub(crate) fn len(&self) -> (len: usize)
        ensures
            len == frames_held(*self).len(),
    {
        self.inner.len()
    }

    /// Calls `smallvec::SmallVec::push`, which appends an item. Where the items no longer fit
    /// inside of the vector, they move to the heap. The call panics where the room for them cannot
    /// be counted, which is far beyond the number of items here.
    #[verifier::external_body]
    pub(crate) fn push(&mut self, frame: Frame)
        requires
            frames_held(*old(self)).len() < MAX_CALL_DEPTH,
        ensures
            frames_held(*final(self)) == frames_held(*old(self)).push(frame),
    {
        self.inner.push(frame)
    }

    /// Calls `smallvec::SmallVec::pop`, which takes the last item if there is one.
    #[verifier::external_body]
    pub(crate) fn pop(&mut self) -> (frame: Option<Frame>)
        ensures
            frames_held(*old(self)).len() == 0 ==> {
                &&& frame is None
                &&& frames_held(*final(self)) == frames_held(*old(self))
            },
            frames_held(*old(self)).len() > 0 ==> {
                &&& frame == Some(frames_held(*old(self)).last())
                &&& frames_held(*final(self)) == frames_held(*old(self)).drop_last()
            },
    {
        self.inner.pop()
    }

    /// Indexes the slice that a `smallvec::SmallVec` dereferences to: the item at the index.
    #[verifier::external_body]
    pub(crate) fn get(&self, index: usize) -> (frame: &Frame)
        requires
            index < frames_held(*self).len(),
        ensures
            *frame == frames_held(*self)[index as int],
    {
        &self.inner[index]
    }

    /// Indexes the mutable slice that a `smallvec::SmallVec` dereferences to: the item at the
    /// index changes as the reference is written to, and no other item does.
    #[verifier::external_body]
    pub(crate) fn get_mut(&mut self, index: usize) -> (frame: &mut Frame)
        requires
            index < frames_held(*old(self)).len(),
        ensures
            *frame == frames_held(*old(self))[index as int],
            frames_held(*final(self)) == frames_held(*old(self)).update(
                index as int,
                *final(frame),
            ),
    {
        &mut self.inner[index]
    }
}

} // verus!
