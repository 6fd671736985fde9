//! The call stack: its frames, and how they come and go.
use vstd::prelude::*;
use crate::config::Config;
use crate::executable::{shared_size, Executable, ExportedFunction};
use crate::extension::{ExtensionView, StackExtension};
use crate::frame::{
    frames_held, CachedContract, Frame, FrameArgs, FrameVec,
};
use crate::gas::{absorbed, full_meter, nested_amount, GasMeter};
use crate::types::{
    caller_error, refusal, same_bytes, AccountId, AliveContractInfo, Balance, BlockNumber,
    ChainId, ContractInfo, DispatchError, DispatchResult, Effect, Error, ExecError,
    ExistenceRequirement, Funds, Moment, Schedule, TransferRequest, Weight,
};

verus! {

/// The complete call stack of a contract execution.
///
/// It decides what happens on every operation of a contract. What these operations need of the
/// runtime is handed in, and what they change there is handed out as [`Effect`]s.
///
/// The gas meter, the debug buffer and the extension are borrowed. Every operation goes on with
/// those that it was given, so that their owners find them as the last operation left them.
#[derive(Debug)]
pub struct Stack<'a> {
    /// The account id of a plain account that initiated the call stack.
    pub origin: AccountId,
    /// The cost schedule used when charging from the gas meter.
    pub schedule: &'a Schedule,
    /// What depends on the configuration of the runtime.
    pub config: Config,
    /// The gas meter where costs are charged to.
    pub gas_meter: &'a mut GasMeter,
    /// The timestamp at the point of call stack instantiation.
    pub timestamp: Moment,
    /// The block number at the time of call stack instantiation.
    pub block_number: BlockNumber,
    /// The account counter is cached here when accessed. It is written back when the call stack
    /// finishes executing.
    pub account_counter: Option<u64>,
    /// The actual call stack. One entry per nested contract called or instantiated.
    /// This does **not** include the first frame.
    pub frames: FrameVec,
    /// Statically guarantees that each call stack has at least one frame.
    pub first_frame: Frame,
    /// A text buffer used to output human readable information.
    pub debug_message: Option<&'a mut Vec<u8>>,
    /// What the stack holds beside its frames.
    pub extension: &'a mut StackExtension,
}

/// What a [`Stack`] stands for.
#[verifier::ext_equal]
pub struct StackView {
    /// The account that initiated the call stack.
    pub origin: AccountId,
    /// The cost schedule.
    pub schedule: Schedule,
    /// What depends on the configuration of the runtime.
    pub config: Config,
    /// The root gas meter.
    pub gas_meter: GasMeter,
    /// The timestamp at the point of call stack instantiation.
    pub timestamp: Moment,
    /// The block number at the time of call stack instantiation.
    pub block_number: BlockNumber,
    /// The cached account counter.
    pub account_counter: Option<u64>,
    /// All frames, from the first one to the topmost.
    pub frames: Seq<Frame>,
    /// The debug buffer.
    pub debug_message: Option<Seq<u8>>,
    /// What the stack holds beside its frames.
    pub extension: ExtensionView,
}

impl<'a> View for Stack<'a> {
    type V = StackView;

    open spec fn view(&self) -> StackView {
        StackView {
            origin: self.origin,
            schedule: *self.schedule,
            config: self.config,
            gas_meter: *self.gas_meter,
            timestamp: self.timestamp,
            block_number: self.block_number,
            account_counter: self.account_counter,
            frames: seq![self.first_frame] + frames_held(self.frames),
            debug_message: match self.debug_message {
                Some(buffer) => Some((*buffer)@),
                None => None,
            },
            extension: (*self.extension)@,
        }
    }
}

impl StackView {
    /// There is a first frame, and no more frames above it than there may be.
    pub open spec fn wf(self) -> bool {
        1 <= self.frames.len() <= self.config.call_depth.limit() + 1
    }

    /// The topmost frame.
    pub open spec fn top(self) -> Frame {
        self.frames.last()
    }

    /// The stack with another topmost frame.
    pub open spec fn with_top(self, frame: Frame) -> StackView {
        StackView { frames: self.frames.update(self.frames.len() - 1, frame), ..self }
    }

    /// The account that called the topmost frame.
    pub open spec fn caller(self) -> AccountId {
        if self.frames.len() >= 2 {
            self.frames[self.frames.len() - 2].account_id
        } else {
            self.origin
        }
    }
}

/// The index of the topmost frame of an account, or -1.
pub open spec fn nearest(frames: Seq<Frame>, account_id: AccountId) -> int
    decreases frames.len(),
{
    if frames.len() == 0 {
        -1
    } else if frames.last().account_id == account_id {
        frames.len() - 1
    } else {
        nearest(frames.drop_last(), account_id)
    }
}

/// The index of the topmost frame that is a call of an account, or -1.
pub open spec fn nearest_call(frames: Seq<Frame>, account_id: AccountId) -> int
    decreases frames.len(),
{
    if frames.len() == 0 {
        -1
    } else if frames.last().account_id == account_id && frames.last().entry_point
        == ExportedFunction::Call {
        frames.len() - 1
    } else {
        nearest_call(frames.drop_last(), account_id)
    }
}

/// What the topmost call of an account has cached, if it has.
pub open spec fn cached_by_call(frames: Seq<Frame>, account_id: AccountId) -> Option<
    AliveContractInfo,
> {
    let i = nearest_call(frames, account_id);
    if i >= 0 {
        match frames[i].contract_info {
            CachedContract::Cached(info) => Some(info),
            _ => None,
        }
    } else {
        None
    }
}

/// Whether no frame of an account has its defense against reentrance up.
pub open spec fn may_reenter(frames: Seq<Frame>, account_id: AccountId) -> bool {
    forall|i: int|
        0 <= i < frames.len() && (#[trigger] frames[i]).account_id == account_id
            ==> frames[i].allows_reentry
}

/// Whether the contract of the topmost frame is on the stack below it, too.
pub open spec fn recursive(frames: Seq<Frame>) -> bool {
    exists|i: int|
        0 <= i < frames.len() - 1 && (#[trigger] frames[i]).account_id
            == frames.last().account_id
}

/// The contract that a call goes to: what is cached, or else what is stored.
pub open spec fn found_contract(
    cached_info: Option<AliveContractInfo>,
    stored: Option<ContractInfo>,
) -> Result<AliveContractInfo, Error> {
    match (cached_info, stored) {
        (Some(info), _) => Ok(info),
        (None, None) => Err(Error::ContractNotFound),
        (None, Some(ContractInfo::Tombstone(_))) => Err(Error::ContractIsTombstone),
        (None, Some(ContractInfo::Alive(info))) => Ok(info),
    }
}

/// How a frame for a contract is opened: the meter before pays for the frame's own.
pub open spec fn frame_opened(
    account_id: AccountId,
    info: AliveContractInfo,
    entry_point: ExportedFunction,
    target_id: Option<ChainId>,
    value_transferred: Balance,
    gas_limit: Weight,
    before: GasMeter,
    after: GasMeter,
    outcome: Result<Frame, ExecError>,
) -> bool {
    let amount = nested_amount(before, gas_limit);
    if before.gas_left < amount {
        &&& outcome == Err::<Frame, ExecError>(refusal(Error::OutOfGas))
        &&& after == before
    } else {
        &&& outcome == Ok::<Frame, ExecError>(
            Frame {
                account_id,
                contract_info: CachedContract::Cached(info),
                value_transferred,
                entry_point,
                nested_meter: full_meter(amount),
                allows_reentry: true,
                target_id,
            },
        )
        &&& after == GasMeter { gas_left: (before.gas_left - amount) as u64, ..before }
    }
}

/// How a frame is made, with an executable for it.
///
/// For a call, the contract is looked up, its code is loaded at the expense of the meter, and
/// what is then left in the meter pays for the frame's own. For an instantiation, contract and
/// executable are given.
pub open spec fn frame_made<E: Executable>(
    frame_args: FrameArgs<E>,
    value_transferred: Balance,
    gas_limit: Weight,
    schedule: Schedule,
    before: GasMeter,
    after: GasMeter,
    outcome: Result<(Frame, E), ExecError>,
) -> bool {
    match frame_args {
        FrameArgs::Call { dest, cached_info, stored } => match found_contract(cached_info, stored) {
            Err(error) => {
                &&& outcome == Err::<(Frame, E), ExecError>(refusal(error))
                &&& after == before
            },
            Ok(info) => call_frame_made(
                dest,
                info,
                value_transferred,
                gas_limit,
                schedule,
                before,
                after,
                outcome,
            ),
        },
        FrameArgs::Instantiate { account_id, created, executable } => match created {
            Err(error) => {
                &&& outcome == Err::<(Frame, E), ExecError>(caller_error(error))
                &&& after == before
            },
            Ok(info) => frame_entered(
                account_id,
                info,
                ExportedFunction::Constructor,
                Ok::<E, DispatchError>(executable),
                value_transferred,
                gas_limit,
                before,
                after,
                outcome,
            ),
        },
    }
}

/// How the frame of a call is made, with an executable that is loaded for it.
pub open spec fn call_frame_made<E: Executable>(
    dest: AccountId,
    info: AliveContractInfo,
    value_transferred: Balance,
    gas_limit: Weight,
    schedule: Schedule,
    before: GasMeter,
    after: GasMeter,
    outcome: Result<(Frame, E), ExecError>,
) -> bool {
    exists|charged: GasMeter, load: Result<E, DispatchError>|
        #[trigger] E::loads(info.code_hash, schedule, before, charged, load) && frame_entered(
            dest,
            info,
            ExportedFunction::Call,
            load,
            value_transferred,
            gas_limit,
            charged,
            after,
            outcome,
        )
}

/// How a frame is opened for the executable that was loaded, if one was.
pub open spec fn frame_entered<E: Executable>(
    account_id: AccountId,
    info: AliveContractInfo,
    entry_point: ExportedFunction,
    load: Result<E, DispatchError>,
    value_transferred: Balance,
    gas_limit: Weight,
    before: GasMeter,
    after: GasMeter,
    outcome: Result<(Frame, E), ExecError>,
) -> bool {
    match load {
        Err(error) => {
            &&& outcome == Err::<(Frame, E), ExecError>(caller_error(error))
            &&& after == before
        },
        Ok(executable) => frame_opened(
            account_id,
            info,
            entry_point,
            executable.target(),
            value_transferred,
            gas_limit,
            before,
            after,
            match outcome {
                Ok((frame, _)) => Ok(frame),
                Err(error) => Err(error),
            },
        ) && (outcome matches Ok((_, x)) ==> x == executable),
    }
}

/// The frames with what those of an account have cached marked as stale.
pub open spec fn marked_stale(frames: Seq<Frame>, account_id: AccountId) -> Seq<Frame> {
    Seq::new(
        frames.len(),
        |i: int|
            if frames[i].account_id == account_id {
                Frame { contract_info: CachedContract::Invalidated, ..frames[i] }
            } else {
                frames[i]
            },
    )
}

/// The frames below the one that is popped: the next one takes back the gas that is left. If the
/// changes are kept, the contract's other frames learn of them: the next one directly where it
/// is of the same contract, or else all of them by being marked as stale.
pub open spec fn frames_after_pop(frames: Seq<Frame>, persist: bool) -> Seq<Frame>
    recommends
        frames.len() >= 2,
{
    let top = frames.last();
    let below = frames.drop_last();
    let prev = below.last();
    let rest = below.update(
        below.len() - 1,
        Frame { nested_meter: absorbed(prev.nested_meter, top.nested_meter), ..prev },
    );
    if !persist || !(top.contract_info is Cached) {
        rest
    } else if prev.account_id == top.account_id {
        rest.update(
            rest.len() - 1,
            Frame { contract_info: top.contract_info, ..rest.last() },
        )
    } else {
        marked_stale(rest, top.account_id)
    }
}

/// The stack after its topmost frame was popped. The first frame stays, with an empty meter.
pub open spec fn popped(stack: StackView, persist: bool) -> StackView {
    let top = stack.top();
    let account_counter = if !persist && top.entry_point == ExportedFunction::Constructor {
        match stack.account_counter {
            Some(counter) => Some(
                if counter == 0 {
                    u64::MAX
                } else {
                    (counter - 1) as u64
                },
            ),
            None => None,
        }
    } else {
        stack.account_counter
    };
    if stack.frames.len() == 1 {
        StackView {
            account_counter,
            gas_meter: absorbed(stack.gas_meter, top.nested_meter),
            frames: seq![Frame { nested_meter: full_meter(0), ..top }],
            ..stack
        }
    } else {
        StackView {
            account_counter,
            frames: frames_after_pop(stack.frames, persist),
            ..stack
        }
    }
}

/// What has to be stored when the topmost frame is popped.
///
/// The contract is stored, except where the next frame is of the same contract and takes it
/// over. With the first frame, the account counter is stored, too.
pub open spec fn pop_effects(stack: StackView, persist: bool) -> Seq<Effect> {
    let top = stack.top();
    if !persist {
        seq![]
    } else if stack.frames.len() == 1 {
        (match top.contract_info {
            CachedContract::Cached(info) => seq![Effect::InsertContract(top.account_id, info)],
            _ => seq![],
        }) + (match stack.account_counter {
            Some(counter) => seq![Effect::SetAccountCounter(counter)],
            None => seq![],
        })
    } else {
        match top.contract_info {
            CachedContract::Cached(info) => if stack.caller() == top.account_id {
                seq![]
            } else {
                seq![Effect::InsertContract(top.account_id, info)]
            },
            _ => seq![],
        }
    }
}

/// What has to be stored before a frame is pushed: the contract of a call, so that the changes
/// that were made to it are not discarded.
pub open spec fn push_effects(stack: StackView) -> Seq<Effect> {
    match stack.top().contract_info {
        CachedContract::Cached(info) => if stack.top().entry_point == ExportedFunction::Call {
            seq![Effect::InsertContract(stack.top().account_id, info)]
        } else {
            seq![]
        },
        _ => seq![],
    }
}

/// Whether one more frame fits.
pub open spec fn has_room(stack: StackView) -> bool {
    stack.frames.len() < stack.config.call_depth.limit() + 1
}

/// How a frame is pushed, with an executable for it: the topmost frame pays.
pub open spec fn frame_pushed<E: Executable>(
    frame_args: FrameArgs<E>,
    value_transferred: Balance,
    gas_limit: Weight,
    before: StackView,
    after: StackView,
    outcome: Result<E, ExecError>,
) -> bool {
    exists|meter: GasMeter, made: Result<(Frame, E), ExecError>|
        #[trigger] frame_made(
            frame_args,
            value_transferred,
            gas_limit,
            before.schedule,
            before.top().nested_meter,
            meter,
            made,
        ) && {
            let paid = before.with_top(Frame { nested_meter: meter, ..before.top() });
            match made {
                Ok((frame, executable)) => {
                    &&& outcome == Ok::<E, ExecError>(executable)
                    &&& after == StackView { frames: paid.frames.push(frame), ..paid }
                },
                Err(error) => {
                    &&& outcome == Err::<E, ExecError>(error)
                    &&& after == paid
                },
            }
        }
}

/// What is due for a frame that was made: a contract that is called pays rent for its storage and
/// for its share of the code.
pub open spec fn rent_due<E: Executable>(frame: Frame, executable: E) -> Seq<Effect> {
    if frame.entry_point == ExportedFunction::Call {
        seq![
            Effect::ChargeRent(
                frame.account_id,
                shared_size(executable.aggregate_len(), executable.users()),
            ),
        ]
    } else {
        seq![]
    }
}

/// What is left of a balance after a value was taken from it: nothing where it is too low.
pub open spec fn remainder(balance: Balance, value: Balance) -> int {
    if balance >= value {
        balance - value
    } else {
        0
    }
}

/// What is decided on a transfer.
///
/// Nothing has to be done for no value. A contract keeps what it needs to subsist, and the
/// sender's account stays, unless its death is allowed.
pub open spec fn transfer_decision(
    sender_is_contract: bool,
    allow_death: bool,
    from: AccountId,
    to: AccountId,
    value: Balance,
    funds: Funds,
) -> Result<Option<TransferRequest>, DispatchError> {
    if value == 0 {
        Ok(None)
    } else if allow_death {
        Ok(
            Some(
                TransferRequest { from, to, value, existence: ExistenceRequirement::AllowDeath },
            ),
        )
    } else if sender_is_contract && remainder(funds.total_balance, value)
        < funds.subsistence_threshold {
        Err(DispatchError::Module(Error::BelowSubsistenceThreshold))
    } else {
        Ok(
            Some(
                TransferRequest { from, to, value, existence: ExistenceRequirement::KeepAlive },
            ),
        )
    }
}

/// What is decided on the transfer that a call or an instantiation starts with.
pub open spec fn initial_transfer_decision(stack: StackView, funds: Funds) -> Result<
    Option<TransferRequest>,
    DispatchError,
> {
    if stack.top().entry_point == ExportedFunction::Constructor && stack.top().value_transferred
        < funds.subsistence_threshold {
        Err(DispatchError::Module(Error::NewContractNotFunded))
    } else {
        transfer_decision(
            stack.frames.len() > 1,
            false,
            stack.caller(),
            stack.top().account_id,
            stack.top().value_transferred,
            funds,
        )
    }
}

/// How the first frame is made, with an executable for it: it is not limited, so it gets all that
/// the meter holds then.
pub open spec fn first_frame_made<E: Executable>(
    frame_args: FrameArgs<E>,
    value_transferred: Balance,
    schedule: Schedule,
    before: GasMeter,
    after: GasMeter,
    outcome: Result<(Frame, E), ExecError>,
) -> bool {
    frame_made(frame_args, value_transferred, 0, schedule, before, after, outcome)
}

/// The call stack that holds nothing but its first frame.
pub open spec fn first_stack(
    frame: Frame,
    origin: AccountId,
    gas_meter: GasMeter,
    schedule: Schedule,
    config: Config,
    timestamp: Moment,
    block_number: BlockNumber,
    debug_message: Option<Seq<u8>>,
    extension: ExtensionView,
) -> StackView {
    StackView {
        origin,
        schedule,
        config,
        gas_meter,
        timestamp,
        block_number,
        account_counter: None,
        frames: seq![frame],
        debug_message,
        extension,
    }
}

/// What a transfer comes to, given whether the currency made it.
pub open spec fn transfer_outcome(made: bool) -> DispatchResult {
    if made {
        Ok(())
    } else {
        Err(DispatchError::Module(Error::TransferFailed))
    }
}

/// The next value of the account counter. Without a cached one, the stored one is taken.
pub open spec fn next_seed(cached: Option<u64>, stored_counter: u64) -> u64 {
    match cached {
        Some(current) => (current + 1) as u64,
        None => if stored_counter == u64::MAX {
            0
        } else {
            (stored_counter + 1) as u64
        },
    }
}

impl<'a> Stack<'a> {
    /// Creates a new call stack, with an executable for its first frame.
    ///
    /// `timestamp` and `block_number` are those of the current block.
    pub fn new<E: Executable>(
        args: FrameArgs<E>,
        origin: AccountId,
        gas_meter: &'a mut GasMeter,
        schedule: &'a Schedule,
        config: Config,
        value: Balance,
        timestamp: Moment,
        block_number: BlockNumber,
        debug_message: Option<&'a mut Vec<u8>>,
        extension: &'a mut StackExtension,
    ) -> (outcome: Result<(Stack<'a>, E), ExecError>)
        ensures
            exists|meter: GasMeter, made: Result<(Frame, E), ExecError>|
                #[trigger] first_frame_made(args, value, *schedule, *old(gas_meter), meter, made) && (
                match made {
                    Ok((frame, executable)) => outcome matches Ok((stack, x)) && {
                        &&& x == executable
                        &&& stack@ == first_stack(
                            frame,
                            origin,
                            meter,
                            *schedule,
                            config,
                            timestamp,
                            block_number,
                            match debug_message {
                                Some(buffer) => Some((*buffer)@),
                                None => None,
                            },
                            (*old(extension))@,
                        )
                        &&& *final(gas_meter) == *final(stack.gas_meter)
                        &&& *final(extension) == *final(stack.extension)
                        &&& stack.debug_message matches Some(b) ==> (debug_message matches Some(a)
                            && *final(b) == *final(a))
                    },
                    Err(error) => {
                        &&& outcome == Err::<(Stack<'a>, E), ExecError>(error)
                        &&& *final(gas_meter) == meter
                        &&& *final(extension) == *old(extension)
                        &&& debug_message matches Some(b) ==> *final(b) == *b
                    },
                }),
    {
        let made = Stack::new_frame(args, value, gas_meter, 0, schedule);
        assert(first_frame_made(args, value, *schedule, *old(gas_meter), *gas_meter, made));
        match made {
            Err(error) => Err(error),
            Ok((first_frame, executable)) => {
                let stack = Stack {
                    origin,
                    schedule,
                    config,
                    gas_meter,
                    timestamp,
                    block_number,
                    account_counter: None,
                    frames: FrameVec::new(),
                    first_frame,
                    debug_message,
                    extension,
                };
                assert(stack@.frames =~= seq![first_frame]);
                Ok((stack, executable))
            },
        }
    }

    /// Makes the frame of a contract whose code is at hand.
    fn open_frame(
        account_id: AccountId,
        info: AliveContractInfo,
        entry_point: ExportedFunction,
        target_id: Option<ChainId>,
        value_transferred: Balance,
        gas_meter: &mut GasMeter,
        gas_limit: Weight,
    ) -> (outcome: Result<Frame, ExecError>)
        ensures
            frame_opened(
                account_id,
                info,
                entry_point,
                target_id,
                value_transferred,
                gas_limit,
                *old(gas_meter),
                *final(gas_meter),
                outcome,
            ),
    {
        match gas_meter.nested(gas_limit) {
            Err(error) => Err(ExecError::caller(error)),
            Ok(nested_meter) => Ok(
                Frame {
                    account_id,
                    contract_info: CachedContract::Cached(info),
                    value_transferred,
                    entry_point,
                    nested_meter,
                    allows_reentry: true,
                    target_id,
                },
            ),
        }
    }

    /// Constructs a new frame, with an executable for it.
    ///
    /// This does not take `self` because when constructing the first frame `self` is
    /// not initialized, yet.
    pub fn new_frame<E: Executable>(
        frame_args: FrameArgs<E>,
        value_transferred: Balance,
        gas_meter: &mut GasMeter,
        gas_limit: Weight,
        schedule: &Schedule,
    ) -> (outcome: Result<(Frame, E), ExecError>)
        ensures
            frame_made(
                frame_args,
                value_transferred,
                gas_limit,
                *schedule,
                *old(gas_meter),
                *final(gas_meter),
                outcome,
            ),
    {
        let (account_id, info, executable, entry_point) = match frame_args {
            FrameArgs::Call { dest, cached_info, stored } => {
                let info: AliveContractInfo = match cached_info {
                    Some(info) => info,
                    None => match stored {
                        None => return Err(ExecError::refused(Error::ContractNotFound)),
                        Some(contract) => match contract.get_alive() {
                            None => return Err(ExecError::refused(Error::ContractIsTombstone)),
                            Some(info) => info,
                        },
                    },
                };
                let load = E::from_storage(info.code_hash, schedule, gas_meter);
                assert(E::loads(info.code_hash, *schedule, *old(gas_meter), *gas_meter, load));
                match load {
                    Err(error) => return Err(ExecError::caller(error)),
                    Ok(executable) => (dest, info, executable, ExportedFunction::Call),
                }
            },
            FrameArgs::Instantiate { account_id, created, executable } => match created {
                Err(error) => return Err(ExecError::caller(error)),
                Ok(info) => (account_id, info, executable, ExportedFunction::Constructor),
            },
        };
        let target_id: Option<ChainId> = executable.get_current_target();
        match Stack::open_frame(
            account_id,
            info,
            entry_point,
            target_id,
            value_transferred,
            gas_meter,
            gas_limit,
        ) {
            Err(error) => Err(error),
            Ok(frame) => Ok((frame, executable)),
        }
    }

    /// The frame at an index, counted from the first frame.
    fn frame_at(&self, index: usize) -> (frame: &Frame)
        requires
            index < self@.frames.len(),
        ensures
            *frame == self@.frames[index as int],
    {
        if index == 0 {
            &self.first_frame
        } else {
            self.frames.get(index - 1)
        }
    }

    /// The frame at an index, counted from the first frame, for reading and writing.
    fn frame_at_mut(&mut self, index: usize) -> (frame: &mut Frame)
        requires
            index < old(self)@.frames.len(),
        ensures
            *frame == old(self)@.frames[index as int],
            final(self)@ == (StackView {
                frames: old(self)@.frames.update(index as int, *final(frame)),
                ..old(self)@
            }),
            *final(final(self).gas_meter) == *final(old(self).gas_meter),
            *final(final(self).extension) == *final(old(self).extension),
            final(self).debug_message matches Some(b) ==> (old(self).debug_message matches Some(a)
                && *final(b) == *final(a)),
    {
        if index == 0 {
            &mut self.first_frame
        } else {
            self.frames.get_mut(index - 1)
        }
    }

    /// Reference to the current (top) frame.
    pub fn top_frame(&self) -> (frame: &Frame)
        ensures
            *frame == self@.top(),
    {
        self.frame_at(self.frames.len())
    }

    /// Mutable reference to the current (top) frame.
    pub fn top_frame_mut(&mut self) -> (frame: &mut Frame)
        ensures
            *frame == old(self)@.top(),
            final(self)@ == old(self)@.with_top(*final(frame)),
            *final(final(self).gas_meter) == *final(old(self).gas_meter),
            *final(final(self).extension) == *final(old(self).extension),
            final(self).debug_message matches Some(b) ==> (old(self).debug_message matches Some(a)
                && *final(b) == *final(a)),
    {
        let index: usize = self.frames.len();
        self.frame_at_mut(index)
    }

    /// All frames, from the top frame to the root frame.
    pub fn frames(&self) -> (frames: Vec<&Frame>)
        ensures
            frames@.len() == self@.frames.len(),
            forall|i: int|
                0 <= i < frames@.len() ==> *(#[trigger] frames@[i]) == self@.frames[self@.frames.len()
                    - 1 - i],
    {
        let mut frames: Vec<&Frame> = Vec::new();
        let mut index: usize = self.frames.len();
        frames.push(self.frame_at(index));
        while index > 0
            invariant
                index < self@.frames.len(),
                frames@.len() == self@.frames.len() - index,
                forall|i: int|
                    0 <= i < frames@.len() ==> *(#[trigger] frames@[i])
                        == self@.frames[self@.frames.len() - 1 - i],
            decreases index,
        {
            index = index - 1;
            frames.push(self.frame_at(index));
        }
        frames
    }

    /// Mutable reference to the frame that many frames below the top frame.
    pub fn frames_mut(&mut self, below_top: usize) -> (frame: &mut Frame)
        requires
            below_top < old(self)@.frames.len(),
        ensures
            *frame == old(self)@.frames[old(self)@.frames.len() - 1 - below_top],
            final(self)@ == (StackView {
                frames: old(self)@.frames.update(
                    old(self)@.frames.len() - 1 - below_top,
                    *final(frame),
                ),
                ..old(self)@
            }),
            *final(final(self).gas_meter) == *final(old(self).gas_meter),
            *final(final(self).extension) == *final(old(self).extension),
            final(self).debug_message matches Some(b) ==> (old(self).debug_message matches Some(a)
                && *final(b) == *final(a)),
    {
        let index: usize = self.frames.len() - below_top;
        self.frame_at_mut(index)
    }

    /// Whether the caller is the initiator of the call stack.
    pub fn caller_is_origin(&self) -> (is_origin: bool)
        ensures
            is_origin == (self@.frames.len() == 1),
    {
        self.frames.len() == 0
    }

    /// The account that called the current (top) frame.
    pub fn caller(&self) -> (account_id: &AccountId)
        ensures
            *account_id == self@.caller(),
    {
        if self.caller_is_origin() {
            &self.origin
        } else {
            &self.frame_at(self.frames.len() - 1).account_id
        }
    }

    /// Whether the current contract is on the stack multiple times.
    pub fn is_recursive(&self) -> (is_recursive: bool)
        ensures
            is_recursive == recursive(self@.frames),
    {
        let account_id: AccountId = self.top_frame().account_id;
        let mut index: usize = self.frames.len();
        while index > 0
            invariant
                index < self@.frames.len(),
                account_id == self@.top().account_id,
                forall|i: int|
                    index <= i < self@.frames.len() - 1 ==> (#[trigger] self@.frames[i]).account_id
                        != account_id,
            decreases index,
        {
            index = index - 1;
            if same_bytes(&self.frame_at(index).account_id, &account_id) {
                return true;
            }
        }
        false
    }

    /// Whether the specified contract allows to be reentered right now.
    pub fn allows_reentry(&self, id: &AccountId) -> (allowed: bool)
        ensures
            allowed == may_reenter(self@.frames, *id),
    {
        let mut index: usize = self.frames.len();
        loop
            invariant
                index < self@.frames.len(),
                forall|i: int|
                    index < i < self@.frames.len() && (#[trigger] self@.frames[i]).account_id == *id
                        ==> self@.frames[i].allows_reentry,
            decreases index,
        {
            let frame = self.frame_at(index);
            if same_bytes(&frame.account_id, id) && !frame.allows_reentry {
                return false;
            }
            if index == 0 {
                return true;
            }
            index = index - 1;
        }
    }

    /// Marks what the frames of an account have cached as stale.
    fn mark_stale(&mut self, account_id: &AccountId)
        ensures
            final(self)@ == (StackView {
                frames: marked_stale(old(self)@.frames, *account_id),
                ..old(self)@
            }),
            *final(final(self).gas_meter) == *final(old(self).gas_meter),
            *final(final(self).extension) == *final(old(self).extension),
            final(self).debug_message matches Some(b) ==> (old(self).debug_message matches Some(a)
                && *final(b) == *final(a)),
    {
        let ghost before = self@;
        let ghost marked = marked_stale(before.frames, *account_id);
        let last: usize = self.frames.len();
        let mut index: usize = 0;
        loop
            invariant
                index <= last,
                before == old(self)@,
                last == before.frames.len() - 1,
                marked == marked_stale(before.frames, *account_id),
                self@ == (StackView {
                    frames: marked.take(index as int) + before.frames.skip(index as int),
                    ..before
                }),
                *final(self.gas_meter) == *final(old(self).gas_meter),
                *final(self.extension) == *final(old(self).extension),
                self.debug_message matches Some(b) ==> (old(self).debug_message matches Some(a)
                    && *final(b) == *final(a)),
            decreases last - index,
        {
            if same_bytes(&self.frame_at(index).account_id, account_id) {
                self.frame_at_mut(index).contract_info = CachedContract::Invalidated;
            }
            assert(self@.frames =~= marked.take(index as int + 1) + before.frames.skip(
                index as int + 1,
            ));
            if index == last {
                assert(self@.frames =~= marked);
                return;
            }
            index = index + 1;
        }
    }

    /// What the topmost call of an account has cached, if it has.
    ///
    /// Instantiate frames do not count. Otherwise it would be possible to recursively call a
    /// contract from its own constructor.
    pub fn cached_info(&self, account_id: &AccountId) -> (info: Option<AliveContractInfo>)
        ensures
            info == cached_by_call(self@.frames, *account_id),
    {
        let mut index: usize = self.frames.len();
        assert(self@.frames.take(index as int + 1) =~= self@.frames);
        loop
            invariant
                index < self@.frames.len(),
                nearest_call(self@.frames, *account_id) == nearest_call(
                    self@.frames.take(index as int + 1),
                    *account_id,
                ),
            decreases index,
        {
            assert(self@.frames.take(index as int + 1).drop_last() =~= self@.frames.take(
                index as int,
            ));
            let frame = self.frame_at(index);
            if frame.entry_point == ExportedFunction::Call && same_bytes(
                &frame.account_id,
                account_id,
            ) {
                return match frame.contract_info {
                    CachedContract::Cached(info) => Some(info),
                    _ => None,
                };
            }
            if index == 0 {
                assert(nearest_call(self@.frames.take(0), *account_id) == -1);
                return None;
            }
            index = index - 1;
        }
    }

    /// Increments the cached account counter and returns the value to be used for the trie id.
    ///
    /// `stored_counter` is the counter that is stored. It counts only where none is cached.
    pub fn next_trie_seed(&mut self, stored_counter: u64) -> (seed: u64)
        requires
            old(self)@.account_counter != Some(u64::MAX),
        ensures
            seed == next_seed(old(self)@.account_counter, stored_counter),
            final(self)@ == (StackView { account_counter: Some(seed), ..old(self)@ }),
            *final(final(self).gas_meter) == *final(old(self).gas_meter),
            *final(final(self).extension) == *final(old(self).extension),
            final(self).debug_message matches Some(b) ==> (old(self).debug_message matches Some(a)
                && *final(b) == *final(a)),
    {
        let next: u64 = match self.account_counter {
            Some(current) => current + 1,
            None => Stack::initial_trie_seed(stored_counter),
        };
        self.account_counter = Some(next);
        next
    }

    /// The account seed to be used to instantiate the account counter cache.
    pub fn initial_trie_seed(stored_counter: u64) -> (seed: u64)
        ensures
            seed == next_seed(None, stored_counter),
    {
        stored_counter.wrapping_add(1)
    }

    /// What has to be stored before a subsequent nested frame is created, if one fits.
    pub fn prepare_push(&self) -> (effects: Result<Vec<Effect>, ExecError>)
        ensures
            has_room(self@) ==> (effects matches Ok(e) && e@ == push_effects(self@)),
            !has_room(self@) ==> effects == Err::<Vec<Effect>, ExecError>(
                refusal(Error::MaxCallDepthReached),
            ),
    {
        if self.frames.len() >= self.config.call_depth.frames() {
            return Err(ExecError::refused(Error::MaxCallDepthReached));
        }
        let mut effects: Vec<Effect> = Vec::new();
        let frame = self.top_frame();
        if let CachedContract::Cached(info) = frame.contract_info {
            if frame.entry_point == ExportedFunction::Call {
                effects.push(Effect::InsertContract(frame.account_id, info));
            }
        }
        assert(effects@ =~= push_effects(self@));
        Ok(effects)
    }

    /// Creates a subsequent nested frame, and returns the executable for it.
    ///
    /// What [`Stack::prepare_push`] asks for has to be stored before.
    pub fn push_frame<E: Executable>(
        &mut self,
        frame_args: FrameArgs<E>,
        value_transferred: Balance,
        gas_limit: Weight,
    ) -> (outcome: Result<E, ExecError>)
        ensures
            has_room(old(self)@) ==> frame_pushed(
                frame_args,
                value_transferred,
                gas_limit,
                old(self)@,
                final(self)@,
                outcome,
            ),
            !has_room(old(self)@) ==> {
                &&& outcome == Err::<E, ExecError>(refusal(Error::MaxCallDepthReached))
                &&& final(self)@ == old(self)@
            },
            *final(final(self).gas_meter) == *final(old(self).gas_meter),
            *final(final(self).extension) == *final(old(self).extension),
            final(self).debug_message matches Some(b) ==> (old(self).debug_message matches Some(a)
                && *final(b) == *final(a)),
    {
        if self.frames.len() >= self.config.call_depth.frames() {
            return Err(ExecError::refused(Error::MaxCallDepthReached));
        }
        let ghost before = self@;
        let schedule: &'a Schedule = self.schedule;
        let made = Stack::new_frame(
            frame_args,
            value_transferred,
            &mut self.top_frame_mut().nested_meter,
            gas_limit,
            schedule,
        );
        let ghost meter = self@.top().nested_meter;
        assert(self@ == before.with_top(Frame { nested_meter: meter, ..before.top() }));
        assert(frame_made(
            frame_args,
            value_transferred,
            gas_limit,
            before.schedule,
            before.top().nested_meter,
            meter,
            made,
        ));
        match made {
            Err(error) => Err(error),
            Ok((frame, executable)) => {
                let ghost paid = self@;
                self.frames.push(frame);
                assert(self@.frames =~= paid.frames.push(frame));
                Ok(executable)
            },
        }
    }

    /// What is due for the current (top) frame, before it is run.
    ///
    /// It is no part of what the contract does. So it stays even where the run fails.
    pub fn charge_rent<E: Executable>(&self, executable: &E) -> (effects: Vec<Effect>)
        ensures
            effects@ == rent_due(self@.top(), *executable),
    {
        let mut effects: Vec<Effect> = Vec::new();
        let frame = self.top_frame();
        if frame.entry_point == ExportedFunction::Call {
            effects.push(Effect::ChargeRent(frame.account_id, executable.occupied_storage()));
        }
        assert(effects@ =~= rent_due(self@.top(), *executable));
        effects
    }

    /// Removes the current (top) frame from the stack, and returns what has to be stored.
    ///
    /// This is called after running the current frame. It commits cached values to storage
    /// and invalidates all stale references to it that might exist further down the call stack.
    pub fn pop_frame(&mut self, persist: bool) -> (effects: Vec<Effect>)
        ensures
            final(self)@ == popped(old(self)@, persist),
            effects@ == pop_effects(old(self)@, persist),
            *final(final(self).gas_meter) == *final(old(self).gas_meter),
            *final(final(self).extension) == *final(old(self).extension),
            final(self).debug_message matches Some(b) ==> (old(self).debug_message matches Some(a)
                && *final(b) == *final(a)),
    {
        let ghost before = self@;
        let mut effects: Vec<Effect> = Vec::new();

        // Revert the account counter in case of a failed instantiation.
        if !persist && self.top_frame().entry_point == ExportedFunction::Constructor {
            if let Some(counter) = self.account_counter {
                self.account_counter = Some(counter.wrapping_sub(1));
            }
        }

        // A `None` means that we are returning from the first frame.
        match self.frames.pop() {
            Some(frame) => {
                assert(self@.frames =~= before.frames.drop_last());
                let account_id: AccountId = frame.account_id;
                let prev = self.top_frame_mut();
                let prev_account_id: AccountId = prev.account_id;
                prev.nested_meter.absorb_nested(frame.nested_meter);
                // Only gas counter changes are persisted in case of a failure.
                if !persist {
                    return effects;
                }
                if let CachedContract::Cached(contract) = frame.contract_info {
                    // The predecessor is the same contract: it takes the contract over. There is
                    // no other contract in between that could trigger a rollback.
                    if same_bytes(&prev_account_id, &account_id) {
                        self.top_frame_mut().contract_info = CachedContract::Cached(contract);
                        assert(self@.frames =~= popped(before, persist).frames);
                        return effects;
                    }
                    // The predecessor is a different contract: what others have cached is stale.
                    effects.push(Effect::InsertContract(account_id, contract));
                    self.mark_stale(&account_id);
                }
                assert(self@.frames =~= popped(before, persist).frames);
            },
            None => {
                // Write back to the root gas meter.
                let nested: GasMeter = GasMeter {
                    gas_limit: self.first_frame.nested_meter.gas_limit,
                    gas_left: self.first_frame.nested_meter.gas_left,
                };
                self.first_frame.nested_meter = GasMeter::default();
                self.gas_meter.absorb_nested(nested);
                assert(self@.frames =~= popped(before, persist).frames);
                // Only gas counter changes are persisted in case of a failure.
                if !persist {
                    return effects;
                }
                if let CachedContract::Cached(contract) = self.first_frame.contract_info {
                    effects.push(Effect::InsertContract(self.first_frame.account_id, contract));
                }
                if let Some(counter) = self.account_counter {
                    effects.push(Effect::SetAccountCounter(counter));
                }
            },
        }
        assert(effects@ =~= pop_effects(before, persist));
        effects
    }

    /// Decides on a transfer of some funds from `from` to `to`.
    ///
    /// We only allow for draining all funds of the sender if `allow_death` is
    /// specified as `true`. Otherwise, any transfer that would bring the sender below the
    /// subsistence threshold (for contracts) or the existential deposit (for plain accounts)
    /// results in an error. The latter is for the currency to find out.
    pub fn transfer(
        sender_is_contract: bool,
        allow_death: bool,
        from: &AccountId,
        to: &AccountId,
        value: Balance,
        funds: Funds,
    ) -> (decision: Result<Option<TransferRequest>, DispatchError>)
        ensures
            decision == transfer_decision(
                sender_is_contract,
                allow_death,
                *from,
                *to,
                value,
                funds,
            ),
    {
        if value == 0 {
            return Ok(None);
        }
        let existence: ExistenceRequirement = match (allow_death, sender_is_contract) {
            (true, _) => ExistenceRequirement::AllowDeath,
            (false, true) => {
                if funds.total_balance.saturating_sub(value) < funds.subsistence_threshold {
                    return Err(DispatchError::Module(Error::BelowSubsistenceThreshold));
                }
                ExistenceRequirement::KeepAlive
            },
            (false, false) => ExistenceRequirement::KeepAlive,
        };
        Ok(Some(TransferRequest { from: *from, to: *to, value, existence }))
    }

    /// What a transfer comes to, given whether the currency made it.
    pub fn transferred(made: bool) -> (outcome: DispatchResult)
        ensures
            outcome == transfer_outcome(made),
    {
        if made {
            Ok(())
        } else {
            Err(DispatchError::Module(Error::TransferFailed))
        }
    }

    /// Decides on the transfer as performed by a call or instantiate.
    ///
    /// `funds` are those of the caller of the top frame.
    pub fn initial_transfer(&self, funds: Funds) -> (decision: Result<
        Option<TransferRequest>,
        DispatchError,
    >)
        ensures
            decision == initial_transfer_decision(self@, funds),
    {
        let frame = self.top_frame();
        let value: Balance = frame.value_transferred;

        // If the value transferred to a new contract is less than the subsistence threshold
        // we can error out early. This avoids executing the constructor in cases where
        // we already know that the contract has too little balance.
        if frame.entry_point == ExportedFunction::Constructor && value
            < funds.subsistence_threshold {
            return Err(DispatchError::Module(Error::NewContractNotFunded));
        }
        Stack::transfer(
            !self.caller_is_origin(),
            false,
            self.caller(),
            &frame.account_id,
            value,
            funds,
        )
    }
}

/// A found frame is one of those that were searched, of the account, and no frame above it is.
pub proof fn lemma_nearest(frames: Seq<Frame>, account_id: AccountId)
    ensures
        -1 <= nearest(frames, account_id) < frames.len(),
        nearest(frames, account_id) >= 0 ==> frames[nearest(frames, account_id)].account_id
            == account_id,
        forall|j: int|
            nearest(frames, account_id) < j < frames.len() ==> (#[trigger] frames[j]).account_id
                != account_id,
    decreases frames.len(),
{
    if frames.len() > 0 && frames.last().account_id != account_id {
        lemma_nearest(frames.drop_last(), account_id);
        let below = frames.drop_last();
        assert forall|j: int| nearest(frames, account_id) < j < frames.len() implies (
        #[trigger] frames[j]).account_id != account_id by {
            if j < below.len() {
                assert(below[j].account_id != account_id);
            }
        }
    }
}

/// A found frame is one of those that were searched, and a call of the account.
pub proof fn lemma_nearest_call(frames: Seq<Frame>, account_id: AccountId)
    ensures
        -1 <= nearest_call(frames, account_id) < frames.len(),
        nearest_call(frames, account_id) >= 0 ==> {
            let frame = frames[nearest_call(frames, account_id)];
            frame.account_id == account_id && frame.entry_point == ExportedFunction::Call
        },
    decreases frames.len(),
{
    if frames.len() > 0 && !(frames.last().account_id == account_id
        && frames.last().entry_point == ExportedFunction::Call) {
        lemma_nearest_call(frames.drop_last(), account_id);
    }
}

/// What a pushed frame was made from.
pub proof fn lemma_pushed<E: Executable>(
    args: FrameArgs<E>,
    value: Balance,
    gas_limit: Weight,
    before: StackView,
    after: StackView,
    outcome: Result<E, ExecError>,
) -> (r: (GasMeter, Result<(Frame, E), ExecError>))
    requires
        frame_pushed(args, value, gas_limit, before, after, outcome),
    ensures
        frame_made(
            args,
            value,
            gas_limit,
            before.schedule,
            before.top().nested_meter,
            r.0,
            r.1,
        ),
        ({
            let paid = before.with_top(Frame { nested_meter: r.0, ..before.top() });
            match r.1 {
                Ok((frame, executable)) => {
                    &&& outcome == Ok::<E, ExecError>(executable)
                    &&& after == StackView { frames: paid.frames.push(frame), ..paid }
                },
                Err(error) => {
                    &&& outcome == Err::<E, ExecError>(error)
                    &&& after == paid
                },
            }
        }),
{
    choose|meter: GasMeter, made: Result<(Frame, E), ExecError>|
        #[trigger] frame_made(
            args,
            value,
            gas_limit,
            before.schedule,
            before.top().nested_meter,
            meter,
            made,
        ) && {
            let paid = before.with_top(Frame { nested_meter: meter, ..before.top() });
            match made {
                Ok((frame, executable)) => {
                    &&& outcome == Ok::<E, ExecError>(executable)
                    &&& after == StackView { frames: paid.frames.push(frame), ..paid }
                },
                Err(error) => {
                    &&& outcome == Err::<E, ExecError>(error)
                    &&& after == paid
                },
            }
        }
}

} // verus!
