//! The operations of a contract that is being executed.
//!
//! What the runtime, the gateway or the code itself has to do in the middle of an operation is
//! done by whoever drives the call stack. Such an operation has several steps. Each step says what
//! has to be done, and the next one takes the outcome of that.
use vstd::prelude::*;
use vstd::utf8::*;
use crate::codec::{call_action_id, call_id, encoded_bytes, extend_bytes};
use crate::executable::Executable;
use crate::extension::{
    abi_failure, is_gateway_call, is_gateway_transfer, method_name_bytes, module_name_bytes,
    names_failure, with_breakpoint, with_message, AbiReplies, ContractActionDesc, ExposedExt,
    ExtensionView, GatewayCall, GatewayTransfer,
};
use crate::frame::{effective, CachedContract, Frame, FrameArgs};
use crate::gas::GasMeter;
use crate::stack::{
    cached_by_call, frame_pushed, has_room, lemma_nearest_call, may_reenter, next_seed,
    push_effects, recursive, rent_due, transfer_decision, transfer_outcome, Stack, StackView,
};
use crate::types::{
    caller_error, foreign_reply, is_foreign_reply, refusal, same_bytes, AccountId,
    AliveContractInfo, Balance, BlockNumber, CallFlags, ChainId, CodeHash, ContractInfo, Digest,
    DispatchError, DispatchResult, Effect, Error, ErrorOrigin, Event, ExecError, ExecResult,
    ExecReturnValue, Funds, Moment, RunMode, Schedule, StorageKey, TransferRequest, TrieId, Weight,
};

verus! {

/// A call that was allowed, before its frame is there.
#[derive(Debug, PartialEq, Eq)]
pub struct PendingCall {
    /// The account that is called.
    pub dest: AccountId,
    /// The contract there, if the stack knows it. Else it has to be read from storage.
    pub cached_info: Option<AliveContractInfo>,
}

/// An instantiation that was allowed, before its frame is there.
pub struct PendingInstantiation<E> {
    /// The contract that instantiates the new one.
    pub sender: AccountId,
    /// The seed from which the trie id of the new contract is derived.
    pub trie_seed: u64,
    /// The executable of the new contract.
    pub executable: E,
}

/// The removal of a contract, while it is under way.
#[derive(Debug, PartialEq, Eq)]
pub struct Termination {
    /// The account of the contract.
    pub account_id: AccountId,
    /// The account that receives the contract's funds.
    pub beneficiary: AccountId,
    /// The contract, whose storage has to be queued for deletion.
    pub info: AliveContractInfo,
}

/// A write to the storage of a contract.
#[derive(Debug, PartialEq, Eq)]
pub struct ContractWrite {
    /// The number of the block in which it takes place.
    pub block_number: BlockNumber,
    /// The contract. What is known of it changes with the write.
    pub info: AliveContractInfo,
}

/// How a call is made.
#[derive(Debug, PartialEq, Eq)]
pub enum CallRoute {
    /// The call is answered at once.
    Answered(ExecResult),
    /// The call is for another chain. A message has to be produced.
    Remote(ChainId, Vec<u8>),
    /// The call is for this chain.
    Local(Vec<u8>),
}

/// The stack with the defense of the current contract against reentrance set.
pub open spec fn guarded(stack: StackView, allows_reentry: bool) -> StackView {
    stack.with_top(Frame { allows_reentry, ..stack.top() })
}

/// How a call starts.
///
/// The defense of the caller goes up first, so that a direct recursion is caught by it. It comes
/// down again where the call is refused: if the callee does not allow to be entered, or if there
/// are too many frames already.
pub open spec fn call_started(
    before: StackView,
    to: AccountId,
    allows_reentry: bool,
    after: StackView,
    outcome: Result<(Vec<Effect>, PendingCall), ExecError>,
) -> bool {
    let entry = guarded(before, allows_reentry);
    if !may_reenter(entry.frames, to) {
        &&& outcome == Err::<(Vec<Effect>, PendingCall), ExecError>(
            refusal(Error::ReentranceDenied),
        )
        &&& after == guarded(before, true)
    } else if !has_room(before) {
        &&& outcome == Err::<(Vec<Effect>, PendingCall), ExecError>(
            refusal(Error::MaxCallDepthReached),
        )
        &&& after == guarded(before, true)
    } else {
        &&& outcome matches Ok((effects, pending))
        &&& effects@ == push_effects(before)
        &&& pending == PendingCall { dest: to, cached_info: cached_by_call(before.frames, to) }
        &&& after == entry
    }
}

/// The description of an action, if one was loaded: the first one counts.
pub open spec fn description_of(
    descriptions: Seq<ContractActionDesc>,
    action_id: Digest,
) -> Option<ContractActionDesc>
    decreases descriptions.len(),
{
    if descriptions.len() == 0 {
        None
    } else if descriptions[0].action_id == action_id {
        Some(descriptions[0])
    } else {
        description_of(descriptions.drop_first(), action_id)
    }
}

/// The stack with another extension.
pub open spec fn with_extension(stack: StackView, extension: ExtensionView) -> StackView {
    StackView { extension, ..stack }
}

/// How a call is routed.
///
/// In a dry run, it is noted where the call would go, and the call is answered as one for another
/// chain. Otherwise it goes where the loaded description of it says.
pub open spec fn call_routed(
    before: StackView,
    action_id: Digest,
    to: AccountId,
    input_data: Vec<u8>,
    declared_target: Option<ChainId>,
    after: StackView,
    route: CallRoute,
) -> bool {
    if before.extension.run_mode == RunMode::Dry {
        &&& route matches CallRoute::Answered(output)
        &&& is_foreign_reply(output, input_data@)
        &&& after == with_extension(
            before,
            ExtensionView {
                descriptions: before.extension.descriptions.push(
                    ContractActionDesc { action_id, target_id: declared_target, to: Some(to) },
                ),
                ..before.extension
            },
        )
    } else {
        &&& after == before
        &&& match description_of(before.extension.descriptions, action_id) {
            None => route == CallRoute::Answered(
                Err(refusal(Error::TargetActionDescNotFound)),
            ),
            Some(description) => match description.target_id {
                Some(target_id) => route == CallRoute::Remote(target_id, input_data),
                None => route == CallRoute::Local(input_data),
            },
        }
    }
}

/// How an instantiation starts.
///
/// The code is loaded at the expense of the current contract, and the account counter goes up.
pub open spec fn instantiation_started<E: Executable>(
    before: StackView,
    stored_counter: u64,
    charged: GasMeter,
    load: Result<E, DispatchError>,
    after: StackView,
    outcome: Result<(Vec<Effect>, PendingInstantiation<E>), ExecError>,
) -> bool {
    let paid = before.with_top(Frame { nested_meter: charged, ..before.top() });
    match load {
        Err(error) => {
            &&& outcome == Err::<(Vec<Effect>, PendingInstantiation<E>), ExecError>(
                caller_error(error),
            )
            &&& after == paid
        },
        Ok(executable) => {
            let trie_seed = next_seed(before.account_counter, stored_counter);
            &&& after == StackView { account_counter: Some(trie_seed), ..paid }
            &&& if has_room(before) {
                &&& outcome matches Ok((effects, pending))
                &&& effects@ == push_effects(before)
                &&& pending == PendingInstantiation {
                    sender: before.top().account_id,
                    trie_seed,
                    executable,
                }
            } else {
                outcome == Err::<(Vec<Effect>, PendingInstantiation<E>), ExecError>(
                    refusal(Error::MaxCallDepthReached),
                )
            }
        },
    }
}

/// The stack after a message for another chain was kept, if the gateway produced it.
pub open spec fn message_kept(
    stack: StackView,
    message: Result<Vec<u8>, &'static str>,
) -> StackView {
    match message {
        Ok(bytes) => with_extension(stack, with_message(stack.extension, bytes)),
        Err(_) => stack,
    }
}

/// The stack after the contract of the current frame was read or written.
pub open spec fn with_info(stack: StackView, info: AliveContractInfo) -> StackView {
    stack.with_top(Frame { contract_info: CachedContract::Cached(info), ..stack.top() })
}

/// How an entry of storage is read: the message that goes with the read is kept, and the trie of
/// the current contract is named. Without a message, there is no entry.
pub open spec fn storage_read(
    before: StackView,
    message: Result<Vec<u8>, &'static str>,
    stored: Option<ContractInfo>,
    after: StackView,
    trie_id: Option<TrieId>,
) -> bool {
    match message {
        Err(_) => trie_id is None && after == before,
        Ok(_) => {
            &&& effective(before.top().contract_info, stored) matches Some(info)
            &&& trie_id == Some(info.trie_id)
            &&& after == with_info(message_kept(before, message), info)
        },
    }
}

/// How a write to storage starts: the message that goes with the write is kept, and the current
/// contract is named.
pub open spec fn write_started(
    before: StackView,
    message: Result<Vec<u8>, &'static str>,
    stored: Option<ContractInfo>,
    after: StackView,
    write: Result<ContractWrite, DispatchError>,
) -> bool {
    match message {
        Err(text) => {
            &&& write == Err::<ContractWrite, DispatchError>(DispatchError::Other(text))
            &&& after == before
        },
        Ok(_) => {
            &&& effective(before.top().contract_info, stored) matches Some(info)
            &&& write == Ok::<ContractWrite, DispatchError>(
                ContractWrite { block_number: before.block_number, info },
            )
            &&& after == with_info(message_kept(before, message), info)
        },
    }
}

/// How a write to storage ends: what it made of the current contract is noted.
pub open spec fn write_ended(
    before: StackView,
    info: AliveContractInfo,
    written: DispatchResult,
    after: StackView,
    outcome: DispatchResult,
) -> bool {
    &&& outcome == written
    &&& after == with_info(before, info)
}

/// How a call is entered: its frame is pushed, and what is due for it is named. Where there is no
/// frame for it, the defense of the caller comes down again.
pub open spec fn call_entered<E: Executable>(
    pending: PendingCall,
    stored: Option<ContractInfo>,
    value: Balance,
    gas_limit: Weight,
    before: StackView,
    after: StackView,
    outcome: Result<(Vec<Effect>, E), ExecError>,
) -> bool {
    if has_room(before) {
        exists|pushed: StackView, entry: Result<E, ExecError>|
            #[trigger] frame_pushed(
                FrameArgs::Call { dest: pending.dest, cached_info: pending.cached_info, stored },
                value,
                gas_limit,
                before,
                pushed,
                entry,
            ) && (match entry {
                Ok(executable) => {
                    &&& outcome matches Ok((effects, x))
                    &&& effects@ == rent_due(pushed.top(), executable)
                    &&& x == executable
                    &&& after == pushed
                },
                Err(error) => {
                    &&& outcome == Err::<(Vec<Effect>, E), ExecError>(error)
                    &&& after == guarded(pushed, true)
                },
            })
    } else {
        &&& outcome == Err::<(Vec<Effect>, E), ExecError>(refusal(Error::MaxCallDepthReached))
        &&& after == guarded(before, true)
    }
}

/// How an instantiation is entered: the frame of the new contract is pushed.
pub open spec fn instantiation_entered<E: Executable>(
    pending: PendingInstantiation<E>,
    account_id: AccountId,
    created: Result<AliveContractInfo, DispatchError>,
    endowment: Balance,
    gas_limit: Weight,
    before: StackView,
    after: StackView,
    outcome: Result<(AccountId, E), ExecError>,
) -> bool {
    if has_room(before) {
        exists|pushed: Result<E, ExecError>|
            #[trigger] frame_pushed(
                FrameArgs::Instantiate { account_id, created, executable: pending.executable },
                endowment,
                gas_limit,
                before,
                after,
                pushed,
            ) && outcome == (match pushed {
                Ok(executable) => Ok::<(AccountId, E), ExecError>((account_id, executable)),
                Err(error) => Err::<(AccountId, E), ExecError>(error),
            })
    } else {
        &&& outcome == Err::<(AccountId, E), ExecError>(refusal(Error::MaxCallDepthReached))
        &&& after == before
    }
}

/// How the removal of the current contract starts: it is no longer there for its own frame, unless
/// it is on the stack more than once.
pub open spec fn termination_started(
    before: StackView,
    beneficiary: AccountId,
    stored: Option<ContractInfo>,
    after: StackView,
    outcome: Result<Termination, DispatchError>,
) -> bool {
    if recursive(before.frames) {
        &&& outcome == Err::<Termination, DispatchError>(
            DispatchError::Module(Error::TerminatedWhileReentrant),
        )
        &&& after == before
    } else {
        &&& outcome matches Ok(termination)
        &&& termination.account_id == before.top().account_id
        &&& termination.beneficiary == beneficiary
        &&& Some(termination.info) == effective(before.top().contract_info, stored)
        &&& after == before.with_top(
            Frame { contract_info: CachedContract::Terminated, ..before.top() },
        )
    }
}

/// Whether the current contract can be given up for another one: not where it is on the stack more
/// than once.
pub open spec fn restoration_outcome(stack: StackView) -> DispatchResult {
    if recursive(stack.frames) {
        Err(DispatchError::Module(Error::TerminatedWhileReentrant))
    } else {
        Ok(())
    }
}

/// How the removal of a contract goes on after its storage was queued for deletion.
pub open spec fn termination_queued(
    termination: Termination,
    queued: DispatchResult,
    free_balance: Balance,
    decision: Result<Option<TransferRequest>, DispatchError>,
) -> bool {
    match queued {
        Err(error) => decision == Err::<Option<TransferRequest>, DispatchError>(error),
        Ok(_) => decision == transfer_decision(
            true,
            true,
            termination.account_id,
            termination.beneficiary,
            free_balance,
            Funds { total_balance: free_balance, subsistence_threshold: 0 },
        ),
    }
}

/// How the removal of a contract goes on after its funds were transferred.
pub open spec fn termination_transferred(
    termination: Termination,
    made: bool,
    outcome: Result<Vec<Effect>, DispatchError>,
) -> bool {
    match transfer_outcome(made) {
        Err(error) => outcome == Err::<Vec<Effect>, DispatchError>(error),
        Ok(_) => outcome matches Ok(effects) && effects@ == seq![
            Effect::RemoveContract(termination.account_id),
        ],
    }
}

/// How the removal of the current contract ends, given what became of its code.
pub open spec fn termination_ended(
    before: StackView,
    termination: Termination,
    charged: GasMeter,
    removed: DispatchResult,
    after: StackView,
    outcome: Result<Vec<Effect>, DispatchError>,
) -> bool {
    &&& after == before.with_top(Frame { nested_meter: charged, ..before.top() })
    &&& match removed {
        Err(error) => outcome == Err::<Vec<Effect>, DispatchError>(error),
        Ok(_) => outcome matches Ok(effects) && effects@ == seq![
            Effect::DepositEvent(
                Event::Terminated(termination.account_id, termination.beneficiary),
            ),
        ],
    }
}

/// The call into another chain that the gateway is asked for, if it can be asked.
pub open spec fn remote_call_asked(
    extension: ExtensionView,
    gas_limit: Weight,
    abi: AbiReplies,
    input_data: Vec<u8>,
    flags: CallFlags,
    message: Result<GatewayCall, ExecError>,
) -> bool {
    match names_failure(input_data@) {
        Some(text) if flags.module_dispatch => message matches Err(e) && e.origin
            == ErrorOrigin::Caller && (e.error matches DispatchError::Other(t) && t@ == text),
        _ => match abi_failure(abi) {
            Some(text) => message == Err::<GatewayCall, ExecError>(
                caller_error(DispatchError::Other(text)),
            ),
            None => message matches Ok(call) && is_gateway_call(
                extension,
                call,
                gas_limit,
                abi,
                input_data,
                if flags.module_dispatch {
                    encoded_bytes(module_name_bytes(input_data@))
                } else {
                    seq![]
                },
                if flags.module_dispatch {
                    encoded_bytes(method_name_bytes(input_data@))
                } else {
                    seq![]
                },
                None,
            ),
        },
    }
}

/// How a call into another chain is answered, once there is a message for it.
pub open spec fn remote_call_answered(
    before: StackView,
    message: Result<Vec<u8>, &'static str>,
    input_data: Vec<u8>,
    target_id: ChainId,
    after: StackView,
    output: ExecResult,
) -> bool {
    match message {
        Err(text) => {
            &&& output == Err::<ExecReturnValue, ExecError>(
                caller_error(DispatchError::Other(text)),
            )
            &&& after == before
        },
        Ok(bytes) => {
            &&& is_foreign_reply(output, input_data@)
            &&& after == with_extension(
                before,
                with_breakpoint(
                    with_message(before.extension, bytes),
                    before.top().target_id,
                    Some(target_id),
                ),
            )
        },
    }
}

/// The transfer on another chain that the gateway is asked for, if it can be asked.
pub open spec fn remote_transfer_asked(
    extension: ExtensionView,
    abi: AbiReplies,
    message: Result<GatewayTransfer, DispatchError>,
) -> bool {
    match abi_failure(abi) {
        Some(text) => message == Err::<GatewayTransfer, DispatchError>(DispatchError::Other(text)),
        None => message matches Ok(transfer) && is_gateway_transfer(extension, transfer, abi),
    }
}

/// What a transfer on another chain comes to, given what the gateway made of it.
pub open spec fn remote_transfer_outcome(
    message: Result<Vec<u8>, &'static str>,
) -> DispatchResult {
    match message {
        Ok(_) => Ok(()),
        Err(text) => Err(DispatchError::Other(text)),
    }
}

/// The event that carries the data of a contract.
pub open spec fn emitted_event(
    extension: ExtensionView,
    topics: Vec<Digest>,
    data: Vec<u8>,
) -> Effect {
    Effect::DepositIndexedEvent(
        topics,
        Event::VolatileVMEmitted(extension.escrow_account, extension.requester, data),
    )
}

/// How the rent allowance of the current contract is set.
pub open spec fn allowance_set(
    before: StackView,
    rent_allowance: Balance,
    stored: Option<ContractInfo>,
    after: StackView,
) -> bool {
    &&& effective(before.top().contract_info, stored) matches Some(info)
    &&& after == with_info(before, AliveContractInfo { rent_allowance, ..info })
}

/// How the rent allowance of the current contract is read.
pub open spec fn allowance_read(
    before: StackView,
    stored: Option<ContractInfo>,
    after: StackView,
    rent_allowance: Balance,
) -> bool {
    &&& effective(before.top().contract_info, stored) matches Some(info)
    &&& rent_allowance == info.rent_allowance
    &&& after == with_info(before, info)
}

/// How a text is appended to the debug buffer, if there is one.
pub open spec fn debug_appended(
    before: StackView,
    text: Seq<char>,
    after: StackView,
    enabled: bool,
) -> bool {
    &&& enabled == (before.debug_message is Some)
    &&& after == StackView {
        debug_message: match before.debug_message {
            Some(buffer) => Some(buffer + encode_utf8(text)),
            None => None,
        },
        ..before
    }
}

impl<'a> Stack<'a> {
    /// Starts a call into the given account of this chain.
    ///
    /// What has to be stored comes first. Then [`Stack::enter_call`] goes on.
    pub fn regular_call(&mut self, to: &AccountId, allows_reentry: bool) -> (outcome: Result<
        (Vec<Effect>, PendingCall),
        ExecError,
    >)
        ensures
            call_started(old(self)@, *to, allows_reentry, final(self)@, outcome),
            *final(final(self).gas_meter) == *final(old(self).gas_meter),
            *final(final(self).extension) == *final(old(self).extension),
            final(self).debug_message matches Some(b) ==> (old(self).debug_message matches Some(a)
                && *final(b) == *final(a)),
    {
        let ghost before = self@;
        // Before pushing the new frame: protect the caller contract against reentrancy attacks.
        // It is important to do this before calling `allows_reentry` so that a direct recursion
        // is caught by it.
        self.top_frame_mut().allows_reentry = allows_reentry;
        let ghost entry = self@;
        assert(entry == guarded(before, allows_reentry));
        assert(push_effects(entry) == push_effects(before));
        proof {
            lemma_guarded_cache(before, allows_reentry, *to);
        }
        let refused: ExecError = if !self.allows_reentry(to) {
            ExecError::refused(Error::ReentranceDenied)
        } else {
            // Instantiate frames are ignored in the search for a cached contract: calling not
            // fully constructed contracts is not allowed.
            let cached_info: Option<AliveContractInfo> = self.cached_info(to);
            match self.prepare_push() {
                Ok(effects) => {
                    return Ok((effects, PendingCall { dest: *to, cached_info }));
                },
                Err(error) => error,
            }
        };
        // We need to make sure to reset `allows_reentry` even on failure.
        self.leave_call();
        assert(self@.frames =~= guarded(before, true).frames);
        Err(refused)
    }

    /// Creates the frame of a call, and returns what is due for it and the executable that has to
    /// be run in it.
    ///
    /// `stored` is what storage holds for the callee. What is due comes first, and then the run.
    /// When the run is over, [`Stack::leave_call`] ends the call.
    pub fn enter_call<E: Executable>(
        &mut self,
        pending: PendingCall,
        stored: Option<ContractInfo>,
        value: Balance,
        gas_limit: Weight,
    ) -> (outcome: Result<(Vec<Effect>, E), ExecError>)
        ensures
            call_entered(
                pending,
                stored,
                value,
                gas_limit,
                old(self)@,
                final(self)@,
                outcome,
            ),
            *final(final(self).gas_meter) == *final(old(self).gas_meter),
            *final(final(self).extension) == *final(old(self).extension),
            final(self).debug_message matches Some(b) ==> (old(self).debug_message matches Some(a)
                && *final(b) == *final(a)),
    {
        let entry = self.push_frame(
            FrameArgs::Call { dest: pending.dest, cached_info: pending.cached_info, stored },
            value,
            gas_limit,
        );
        let ghost pushed = self@;
        match entry {
            Ok(executable) => {
                let effects: Vec<Effect> = self.charge_rent(&executable);
                Ok((effects, executable))
            },
            Err(error) => {
                // We need to make sure to reset `allows_reentry` even on failure.
                self.leave_call();
                Err(error)
            },
        }
    }

    /// Ends a call, after its frame is gone: protection is on a per call basis.
    pub fn leave_call(&mut self)
        ensures
            final(self)@ == guarded(old(self)@, true),
            *final(final(self).gas_meter) == *final(old(self).gas_meter),
            *final(final(self).extension) == *final(old(self).extension),
            final(self).debug_message matches Some(b) ==> (old(self).debug_message matches Some(a)
                && *final(b) == *final(a)),
    {
        self.top_frame_mut().allows_reentry = true;
    }

    /// Decides how a call into the given account is made.
    ///
    /// `declared_target` is the chain that is declared for the account, if one is.
    pub fn call(
        &mut self,
        to: &AccountId,
        value: Balance,
        input_data: Vec<u8>,
        declared_target: Option<ChainId>,
    ) -> (route: CallRoute)
        requires
            old(self)@.extension.run_mode != RunMode::Post,
            input_data@.len() + 36 + old(self)@.config.balance.bytes() <= u32::MAX,
        ensures
            call_routed(
                old(self)@,
                call_action_id(old(self)@.config, *to, value, input_data@),
                *to,
                input_data,
                declared_target,
                final(self)@,
                route,
            ),
            *final(final(self).gas_meter) == *final(old(self).gas_meter),
            *final(final(self).extension) == *final(old(self).extension),
            final(self).debug_message matches Some(b) ==> (old(self).debug_message matches Some(a)
                && *final(b) == *final(a)),
    {
        let action_id: Digest = call_id(&self.config, to, value, &input_data);
        self.route_call(action_id, to, input_data, declared_target)
    }

    /// Decides how the call with the given action id is made.
    pub fn route_call(
        &mut self,
        action_id: Digest,
        to: &AccountId,
        input_data: Vec<u8>,
        declared_target: Option<ChainId>,
    ) -> (route: CallRoute)
        requires
            old(self)@.extension.run_mode != RunMode::Post,
        ensures
            call_routed(
                old(self)@,
                action_id,
                *to,
                input_data,
                declared_target,
                final(self)@,
                route,
            ),
            *final(final(self).gas_meter) == *final(old(self).gas_meter),
            *final(final(self).extension) == *final(old(self).extension),
            final(self).debug_message matches Some(b) ==> (old(self).debug_message matches Some(a)
                && *final(b) == *final(a)),
    {
        match self.extension.run_mode {
            RunMode::Dry => {
                self.extension.preloaded_action_descriptions.push(
                    ContractActionDesc { action_id, target_id: declared_target, to: Some(*to) },
                );
                CallRoute::Answered(foreign_reply(input_data))
            },
            _ => match self.find_description(&action_id) {
                None => CallRoute::Answered(
                    Err(ExecError::refused(Error::TargetActionDescNotFound)),
                ),
                Some(description) => match description.target_id {
                    Some(target_id) => CallRoute::Remote(target_id, input_data),
                    None => CallRoute::Local(input_data),
                },
            },
        }
    }

    /// The description of an action, if one was loaded.
    fn find_description(&self, action_id: &Digest) -> (found: Option<ContractActionDesc>)
        ensures
            found == description_of(self@.extension.descriptions, *action_id),
    {
        let ghost all = self@.extension.descriptions;
        let mut i: usize = 0;
        assert(all.skip(0) =~= all);
        while i < self.extension.preloaded_action_descriptions.len()
            invariant
                all == self@.extension.descriptions,
                i <= all.len(),
                description_of(all, *action_id) == description_of(all.skip(i as int), *action_id),
            decreases all.len() - i,
        {
            let description: ContractActionDesc = self.extension.preloaded_action_descriptions[i];
            if same_bytes(&description.action_id, action_id) {
                return Some(description);
            }
            assert(all.skip(i as int).drop_first() =~= all.skip(i as int + 1));
            i = i + 1;
        }
        None
    }

    /// Makes the call that the gateway is asked to turn into a message.
    ///
    /// With module dispatch, the input starts with the names of the module and the method. `abi`
    /// holds the translations of the values that [`crate::extension::StackExtension::abi_values`]
    /// names. [`Stack::message_produced`] goes on.
    pub fn call_produce_messages_instead(
        &self,
        gas_limit: Weight,
        abi: AbiReplies,
        input_data: Vec<u8>,
        flags: CallFlags,
    ) -> (message: Result<GatewayCall, ExecError>)
        ensures
            remote_call_asked(self@.extension, gas_limit, abi, input_data, flags, message),
    {
        let message = if flags.module_dispatch {
            self.extension.call_module(gas_limit, abi, input_data, None)
        } else {
            self.extension.call(gas_limit, abi, input_data, None)
        };
        match message {
            Ok(call) => Ok(call),
            Err(text) => Err(ExecError::caller(DispatchError::Other(text))),
        }
    }

    /// Keeps the message of a call into an account of another chain, and answers the call.
    ///
    /// `message` is what the gateway made of the call.
    pub fn message_produced(
        &mut self,
        message: Result<Vec<u8>, &'static str>,
        input_data: Vec<u8>,
        target_id: ChainId,
    ) -> (output: ExecResult)
        ensures
            remote_call_answered(
                old(self)@,
                message,
                input_data,
                target_id,
                final(self)@,
                output,
            ),
            *final(final(self).gas_meter) == *final(old(self).gas_meter),
            *final(final(self).extension) == *final(old(self).extension),
            final(self).debug_message matches Some(b) ==> (old(self).debug_message matches Some(a)
                && *final(b) == *final(a)),
    {
        match message {
            Err(text) => Err(ExecError::caller(DispatchError::Other(text))),
            Ok(bytes) => {
                self.extension.add_message(bytes);
                let prev_target: Option<ChainId> = self.top_frame().target_id;
                self.extension.maybe_round_breakpoint(prev_target, Some(target_id));
                foreign_reply(input_data)
            },
        }
    }

    /// Starts the instantiation of a contract from the given code.
    ///
    /// `stored_counter` is the account counter that is stored. What has to be stored comes first.
    /// Then the new contract has to be derived from the sender, the salt and the seed, and
    /// [`Stack::enter_instantiate`] goes on.
    pub fn instantiate<E: Executable>(&mut self, code_hash: CodeHash, stored_counter: u64) -> (outcome:
        Result<(Vec<Effect>, PendingInstantiation<E>), ExecError>)
        requires
            old(self)@.account_counter != Some(u64::MAX),
        ensures
            exists|charged: GasMeter, load: Result<E, DispatchError>|
                #[trigger] E::loads(
                    code_hash,
                    old(self)@.schedule,
                    old(self)@.top().nested_meter,
                    charged,
                    load,
                ) && instantiation_started(
                    old(self)@,
                    stored_counter,
                    charged,
                    load,
                    final(self)@,
                    outcome,
                ),
            *final(final(self).gas_meter) == *final(old(self).gas_meter),
            *final(final(self).extension) == *final(old(self).extension),
            final(self).debug_message matches Some(b) ==> (old(self).debug_message matches Some(a)
                && *final(b) == *final(a)),
    {
        let ghost before = self@;
        let schedule: &'a Schedule = self.schedule;
        let load = E::from_storage(code_hash, schedule, self.gas_meter());
        let ghost charged = self@.top().nested_meter;
        assert(E::loads(code_hash, before.schedule, before.top().nested_meter, charged, load));
        assert(self@ == before.with_top(Frame { nested_meter: charged, ..before.top() }));
        match load {
            Err(error) => Err(ExecError::caller(error)),
            Ok(executable) => {
                let trie_seed: u64 = self.next_trie_seed(stored_counter);
                assert(push_effects(self@) == push_effects(before));
                match self.prepare_push() {
                    Err(error) => Err(error),
                    Ok(effects) => Ok(
                        (
                            effects,
                            PendingInstantiation {
                                sender: self.top_frame().account_id,
                                trie_seed,
                                executable,
                            },
                        ),
                    ),
                }
            },
        }
    }

    /// Creates the frame of an instantiation, and returns the account of the new contract and the
    /// executable that has to be run in the frame.
    ///
    /// `account_id` is the account that was derived for the new contract, and `created` the
    /// contract itself, or why it could not be made. The account is returned together with what
    /// the run returns.
    pub fn enter_instantiate<E: Executable>(
        &mut self,
        pending: PendingInstantiation<E>,
        account_id: AccountId,
        created: Result<AliveContractInfo, DispatchError>,
        endowment: Balance,
        gas_limit: Weight,
    ) -> (outcome: Result<(AccountId, E), ExecError>)
        ensures
            instantiation_entered(
                pending,
                account_id,
                created,
                endowment,
                gas_limit,
                old(self)@,
                final(self)@,
                outcome,
            ),
            *final(final(self).gas_meter) == *final(old(self).gas_meter),
            *final(final(self).extension) == *final(old(self).extension),
            final(self).debug_message matches Some(b) ==> (old(self).debug_message matches Some(a)
                && *final(b) == *final(a)),
    {
        let pushed = self.push_frame(
            FrameArgs::Instantiate { account_id, created, executable: pending.executable },
            endowment,
            gas_limit,
        );
        match pushed {
            Ok(executable) => Ok((self.top_frame().account_id, executable)),
            Err(error) => Err(error),
        }
    }

    /// Starts to remove the current contract in favour of the beneficiary.
    ///
    /// `stored` is what storage holds for the contract. Its storage has to be queued for deletion,
    /// and [`Stack::terminate_queued`] goes on.
    pub fn terminate(&mut self, beneficiary: &AccountId, stored: Option<ContractInfo>) -> (outcome:
        Result<Termination, DispatchError>)
        requires
            !recursive(old(self)@.frames) ==> effective(
                old(self)@.top().contract_info,
                stored,
            ) is Some,
        ensures
            termination_started(old(self)@, *beneficiary, stored, final(self)@, outcome),
            *final(final(self).gas_meter) == *final(old(self).gas_meter),
            *final(final(self).extension) == *final(old(self).extension),
            final(self).debug_message matches Some(b) ==> (old(self).debug_message matches Some(a)
                && *final(b) == *final(a)),
    {
        if self.is_recursive() {
            return Err(DispatchError::Module(Error::TerminatedWhileReentrant));
        }
        let frame = self.top_frame_mut();
        let account_id: AccountId = frame.account_id;
        let info: AliveContractInfo = frame.terminate(stored);
        Ok(Termination { account_id, beneficiary: *beneficiary, info })
    }

    /// Goes on with the removal of the current contract after its storage was queued for deletion.
    ///
    /// All of its free balance goes to the beneficiary. When that is transferred, or when there is
    /// nothing to transfer, [`Stack::terminate_transferred`] goes on.
    pub fn terminate_queued(
        termination: &Termination,
        queued: DispatchResult,
        free_balance: Balance,
    ) -> (decision: Result<Option<TransferRequest>, DispatchError>)
        ensures
            termination_queued(*termination, queued, free_balance, decision),
    {
        match queued {
            Err(error) => Err(error),
            Ok(_) => Stack::transfer(
                true,
                true,
                &termination.account_id,
                &termination.beneficiary,
                free_balance,
                Funds { total_balance: free_balance, subsistence_threshold: 0 },
            ),
        }
    }

    /// Goes on with the removal of the current contract after its funds were transferred.
    ///
    /// What storage holds for it goes, and [`Stack::terminate_removed`] ends the removal.
    pub fn terminate_transferred(termination: &Termination, made: bool) -> (outcome: Result<
        Vec<Effect>,
        DispatchError,
    >)
        ensures
            termination_transferred(*termination, made, outcome),
    {
        match Stack::transferred(made) {
            Err(error) => Err(error),
            Ok(_) => {
                let mut effects: Vec<Effect> = Vec::new();
                effects.push(Effect::RemoveContract(termination.account_id));
                Ok(effects)
            },
        }
    }

    /// Ends the removal of the current contract: its code loses a user, and it is reported.
    pub fn terminate_removed<E: Executable>(&mut self, termination: Termination) -> (outcome: Result<
        Vec<Effect>,
        DispatchError,
    >)
        ensures
            exists|charged: GasMeter, removed: DispatchResult|
                #[trigger] E::loses_user(
                    termination.info.code_hash,
                    old(self)@.top().nested_meter,
                    charged,
                    removed,
                ) && termination_ended(
                    old(self)@,
                    termination,
                    charged,
                    removed,
                    final(self)@,
                    outcome,
                ),
            *final(final(self).gas_meter) == *final(old(self).gas_meter),
            *final(final(self).extension) == *final(old(self).extension),
            final(self).debug_message matches Some(b) ==> (old(self).debug_message matches Some(a)
                && *final(b) == *final(a)),
    {
        let ghost before = self@;
        let removed: DispatchResult = E::remove_user(
            termination.info.code_hash,
            self.gas_meter(),
        );
        let ghost charged = self@.top().nested_meter;
        assert(E::loses_user(
            termination.info.code_hash,
            before.top().nested_meter,
            charged,
            removed,
        ));
        match removed {
            Err(error) => Err(error),
            Ok(_) => {
                let mut effects: Vec<Effect> = Vec::new();
                effects.push(
                    Effect::DepositEvent(
                        Event::Terminated(termination.account_id, termination.beneficiary),
                    ),
                );
                Ok(effects)
            },
        }
    }

    /// Restores the given destination contract sacrificing the current one.
    ///
    /// This fails if the current contract is on the call stack more than once. Contracts are not
    /// evicted for want of rent, so there is nothing to restore otherwise.
    pub fn restore_to(
        &mut self,
        _dest: AccountId,
        _code_hash: CodeHash,
        _rent_allowance: Balance,
        _delta: Vec<StorageKey>,
    ) -> (outcome: DispatchResult)
        ensures
            outcome == restoration_outcome(old(self)@),
            final(self)@ == old(self)@,
            *final(final(self).gas_meter) == *final(old(self).gas_meter),
            *final(final(self).extension) == *final(old(self).extension),
            final(self).debug_message matches Some(b) ==> (old(self).debug_message matches Some(a)
                && *final(b) == *final(a)),
    {
        if self.is_recursive() {
            return Err(DispatchError::Module(Error::TerminatedWhileReentrant));
        }
        Ok(())
    }

    /// Makes the transfer that the gateway is asked to turn into a message.
    ///
    /// `abi` holds the translations of the values that
    /// [`crate::extension::StackExtension::abi_values`] names. [`Stack::transfer_produced`] goes
    /// on.
    pub fn produce_transfer(&self, abi: AbiReplies) -> (message: Result<
        GatewayTransfer,
        DispatchError,
    >)
        ensures
            remote_transfer_asked(self@.extension, abi, message),
    {
        match self.extension.transfer(abi) {
            Ok(transfer) => Ok(transfer),
            Err(text) => Err(DispatchError::Other(text)),
        }
    }

    /// Keeps the message of a transfer.
    ///
    /// `message` is what the gateway made of the transfer.
    pub fn transfer_produced(&mut self, message: Result<Vec<u8>, &'static str>) -> (outcome:
        DispatchResult)
        ensures
            final(self)@ == message_kept(old(self)@, message),
            outcome == remote_transfer_outcome(message),
            *final(final(self).gas_meter) == *final(old(self).gas_meter),
            *final(final(self).extension) == *final(old(self).extension),
            final(self).debug_message matches Some(b) ==> (old(self).debug_message matches Some(a)
                && *final(b) == *final(a)),
    {
        match message {
            Ok(bytes) => {
                self.extension.add_message(bytes);
                Ok(())
            },
            Err(text) => Err(DispatchError::Other(text)),
        }
    }

    /// Keeps the message of a read of storage, and says in which trie the entry has to be read.
    ///
    /// `message` is what the gateway made of the read: without it, there is no entry. `stored` is
    /// what storage holds for the current contract.
    pub fn get_storage(
        &mut self,
        message: Result<Vec<u8>, &'static str>,
        stored: Option<ContractInfo>,
    ) -> (trie_id: Option<TrieId>)
        requires
            message is Ok ==> effective(old(self)@.top().contract_info, stored) is Some,
        ensures
            storage_read(old(self)@, message, stored, final(self)@, trie_id),
            *final(final(self).gas_meter) == *final(old(self).gas_meter),
            *final(final(self).extension) == *final(old(self).extension),
            final(self).debug_message matches Some(b) ==> (old(self).debug_message matches Some(a)
                && *final(b) == *final(a)),
    {
        match message {
            Err(_) => None,
            Ok(bytes) => {
                self.extension.add_message(bytes);
                Some(self.top_frame_mut().contract_info(stored).trie_id)
            },
        }
    }

    /// Keeps the message of a write to storage, and says what has to be written to.
    ///
    /// `message` is what the gateway made of the write. `stored` is what storage holds for the
    /// current contract. [`Stack::storage_written`] goes on.
    pub fn set_storage(
        &mut self,
        message: Result<Vec<u8>, &'static str>,
        stored: Option<ContractInfo>,
    ) -> (write: Result<ContractWrite, DispatchError>)
        requires
            message is Ok ==> effective(old(self)@.top().contract_info, stored) is Some,
        ensures
            write_started(old(self)@, message, stored, final(self)@, write),
            *final(final(self).gas_meter) == *final(old(self).gas_meter),
            *final(final(self).extension) == *final(old(self).extension),
            final(self).debug_message matches Some(b) ==> (old(self).debug_message matches Some(a)
                && *final(b) == *final(a)),
    {
        match message {
            Err(text) => Err(DispatchError::Other(text)),
            Ok(bytes) => {
                self.extension.add_message(bytes);
                let info: AliveContractInfo = *self.top_frame_mut().contract_info(stored);
                Ok(ContractWrite { block_number: self.block_number, info })
            },
        }
    }

    /// Takes note of what a write to storage made of the current contract.
    pub fn storage_written(&mut self, info: AliveContractInfo, written: DispatchResult) -> (outcome:
        DispatchResult)
        ensures
            write_ended(old(self)@, info, written, final(self)@, outcome),
            *final(final(self).gas_meter) == *final(old(self).gas_meter),
            *final(final(self).extension) == *final(old(self).extension),
            final(self).debug_message matches Some(b) ==> (old(self).debug_message matches Some(a)
                && *final(b) == *final(a)),
    {
        self.top_frame_mut().contract_info = CachedContract::Cached(info);
        written
    }

    /// The account id of the current contract.
    pub fn address(&self) -> (account_id: &AccountId)
        ensures
            *account_id == self@.top().account_id,
    {
        &self.top_frame().account_id
    }

    /// The value transferred along with this call or as endowment.
    pub fn value_transferred(&self) -> (value: Balance)
        ensures
            value == self@.top().value_transferred,
    {
        self.top_frame().value_transferred
    }

    /// The timestamp of the current block.
    pub fn now(&self) -> (moment: &Moment)
        ensures
            *moment == self@.timestamp,
    {
        &self.timestamp
    }

    /// The current block number.
    pub fn block_number(&self) -> (number: BlockNumber)
        ensures
            number == self@.block_number,
    {
        self.block_number
    }

    /// The schedule used by the current call.
    pub fn schedule(&self) -> (schedule: &Schedule)
        ensures
            *schedule == self@.schedule,
    {
        self.schedule
    }

    /// The nested gas meter.
    pub fn gas_meter(&mut self) -> (meter: &mut GasMeter)
        ensures
            *meter == old(self)@.top().nested_meter,
            final(self)@ == old(self)@.with_top(
                Frame { nested_meter: *final(meter), ..old(self)@.top() },
            ),
            *final(final(self).gas_meter) == *final(old(self).gas_meter),
            *final(final(self).extension) == *final(old(self).extension),
            final(self).debug_message matches Some(b) ==> (old(self).debug_message matches Some(a)
                && *final(b) == *final(a)),
    {
        &mut self.top_frame_mut().nested_meter
    }

    /// The event that carries the data of a contract, under the given topics.
    ///
    /// There should not be any duplicates in `topics`.
    pub fn deposit_event(&self, topics: Vec<Digest>, data: Vec<u8>) -> (effect: Effect)
        ensures
            effect == emitted_event(self@.extension, topics, data),
    {
        Effect::DepositIndexedEvent(
            topics,
            Event::VolatileVMEmitted(
                self.extension.get_escrow_account(),
                self.extension.get_requester(),
                data,
            ),
        )
    }

    /// Sets the rent allowance of the current contract.
    ///
    /// `stored` is what storage holds for the contract.
    pub fn set_rent_allowance(&mut self, rent_allowance: Balance, stored: Option<ContractInfo>)
        requires
            effective(old(self)@.top().contract_info, stored) is Some,
        ensures
            allowance_set(old(self)@, rent_allowance, stored, final(self)@),
            *final(final(self).gas_meter) == *final(old(self).gas_meter),
            *final(final(self).extension) == *final(old(self).extension),
            final(self).debug_message matches Some(b) ==> (old(self).debug_message matches Some(a)
                && *final(b) == *final(a)),
    {
        self.top_frame_mut().contract_info(stored).rent_allowance = rent_allowance;
    }

    /// The rent allowance of the current contract.
    ///
    /// `stored` is what storage holds for the contract.
    pub fn rent_allowance(&mut self, stored: Option<ContractInfo>) -> (rent_allowance: Balance)
        requires
            effective(old(self)@.top().contract_info, stored) is Some,
        ensures
            allowance_read(old(self)@, stored, final(self)@, rent_allowance),
            *final(final(self).gas_meter) == *final(old(self).gas_meter),
            *final(final(self).extension) == *final(old(self).extension),
            final(self).debug_message matches Some(b) ==> (old(self).debug_message matches Some(a)
                && *final(b) == *final(a)),
    {
        self.top_frame_mut().contract_info(stored).rent_allowance
    }

    /// Appends a string to the debug buffer.
    ///
    /// It is added as-is without any additional new line. Returns whether debug message recording
    /// is enabled. Without it, nothing is appended.
    pub fn append_debug_buffer(&mut self, msg: &str) -> (enabled: bool)
        ensures
            debug_appended(old(self)@, msg@, final(self)@, enabled),
            *final(final(self).gas_meter) == *final(old(self).gas_meter),
            *final(final(self).extension) == *final(old(self).extension),
            final(self).debug_message matches Some(b) ==> (old(self).debug_message matches Some(a)
                && *final(b) == *final(a)),
    {
        if let Some(buffer) = &mut self.debug_message {
            extend_bytes(buffer, msg.as_bytes());
            true
        } else {
            false
        }
    }
}

/// The defense against reentrance does not count where a cached contract is looked for.
proof fn lemma_guarded_cache(stack: StackView, allows_reentry: bool, account_id: AccountId)
    requires
        stack.frames.len() >= 1,
    ensures
        cached_by_call(guarded(stack, allows_reentry).frames, account_id) == cached_by_call(
            stack.frames,
            account_id,
        ),
{
    let frames = stack.frames;
    let entry = guarded(stack, allows_reentry).frames;
    assert(entry.drop_last() =~= frames.drop_last());
    lemma_nearest_call(frames.drop_last(), account_id);
}

} // verus!
