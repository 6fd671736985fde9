//! How a frame is run.
//!
//! The code of a frame is executed by whoever drives the call stack. A run starts with
//! [`Stack::run`], or with [`Stack::run_call`] or [`Stack::run_instantiate`] for the first frame.
//! Each step names the effects that have to be performed, and then what has to be done next. The
//! outcome of that is handed to the next step, until the run returns.
use vstd::prelude::*;
use crate::codec::encode_array;
use crate::config::Config;
use crate::executable::{Executable, ExportedFunction};
use crate::extension::{ExtensionView, StackExtension};
use crate::frame::{effective, CachedContract, Frame, FrameArgs};
use crate::gas::GasMeter;
use crate::stack::{
    first_frame_made, first_stack, initial_transfer_decision, pop_effects, popped, rent_due,
    transfer_outcome, Stack, StackView,
};
use crate::types::{
    caller_error, foreign_reply, is_foreign_reply, keeps_changes, refusal, AccountId,
    AliveContractInfo, Balance, BlockNumber, ContractInfo, DispatchError, Effect, Error,
    ErrorOrigin, Event, ExecError, ExecResult, ExecReturnValue, Funds, Moment, Schedule,
    TransferRequest,
};

verus! {

/// What has to be done next in a run.
#[derive(Debug, PartialEq, Eq)]
pub enum RunAction {
    /// The currency has to make a transfer. [`Stack::run_transferred`] goes on.
    Transfer(TransferRequest),
    /// The function has to be executed. [`Stack::run_executed`] goes on.
    Execute(ExportedFunction),
    /// The run is over.
    Return(ExecResult),
}

/// A step of a run.
#[derive(Debug, PartialEq, Eq)]
pub struct RunStep {
    /// What has to be done to the state of the runtime first.
    pub effects: Vec<Effect>,
    /// What has to be done then.
    pub action: RunAction,
}

/// How a run ends: the transaction is closed, and then what the popped frame leaves is stored.
pub open spec fn settle_effects(stack: StackView, output: ExecResult) -> Seq<Effect> {
    seq![
        if keeps_changes(output) {
            Effect::CommitTransaction
        } else {
            Effect::RollbackTransaction
        },
    ] + pop_effects(stack, keeps_changes(output))
}

/// Whether a step ends the run, after the effects that it started with.
pub open spec fn run_settled(
    before: StackView,
    lead: Seq<Effect>,
    output: ExecResult,
    after: StackView,
    step: RunStep,
) -> bool {
    &&& step.action == RunAction::Return(output)
    &&& step.effects@ == lead + settle_effects(before, output)
    &&& after == popped(before, keeps_changes(output))
}

/// Whether a step goes on with the run, and leaves the stack as it is.
pub open spec fn run_goes_on(
    before: StackView,
    lead: Seq<Effect>,
    action: RunAction,
    after: StackView,
    step: RunStep,
) -> bool {
    &&& step.action == action
    &&& step.effects@ == lead
    &&& after == before
}

/// The first step of a run.
///
/// What is due for the frame comes first. Then a transaction is opened. Code that has to run on
/// another chain is not run here. Else every call or instantiate optionally transfers balance
/// before the code is executed.
pub open spec fn run_started<E: Executable>(
    before: StackView,
    due: Seq<Effect>,
    executable: E,
    funds: Funds,
    after: StackView,
    step: RunStep,
) -> bool {
    let lead = due + seq![Effect::BeginTransaction];
    match executable.target() {
        Some(gateway_id) => exists|output: ExecResult|
            #[trigger] is_foreign_reply(output, gateway_id@) && run_settled(
                before,
                lead,
                output,
                after,
                step,
            ),
        None => match initial_transfer_decision(before, funds) {
            Err(error) => run_settled(
                before,
                lead,
                Err::<ExecReturnValue, ExecError>(caller_error(error)),
                after,
                step,
            ),
            Ok(None) => run_goes_on(
                before,
                lead,
                RunAction::Execute(before.top().entry_point),
                after,
                step,
            ),
            Ok(Some(request)) => run_goes_on(
                before,
                lead,
                RunAction::Transfer(request),
                after,
                step,
            ),
        },
    }
}

/// The first step of a call stack that holds nothing but its first frame: what is due for the frame
/// comes first.
pub open spec fn first_run_started<E: Executable>(
    frame: Frame,
    executable: E,
    origin: AccountId,
    gas_meter: GasMeter,
    schedule: Schedule,
    config: Config,
    timestamp: Moment,
    block_number: BlockNumber,
    debug_message: Option<Seq<u8>>,
    extension: ExtensionView,
    funds: Funds,
    after: StackView,
    step: RunStep,
) -> bool {
    run_started(
        first_stack(
            frame,
            origin,
            gas_meter,
            schedule,
            config,
            timestamp,
            block_number,
            debug_message,
            extension,
        ),
        rent_due(frame, executable),
        executable,
        funds,
        after,
        step,
    )
}

/// The step of a run after the transfer that it started with.
///
/// Where the currency did not make the transfer, the run is over. Else the code is executed.
pub open spec fn run_continued(
    before: StackView,
    made: bool,
    after: StackView,
    step: RunStep,
) -> bool {
    match transfer_outcome(made) {
        Ok(_) => run_goes_on(
            before,
            seq![],
            RunAction::Execute(before.top().entry_point),
            after,
            step,
        ),
        Err(error) => run_settled(
            before,
            seq![],
            Err::<ExecReturnValue, ExecError>(caller_error(error)),
            after,
            step,
        ),
    }
}

/// The outcome of an execution, as the one who asked for it sees it: its errors are the callee's.
pub open spec fn seen_by_caller(output: ExecResult) -> ExecResult {
    match output {
        Ok(value) => Ok(value),
        Err(e) => Err(ExecError { error: e.error, origin: ErrorOrigin::Callee }),
    }
}

/// Whether an execution completes the instantiation of a contract.
pub open spec fn completes_instantiation(stack: StackView, output: ExecResult) -> bool {
    keeps_changes(output) && stack.top().entry_point == ExportedFunction::Constructor
        && stack.top().contract_info != CachedContract::Terminated
}

/// The last step of a run.
///
/// A contract that was instantiated is reported, and it is not allowed that it removed itself.
pub open spec fn run_ended(
    before: StackView,
    output: ExecResult,
    stored: Option<ContractInfo>,
    after: StackView,
    step: RunStep,
) -> bool {
    if completes_instantiation(before, output) {
        &&& effective(before.top().contract_info, stored) matches Some(info)
        &&& run_settled(
            before.with_top(
                Frame { contract_info: CachedContract::Cached(info), ..before.top() },
            ),
            seq![
                Effect::DepositEvent(Event::Instantiated(before.caller(), before.top().account_id)),
            ],
            output,
            after,
            step,
        )
    } else if keeps_changes(output) && before.top().entry_point == ExportedFunction::Constructor {
        run_settled(
            before,
            seq![],
            Err::<ExecReturnValue, ExecError>(refusal(Error::TerminatedInConstructor)),
            after,
            step,
        )
    } else {
        run_settled(before, seq![], seen_by_caller(output), after, step)
    }
}

impl<'a> Stack<'a> {
    /// Ends the run of the current (top) frame.
    ///
    /// All changes performed by the contract are executed under a storage transaction. This allows
    /// for roll back on error. Changes to the cached contract are committed or rolled back when
    /// popping the frame.
    fn settle(&mut self, effects: Vec<Effect>, output: ExecResult) -> (step: RunStep)
        ensures
            run_settled(old(self)@, effects@, output, final(self)@, step),
            *final(final(self).gas_meter) == *final(old(self).gas_meter),
            *final(final(self).extension) == *final(old(self).extension),
            final(self).debug_message matches Some(b) ==> (old(self).debug_message matches Some(a)
                && *final(b) == *final(a)),
    {
        let ghost before = self@;
        let ghost lead = effects@;
        let mut effects: Vec<Effect> = effects;
        let success: bool = match &output {
            Ok(value) => value.is_success(),
            Err(_) => false,
        };
        effects.push(
            if success {
                Effect::CommitTransaction
            } else {
                Effect::RollbackTransaction
            },
        );
        let mut more: Vec<Effect> = self.pop_frame(success);
        effects.append(&mut more);
        assert(effects@ =~= lead + settle_effects(before, output));
        RunStep { effects, action: RunAction::Return(output) }
    }

    /// Starts to run the current (top) frame.
    ///
    /// This can be either a call or an instantiate. `funds` are those of its caller.
    pub fn run<E: Executable>(&mut self, executable: &E, funds: Funds) -> (step: RunStep)
        ensures
            run_started(old(self)@, seq![], *executable, funds, final(self)@, step),
            *final(final(self).gas_meter) == *final(old(self).gas_meter),
            *final(final(self).extension) == *final(old(self).extension),
            final(self).debug_message matches Some(b) ==> (old(self).debug_message matches Some(a)
                && *final(b) == *final(a)),
    {
        self.start(Vec::new(), executable, funds)
    }

    /// Starts to run the current (top) frame, after what is due for it.
    fn start<E: Executable>(
        &mut self,
        due: Vec<Effect>,
        executable: &E,
        funds: Funds,
    ) -> (step: RunStep)
        ensures
            run_started(old(self)@, due@, *executable, funds, final(self)@, step),
            *final(final(self).gas_meter) == *final(old(self).gas_meter),
            *final(final(self).extension) == *final(old(self).extension),
            final(self).debug_message matches Some(b) ==> (old(self).debug_message matches Some(a)
                && *final(b) == *final(a)),
    {
        let ghost lead = due@ + seq![Effect::BeginTransaction];
        let mut effects: Vec<Effect> = due;
        effects.push(Effect::BeginTransaction);
        assert(effects@ =~= lead);

        // A target is set only for code that cannot be executed locally.
        if let Some(gateway_id) = executable.get_current_target() {
            let output: ExecResult = foreign_reply(encode_array(&gateway_id));
            assert(is_foreign_reply(output, gateway_id@));
            return self.settle(effects, output);
        }

        // Every call or instantiate also optionally transfers balance.
        match self.initial_transfer(funds) {
            Err(error) => self.settle(effects, Err(ExecError::caller(error))),
            Ok(None) => {
                let entry_point: ExportedFunction = self.top_frame().entry_point;
                RunStep { effects, action: RunAction::Execute(entry_point) }
            },
            Ok(Some(request)) => RunStep { effects, action: RunAction::Transfer(request) },
        }
    }

    /// Goes on with the run of the current (top) frame after the transfer that it started with.
    ///
    /// `made` says whether the currency made the transfer.
    pub fn run_transferred(&mut self, made: bool) -> (step: RunStep)
        ensures
            run_continued(old(self)@, made, final(self)@, step),
            *final(final(self).gas_meter) == *final(old(self).gas_meter),
            *final(final(self).extension) == *final(old(self).extension),
            final(self).debug_message matches Some(b) ==> (old(self).debug_message matches Some(a)
                && *final(b) == *final(a)),
    {
        match Stack::transferred(made) {
            Ok(_) => {
                let entry_point: ExportedFunction = self.top_frame().entry_point;
                RunStep { effects: Vec::new(), action: RunAction::Execute(entry_point) }
            },
            Err(error) => self.settle(Vec::new(), Err(ExecError::caller(error))),
        }
    }

    /// Ends the run of the current (top) frame after its code was executed.
    ///
    /// `stored` is what storage holds for the account of the frame.
    pub fn run_executed(&mut self, output: ExecResult, stored: Option<ContractInfo>) -> (step:
        RunStep)
        requires
            completes_instantiation(old(self)@, output) ==> effective(
                old(self)@.top().contract_info,
                stored,
            ) is Some,
        ensures
            run_ended(old(self)@, output, stored, final(self)@, step),
            *final(final(self).gas_meter) == *final(old(self).gas_meter),
            *final(final(self).extension) == *final(old(self).extension),
            final(self).debug_message matches Some(b) ==> (old(self).debug_message matches Some(a)
                && *final(b) == *final(a)),
    {
        let mut effects: Vec<Effect> = Vec::new();
        let value: ExecReturnValue = match output {
            Ok(value) => value,
            Err(e) => {
                return self.settle(
                    effects,
                    Err(ExecError { error: e.error, origin: ErrorOrigin::Callee }),
                );
            },
        };

        // Additional work needs to be performed in case of an instantiation.
        if value.is_success() && self.top_frame().entry_point == ExportedFunction::Constructor {
            // It is not allowed to terminate a contract inside its constructor.
            if let CachedContract::Terminated = self.top_frame().contract_info {
                return self.settle(
                    effects,
                    Err(ExecError::refused(Error::TerminatedInConstructor)),
                );
            }
            let frame = self.top_frame_mut();
            let account_id: AccountId = frame.account_id;
            let info: AliveContractInfo = frame.invalidate(stored);
            frame.contract_info = CachedContract::Cached(info);

            // Deposit an instantiation event.
            effects.push(Effect::DepositEvent(Event::Instantiated(*self.caller(), account_id)));
            assert(effects@ =~= seq![
                Effect::DepositEvent(
                    Event::Instantiated(old(self)@.caller(), old(self)@.top().account_id),
                ),
            ]);
        }
        self.settle(effects, Ok(value))
    }

    /// Creates a new call stack by calling into `dest`, and starts to run it.
    ///
    /// `stored` is what storage holds for `dest`, and `funds` are those of `origin`.
    ///
    /// `debug_message` should only ever be set to `Some` when executing as an RPC because
    /// it adds allocations and could be abused to drive the runtime into an OOM panic.
    pub fn run_call<E: Executable>(
        origin: AccountId,
        dest: AccountId,
        stored: Option<ContractInfo>,
        gas_meter: &'a mut GasMeter,
        schedule: &'a Schedule,
        config: Config,
        value: Balance,
        timestamp: Moment,
        block_number: BlockNumber,
        debug_message: Option<&'a mut Vec<u8>>,
        extension: &'a mut StackExtension,
        funds: Funds,
    ) -> (outcome: Result<(Stack<'a>, E, RunStep), ExecError>)
        ensures
            exists|meter: GasMeter, made: Result<(Frame, E), ExecError>|
                #[trigger] first_frame_made(
                    FrameArgs::Call { dest, cached_info: None, stored },
                    value,
                    *schedule,
                    *old(gas_meter),
                    meter,
                    made,
                ) && (match made {
                    Ok((frame, executable)) => outcome matches Ok((stack, x, step)) && {
                        &&& x == executable
                        &&& first_run_started(
                            frame,
                            executable,
                            origin,
                            meter,
                            *schedule,
                            config,
                            timestamp,
                            block_number,
                            match debug_message {
                                Some(buffer) => Some((*buffer)@),
                                None => None,
                            },
                            (*old(extension))@,
                            funds,
                            stack@,
                            step,
                        )
                        &&& *final(gas_meter) == *final(stack.gas_meter)
                        &&& *final(extension) == *final(stack.extension)
                        &&& stack.debug_message matches Some(b) ==> (debug_message matches Some(a)
                            && *final(b) == *final(a))
                    },
                    Err(error) => {
                        &&& outcome == Err::<(Stack<'a>, E, RunStep), ExecError>(error)
                        &&& *final(gas_meter) == meter
                        &&& *final(extension) == *old(extension)
                        &&& debug_message matches Some(b) ==> *final(b) == *b
                    },
                }),
    {
        match Stack::new(
            FrameArgs::Call { dest, cached_info: None, stored },
            origin,
            gas_meter,
            schedule,
            config,
            value,
            timestamp,
            block_number,
            debug_message,
            extension,
        ) {
            Err(error) => Err(error),
            Ok((mut stack, executable)) => {
                let due: Vec<Effect> = stack.charge_rent(&executable);
                let step: RunStep = stack.start(due, &executable, funds);
                Ok((stack, executable, step))
            },
        }
    }

    /// Creates a new call stack by instantiating a new contract, and starts to run it.
    ///
    /// `account_id` is the account that was derived for the contract from the origin, the code and
    /// the salt. `created` is the contract itself, whose trie id was derived from the account and
    /// [`Stack::initial_trie_seed`]. The account is returned along with what starts the run, to be
    /// returned together with what the run returns.
    pub fn run_instantiate<E: Executable>(
        origin: AccountId,
        executable: E,
        account_id: AccountId,
        created: Result<AliveContractInfo, DispatchError>,
        gas_meter: &'a mut GasMeter,
        schedule: &'a Schedule,
        config: Config,
        value: Balance,
        timestamp: Moment,
        block_number: BlockNumber,
        debug_message: Option<&'a mut Vec<u8>>,
        extension: &'a mut StackExtension,
        funds: Funds,
    ) -> (outcome: Result<(Stack<'a>, E, AccountId, RunStep), ExecError>)
        ensures
            exists|meter: GasMeter, made: Result<(Frame, E), ExecError>|
                #[trigger] first_frame_made(
                    FrameArgs::Instantiate { account_id, created, executable },
                    value,
                    *schedule,
                    *old(gas_meter),
                    meter,
                    made,
                ) && (match made {
                    Ok((frame, _)) => outcome matches Ok((stack, x, id, step)) && {
                        &&& x == executable
                        &&& id == account_id
                        &&& first_run_started(
                            frame,
                            executable,
                            origin,
                            meter,
                            *schedule,
                            config,
                            timestamp,
                            block_number,
                            match debug_message {
                                Some(buffer) => Some((*buffer)@),
                                None => None,
                            },
                            (*old(extension))@,
                            funds,
                            stack@,
                            step,
                        )
                        &&& *final(gas_meter) == *final(stack.gas_meter)
                        &&& *final(extension) == *final(stack.extension)
                        &&& stack.debug_message matches Some(b) ==> (debug_message matches Some(a)
                            && *final(b) == *final(a))
                    },
                    Err(error) => {
                        &&& outcome == Err::<(Stack<'a>, E, AccountId, RunStep), ExecError>(error)
                        &&& *final(gas_meter) == meter
                        &&& *final(extension) == *old(extension)
                        &&& debug_message matches Some(b) ==> *final(b) == *b
                    },
                }),
    {
        match Stack::new(
            FrameArgs::Instantiate { account_id, created, executable },
            origin,
            gas_meter,
            schedule,
            config,
            value,
            timestamp,
            block_number,
            debug_message,
            extension,
        ) {
            Err(error) => Err(error),
            Ok((mut stack, executable)) => {
                let account_id: AccountId = stack.top_frame().account_id;
                let step: RunStep = stack.run(&executable, funds);
                Ok((stack, executable, account_id, step))
            },
        }
    }
}

} // verus!
