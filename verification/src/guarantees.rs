//! What the operations are for: what their results satisfy, in terms of what they were given.
use vstd::prelude::*;
use crate::executable::{Executable, ExportedFunction};
use crate::ext::with_info;
use crate::frame::{effective, CachedContract, Frame, FrameArgs};
use crate::gas::{absorbed, meter_nested, GasMeter};
use crate::run::{run_continued, run_ended, run_settled, run_started, RunAction, RunStep};
use crate::stack::{
    first_frame_made, frame_entered, frame_made, frame_pushed, lemma_pushed, pop_effects, popped,
    transfer_decision, StackView,
};
use crate::types::{
    AccountId, AliveContractInfo, Balance, ContractInfo, DispatchError, Effect, Error, ErrorOrigin,
    Event, ExecError, ExecResult, ExecReturnValue, ExistenceRequirement, Funds, Schedule,
    TransferRequest, Weight,
};
use crate::world::{lemma_performed_append, lemma_performed_one, performed_all, World};

verus! {

/// A nested meter holds exactly what was asked for, and the meter that pays for it keeps the rest.
/// Zero asks for all. Where more is asked for than is left, nothing happens.
pub proof fn law_nested_meter_holds_what_was_asked_for(
    before: GasMeter,
    amount: Weight,
    after: GasMeter,
    outcome: Result<GasMeter, DispatchError>,
)
    requires
        meter_nested(before, amount, after, outcome),
    ensures
        outcome is Ok <==> amount <= before.gas_left,
        outcome matches Ok(nested) ==> {
            &&& nested.gas_left == nested.gas_limit
            &&& amount != 0 ==> nested.gas_left == amount
            &&& amount == 0 ==> nested.gas_left == before.gas_left
            &&& after.gas_left == before.gas_left - nested.gas_left
            &&& after.gas_limit == before.gas_limit
        },
        outcome matches Err(error) ==> error == DispatchError::Module(Error::OutOfGas) && after
            == before,
{
}

/// What a nested meter did not use comes back, and what it used is gone: however much that is, the
/// meter that paid for it ends with as much less.
pub proof fn law_only_used_gas_is_gone(
    before: GasMeter,
    amount: Weight,
    paid: GasMeter,
    nested: GasMeter,
    used: u64,
)
    requires
        meter_nested(before, amount, paid, Ok::<GasMeter, DispatchError>(nested)),
        used <= nested.gas_left,
    ensures
        ({
            let left = GasMeter { gas_left: (nested.gas_left - used) as u64, ..nested };
            let after = absorbed(paid, left);
            after.gas_left == before.gas_left - used && after.gas_limit == before.gas_limit
        }),
{
}

/// A meter takes back exactly what is left in another one, as far as it can count.
pub proof fn law_meter_takes_back_what_is_left(meter: GasMeter, nested: GasMeter)
    ensures
        absorbed(meter, nested).gas_limit == meter.gas_limit,
        meter.gas_left + nested.gas_left <= u64::MAX ==> absorbed(meter, nested).gas_left
            == meter.gas_left + nested.gas_left,
        meter.gas_left + nested.gas_left > u64::MAX ==> absorbed(meter, nested).gas_left
            == u64::MAX,
{
}

/// The frame of an instantiation is made for the contract that was created, with the executable
/// that was given, and gets exactly the gas that its limit asks for. It is not made only where the
/// contract could not be created, or where less gas is left than the limit. Nothing is charged
/// then.
pub proof fn law_constructor_frame_is_made<E: Executable>(
    account_id: AccountId,
    created: Result<AliveContractInfo, DispatchError>,
    executable: E,
    value: Balance,
    gas_limit: Weight,
    schedule: Schedule,
    before: GasMeter,
    after: GasMeter,
    outcome: Result<(Frame, E), ExecError>,
)
    requires
        frame_made(
            FrameArgs::Instantiate { account_id, created, executable },
            value,
            gas_limit,
            schedule,
            before,
            after,
            outcome,
        ),
    ensures
        outcome is Ok <==> created is Ok && gas_limit <= before.gas_left,
        outcome matches Ok((frame, x)) ==> {
            &&& x == executable
            &&& frame.account_id == account_id
            &&& created matches Ok(info) && frame.contract_info == CachedContract::Cached(info)
            &&& frame.value_transferred == value
            &&& frame.entry_point == ExportedFunction::Constructor
            &&& frame.allows_reentry
            &&& frame.target_id == executable.target()
            &&& frame.nested_meter.gas_limit == frame.nested_meter.gas_left
            &&& gas_limit != 0 ==> frame.nested_meter.gas_left == gas_limit
            &&& gas_limit == 0 ==> after.gas_left == 0
            &&& after.gas_left + frame.nested_meter.gas_left == before.gas_left
            &&& after.gas_limit == before.gas_limit
        },
        outcome matches Err(e) ==> {
            &&& e.origin == ErrorOrigin::Caller
            &&& e.error == (match created {
                Err(error) => error,
                Ok(_) => DispatchError::Module(Error::OutOfGas),
            })
            &&& after == before
        },
{
}

/// The frame of a call is made for the contract that is cached, or else for the one that is stored.
/// Without one there is no frame, and nothing is charged. With one, its code is loaded. If that
/// succeeds, the frame gets exactly the gas that its limit asks for, out of what is left then.
pub proof fn law_call_frame_is_made<E: Executable>(
    dest: AccountId,
    cached_info: Option<AliveContractInfo>,
    stored: Option<ContractInfo>,
    info: AliveContractInfo,
    value: Balance,
    gas_limit: Weight,
    schedule: Schedule,
    before: GasMeter,
    after: GasMeter,
    outcome: Result<(Frame, E), ExecError>,
)
    requires
        frame_made(
            FrameArgs::<E>::Call { dest, cached_info, stored },
            value,
            gas_limit,
            schedule,
            before,
            after,
            outcome,
        ),
    ensures
        cached_info is None && stored is None ==> after == before && outcome == Err::<
            (Frame, E),
            ExecError,
        >(
            ExecError {
                error: DispatchError::Module(Error::ContractNotFound),
                origin: ErrorOrigin::Caller,
            },
        ),
        cached_info is None && stored is Some && stored->0 is Tombstone ==> after == before
            && outcome == Err::<(Frame, E), ExecError>(
            ExecError {
                error: DispatchError::Module(Error::ContractIsTombstone),
                origin: ErrorOrigin::Caller,
            },
        ),
        cached_info == Some(info) || (cached_info is None && stored == Some(
            ContractInfo::Alive(info),
        )) ==> exists|charged: GasMeter, load: Result<E, DispatchError>|
            #[trigger] E::loads(info.code_hash, schedule, before, charged, load) && {
                &&& outcome is Ok <==> load is Ok && gas_limit <= charged.gas_left
                &&& outcome matches Ok((frame, x)) ==> {
                    &&& load == Ok::<E, DispatchError>(x)
                    &&& frame.account_id == dest
                    &&& frame.contract_info == CachedContract::Cached(info)
                    &&& frame.value_transferred == value
                    &&& frame.entry_point == ExportedFunction::Call
                    &&& frame.allows_reentry
                    &&& frame.target_id == x.target()
                    &&& frame.nested_meter.gas_limit == frame.nested_meter.gas_left
                    &&& gas_limit != 0 ==> frame.nested_meter.gas_left == gas_limit
                    &&& gas_limit == 0 ==> after.gas_left == 0
                    &&& after.gas_left + frame.nested_meter.gas_left == charged.gas_left
                    &&& after.gas_limit == charged.gas_limit
                }
                &&& outcome matches Err(e) ==> {
                    &&& e.origin == ErrorOrigin::Caller
                    &&& e.error == (match load {
                        Err(error) => error,
                        Ok(_) => DispatchError::Module(Error::OutOfGas),
                    })
                    &&& after == charged
                }
            },
{
    if cached_info == Some(info) || (cached_info is None && stored == Some(
        ContractInfo::Alive(info),
    )) {
        let (charged, load) = choose|charged: GasMeter, load: Result<E, DispatchError>|
            #[trigger] E::loads(info.code_hash, schedule, before, charged, load)
                && frame_entered(
                dest,
                info,
                ExportedFunction::Call,
                load,
                value,
                gas_limit,
                charged,
                after,
                outcome,
            );
        assert(E::loads(info.code_hash, schedule, before, charged, load));
    }
}

/// The first frame takes all of the gas: nothing stays behind in the meter that paid for it. The
/// frame of an instantiation gets what was in there, and is made wherever the contract could be
/// created.
pub proof fn law_first_frame_takes_all_gas<E: Executable>(
    args: FrameArgs<E>,
    value: Balance,
    schedule: Schedule,
    before: GasMeter,
    after: GasMeter,
    outcome: Result<(Frame, E), ExecError>,
)
    requires
        first_frame_made(args, value, schedule, before, after, outcome),
    ensures
        frame_made(args, value, 0, schedule, before, after, outcome),
        outcome matches Ok((frame, _)) ==> after.gas_left == 0 && frame.value_transferred == value,
        args matches FrameArgs::Instantiate { account_id, created, executable } ==> {
            &&& outcome is Ok <==> created is Ok
            &&& outcome matches Ok((frame, x)) ==> {
                &&& x == executable
                &&& frame.account_id == account_id
                &&& frame.nested_meter.gas_left == before.gas_left
            }
        },
{
    match args {
        FrameArgs::Instantiate { account_id, created, executable } => {
            law_constructor_frame_is_made(
                account_id,
                created,
                executable,
                value,
                0,
                schedule,
                before,
                after,
                outcome,
            );
        },
        FrameArgs::Call { dest, cached_info, stored } => {
            if let Ok((frame, _)) = outcome {
                law_call_frame_is_made(
                    dest,
                    cached_info,
                    stored,
                    frame.contract_info->Cached_0,
                    value,
                    0,
                    schedule,
                    before,
                    after,
                    outcome,
                );
            }
        },
    }
}

/// A frame that is pushed is put on top of the others, and its gas comes from the meter of the
/// frame below. Nothing else changes. Where it is not made, nothing is put on top.
pub proof fn law_frame_is_put_on_top<E: Executable>(
    args: FrameArgs<E>,
    value: Balance,
    gas_limit: Weight,
    before: StackView,
    after: StackView,
    outcome: Result<E, ExecError>,
)
    requires
        before.frames.len() >= 1,
        frame_pushed(args, value, gas_limit, before, after, outcome),
    ensures
        exists|meter: GasMeter, made: Result<(Frame, E), ExecError>|
            #[trigger] frame_made(
                args,
                value,
                gas_limit,
                before.schedule,
                before.frames.last().nested_meter,
                meter,
                made,
            ) && {
                &&& outcome == (match made {
                    Ok((_, executable)) => Ok::<E, ExecError>(executable),
                    Err(e) => Err::<E, ExecError>(e),
                })
                &&& after.frames.len() == before.frames.len() + (if made is Ok {
                    1int
                } else {
                    0int
                })
                &&& made matches Ok((frame, _)) ==> after.frames.last() == frame
                &&& forall|i: int|
                    0 <= i < before.frames.len() - 1 ==> #[trigger] after.frames[i]
                        == before.frames[i]
                &&& after.frames[before.frames.len() - 1] == Frame {
                    nested_meter: meter,
                    ..before.frames.last()
                }
                &&& after == StackView { frames: after.frames, ..before }
            },
{
    let (meter, made) = lemma_pushed(args, value, gas_limit, before, after, outcome);
    assert(frame_made(
        args,
        value,
        gas_limit,
        before.schedule,
        before.frames.last().nested_meter,
        meter,
        made,
    ));
}

/// A frame that is popped gives the gas that it has left to the frame below, or from the first
/// frame to the root meter. Which contract a frame below executes, with which value and since which
/// entry point, and whether it can be entered again, is what it was. The first frame stays.
pub proof fn law_popped_frame_returns_its_gas(stack: StackView, persist: bool)
    requires
        stack.frames.len() >= 1,
    ensures
        ({
            let n = stack.frames.len() as int;
            let after = popped(stack, persist);
            let left = stack.frames[n - 1].nested_meter.gas_left;
            &&& n == 1 ==> {
                &&& after.frames.len() == 1
                &&& after.frames[0].account_id == stack.frames[0].account_id
                &&& after.frames[0].contract_info == stack.frames[0].contract_info
                &&& after.frames[0].value_transferred == stack.frames[0].value_transferred
                &&& after.frames[0].entry_point == stack.frames[0].entry_point
                &&& after.frames[0].allows_reentry == stack.frames[0].allows_reentry
                &&& after.frames[0].target_id == stack.frames[0].target_id
                &&& after.frames[0].nested_meter.gas_left == 0
                &&& after.frames[0].nested_meter.gas_limit == 0
                &&& after.gas_meter.gas_limit == stack.gas_meter.gas_limit
                &&& after.gas_meter.gas_left == if stack.gas_meter.gas_left + left > u64::MAX {
                    u64::MAX as int
                } else {
                    stack.gas_meter.gas_left + left
                }
            }
            &&& n >= 2 ==> {
                &&& after.frames.len() == n - 1
                &&& after.gas_meter == stack.gas_meter
                &&& forall|i: int|
                    0 <= i < n - 1 ==> {
                        &&& (#[trigger] after.frames[i]).account_id == stack.frames[i].account_id
                        &&& after.frames[i].value_transferred == stack.frames[i].value_transferred
                        &&& after.frames[i].entry_point == stack.frames[i].entry_point
                        &&& after.frames[i].allows_reentry == stack.frames[i].allows_reentry
                        &&& after.frames[i].target_id == stack.frames[i].target_id
                        &&& i < n - 2 ==> after.frames[i].nested_meter
                            == stack.frames[i].nested_meter
                    }
                &&& after.frames[n - 2].nested_meter.gas_limit == stack.frames[n
                    - 2].nested_meter.gas_limit
                &&& after.frames[n - 2].nested_meter.gas_left == if stack.frames[n
                    - 2].nested_meter.gas_left + left > u64::MAX {
                    u64::MAX as int
                } else {
                    stack.frames[n - 2].nested_meter.gas_left + left
                }
            }
            &&& after.origin == stack.origin
            &&& after.schedule == stack.schedule
            &&& after.config == stack.config
            &&& after.timestamp == stack.timestamp
            &&& after.block_number == stack.block_number
            &&& after.debug_message == stack.debug_message
            &&& after.extension == stack.extension
        }),
{
}

/// What a frame that is popped made of its contract reaches the frames below only where its changes
/// are kept: the frame below takes the contract over if it is the same one, and else every frame of
/// that contract has to read it again. No frame of another contract is touched.
pub proof fn law_popped_frame_tells_its_own(stack: StackView, persist: bool, i: int)
    requires
        stack.frames.len() >= 2,
        0 <= i < stack.frames.len() - 1,
    ensures
        ({
            let n = stack.frames.len() as int;
            let top = stack.frames[n - 1];
            let prev = stack.frames[n - 2];
            let before = stack.frames[i];
            let after = popped(stack, persist).frames[i];
            let told = persist && top.contract_info is Cached;
            &&& !told || before.account_id != top.account_id ==> after.contract_info
                == before.contract_info
            &&& told && before.account_id == top.account_id ==> {
                &&& i == n - 2 ==> after.contract_info == top.contract_info
                &&& i < n - 2 && prev.account_id != top.account_id ==> after.contract_info
                    == CachedContract::Invalidated
                &&& i < n - 2 && prev.account_id == top.account_id ==> after.contract_info
                    == before.contract_info
            }
        }),
{
}

/// The account counter goes back by one where a constructor is popped without its changes being
/// kept, and stays what it is otherwise.
pub proof fn law_counter_goes_back_for_a_failed_constructor(stack: StackView, persist: bool)
    requires
        stack.frames.len() >= 1,
    ensures
        ({
            let failed = !persist && stack.frames.last().entry_point
                == ExportedFunction::Constructor;
            match stack.account_counter {
                None => popped(stack, persist).account_counter is None,
                Some(counter) => {
                    &&& popped(stack, persist).account_counter matches Some(after)
                    &&& !failed ==> after == counter
                    &&& failed && counter > 0 ==> after == counter - 1
                    &&& failed && counter == 0 ==> after == u64::MAX
                },
            }
        }),
{
}

/// Where changes are not kept, nothing is stored. Where they are, what is stored is the contract of
/// the popped frame, if the frame has it cached and the frame below does not take it over, and
/// after that, with the first frame, the account counter if it is known.
pub proof fn law_popped_frame_stores_its_contract(stack: StackView, persist: bool)
    requires
        stack.frames.len() >= 1,
    ensures
        ({
            let n = stack.frames.len() as int;
            let top = stack.frames[n - 1];
            let effects = pop_effects(stack, persist);
            let taken_over = n >= 2 && stack.frames[n - 2].account_id == top.account_id;
            let stores = persist && top.contract_info is Cached && !taken_over;
            let counts = persist && n == 1 && stack.account_counter is Some;
            &&& effects.len() == (if stores {
                1int
            } else {
                0int
            }) + (if counts {
                1int
            } else {
                0int
            })
            &&& stores ==> effects[0] == Effect::InsertContract(
                top.account_id,
                top.contract_info->Cached_0,
            )
            &&& counts ==> effects.last() == Effect::SetAccountCounter(stack.account_counter->0)
        }),
{
}

/// However a run ends, what it returns decides on its transaction: a result that is an error or
/// asks for a revert, whatever data it carries, rolls back, and nothing is stored after that. Every
/// other result commits. The frame is popped in either case.
pub proof fn law_result_decides_on_the_transaction(
    before: StackView,
    lead: Seq<Effect>,
    output: ExecResult,
    after: StackView,
    step: RunStep,
)
    requires
        before.frames.len() >= 1,
        run_settled(before, lead, output, after, step),
    ensures
        ({
            let n = lead.len() as int;
            let failed = output is Err || output->Ok_0.flags.revert;
            let effects = step.effects@;
            &&& step.action == RunAction::Return(output)
            &&& effects.len() > n
            &&& effects.take(n) == lead
            &&& failed ==> effects.len() == n + 1 && effects[n] == Effect::RollbackTransaction
            &&& !failed ==> effects[n] == Effect::CommitTransaction
            &&& forall|i: int|
                n < i < effects.len() ==> (#[trigger] effects[i]) is InsertContract
                    || effects[i] is SetAccountCounter
            &&& effects.skip(n + 1) == pop_effects(before, !failed)
            &&& after == popped(before, !failed)
        }),
{
    let n = lead.len() as int;
    let failed = output is Err || output->Ok_0.flags.revert;
    let effects = step.effects@;
    assert(effects.take(n) =~= lead);
    assert(effects.skip(n + 1) =~= pop_effects(before, !failed));
    law_popped_frame_stores_its_contract(before, !failed);
    assert forall|i: int| n < i < effects.len() implies (#[trigger] effects[i]) is InsertContract
        || effects[i] is SetAccountCounter by {
        assert(effects[i] == effects.skip(n + 1)[i - n - 1]);
    }
}

/// Code that fails, or that asks for a revert, is rolled back, whatever data it returns: nothing
/// else is asked of the runtime, which then holds what it held when the run began. An error is
/// passed on as the callee's, and a reverted result as it is.
pub proof fn law_failed_code_is_rolled_back(
    before: StackView,
    output: ExecResult,
    stored: Option<ContractInfo>,
    after: StackView,
    step: RunStep,
    world: World,
)
    requires
        before.frames.len() >= 1,
        run_ended(before, output, stored, after, step),
        output is Err || output->Ok_0.flags.revert,
    ensures
        step.effects@ == seq![Effect::RollbackTransaction],
        output matches Ok(value) ==> step.action == RunAction::Return(
            Ok::<ExecReturnValue, ExecError>(value),
        ),
        output matches Err(e) ==> step.action == RunAction::Return(
            Err::<ExecReturnValue, ExecError>(
                ExecError { error: e.error, origin: ErrorOrigin::Callee },
            ),
        ),
        after == popped(before, false),
        performed_all(world, step.effects@).state == world.saved.last(),
{
    let result = step.action->Return_0;
    law_result_decides_on_the_transaction(before, seq![], result, after, step);
    assert(step.effects@ =~= seq![Effect::RollbackTransaction]);
    lemma_performed_one(world, Effect::RollbackTransaction);
}

/// Code that succeeds is committed, and its result is returned as it is. What a call leaves is
/// stored after that.
pub proof fn law_successful_call_is_committed(
    before: StackView,
    value: ExecReturnValue,
    stored: Option<ContractInfo>,
    after: StackView,
    step: RunStep,
)
    requires
        before.frames.len() >= 1,
        run_ended(before, Ok::<ExecReturnValue, ExecError>(value), stored, after, step),
        !value.flags.revert,
        before.frames.last().entry_point == ExportedFunction::Call,
    ensures
        step.action == RunAction::Return(Ok::<ExecReturnValue, ExecError>(value)),
        step.effects@ == seq![Effect::CommitTransaction] + pop_effects(before, true),
        after == popped(before, true),
{
    let output = Ok::<ExecReturnValue, ExecError>(value);
    law_result_decides_on_the_transaction(before, seq![], output, after, step);
    assert(step.effects@ =~= seq![Effect::CommitTransaction] + step.effects@.skip(1));
}

/// A constructor that succeeds is reported with the one who asked for it, and then committed. One
/// that removed its contract fails, and is rolled back like any other failure.
pub proof fn law_successful_constructor_is_reported(
    before: StackView,
    value: ExecReturnValue,
    stored: Option<ContractInfo>,
    after: StackView,
    step: RunStep,
)
    requires
        before.frames.len() >= 1,
        run_ended(before, Ok::<ExecReturnValue, ExecError>(value), stored, after, step),
        !value.flags.revert,
        before.frames.last().entry_point == ExportedFunction::Constructor,
    ensures
        ({
            let n = before.frames.len() as int;
            let top = before.frames[n - 1];
            let creator = if n == 1 {
                before.origin
            } else {
                before.frames[n - 2].account_id
            };
            let removed = top.contract_info == CachedContract::Terminated;
            &&& removed ==> {
                &&& step.effects@ == seq![Effect::RollbackTransaction]
                &&& step.action == RunAction::Return(
                    Err::<ExecReturnValue, ExecError>(
                        ExecError {
                            error: DispatchError::Module(Error::TerminatedInConstructor),
                            origin: ErrorOrigin::Caller,
                        },
                    ),
                )
                &&& after == popped(before, false)
            }
            &&& !removed ==> {
                &&& step.effects@.len() >= 2
                &&& step.effects@[0] == Effect::DepositEvent(
                    Event::Instantiated(creator, top.account_id),
                )
                &&& step.effects@[1] == Effect::CommitTransaction
                &&& step.action == RunAction::Return(Ok::<ExecReturnValue, ExecError>(value))
                &&& match top.contract_info {
                    CachedContract::Cached(_) => {
                        &&& after == popped(before, true)
                        &&& step.effects@.skip(2) == pop_effects(before, true)
                    },
                    _ => {
                        &&& stored matches Some(ContractInfo::Alive(info))
                        &&& ({
                            let read = StackView {
                                frames: before.frames.update(
                                    n - 1,
                                    Frame { contract_info: CachedContract::Cached(info), ..top },
                                ),
                                ..before
                            };
                            &&& after == popped(read, true)
                            &&& step.effects@.skip(2) == pop_effects(read, true)
                        })
                    },
                }
            }
        }),
{
    let n = before.frames.len() as int;
    let top = before.frames[n - 1];
    let creator = if n == 1 {
        before.origin
    } else {
        before.frames[n - 2].account_id
    };
    let output = Ok::<ExecReturnValue, ExecError>(value);
    if top.contract_info == CachedContract::Terminated {
        let result = step.action->Return_0;
        law_result_decides_on_the_transaction(before, seq![], result, after, step);
        assert(step.effects@ =~= seq![Effect::RollbackTransaction]);
    } else {
        let info = effective(top.contract_info, stored)->0;
        let full = with_info(before, info);
        let lead = seq![Effect::DepositEvent(Event::Instantiated(creator, top.account_id))];
        law_result_decides_on_the_transaction(full, lead, output, after, step);
        assert(step.effects@.take(1)[0] == lead[0]);
        if let CachedContract::Cached(_) = top.contract_info {
            assert(full.frames =~= before.frames);
            assert(full == before);
        }
    }
}

/// The first step of a run does what is due, and then opens the transaction. After that, exactly one
/// of these happens:
/// - Code for another chain is answered with the name of that chain.
/// - A constructor with an endowment below the subsistence threshold fails, at every depth.
/// - Without a value, the code is executed.
/// - A contract that would keep too little is refused the transfer.
/// - Else the caller's transfer of the value to the callee is asked for.
pub proof fn law_run_starts<E: Executable>(
    before: StackView,
    due: Seq<Effect>,
    executable: E,
    funds: Funds,
    after: StackView,
    step: RunStep,
)
    requires
        before.frames.len() >= 1,
        run_started(before, due, executable, funds, after, step),
    ensures
        ({
            let n = before.frames.len() as int;
            let m = due.len() as int;
            let top = before.frames[n - 1];
            let value = top.value_transferred;
            let threshold = funds.subsistence_threshold;
            let from = if n == 1 {
                before.origin
            } else {
                before.frames[n - 2].account_id
            };
            let effects = step.effects@;
            let not_funded = top.entry_point == ExportedFunction::Constructor && value < threshold;
            let too_little = n >= 2 && funds.total_balance < value + threshold && threshold > 0;
            &&& effects.take(m) == due
            &&& effects.len() > m && effects[m] == Effect::BeginTransaction
            &&& match executable.target() {
                Some(id) => {
                    &&& step.action matches RunAction::Return(Ok(reply))
                    &&& reply.data@ == id@
                    &&& reply.flags.foreign_target && !reply.flags.revert
                    &&& effects.len() > m + 1 && effects[m + 1] == Effect::CommitTransaction
                    &&& effects.skip(m + 2) == pop_effects(before, true)
                    &&& after == popped(before, true)
                },
                None => if not_funded || (value != 0 && too_little) {
                    &&& step.action == RunAction::Return(
                        Err::<ExecReturnValue, ExecError>(
                            ExecError {
                                error: DispatchError::Module(
                                    if not_funded {
                                        Error::NewContractNotFunded
                                    } else {
                                        Error::BelowSubsistenceThreshold
                                    },
                                ),
                                origin: ErrorOrigin::Caller,
                            },
                        ),
                    )
                    &&& effects.len() == m + 2 && effects[m + 1] == Effect::RollbackTransaction
                    &&& after == popped(before, false)
                } else {
                    &&& effects.len() == m + 1
                    &&& after == before
                    &&& value == 0 ==> step.action == RunAction::Execute(top.entry_point)
                    &&& value != 0 ==> step.action == RunAction::Transfer(
                        TransferRequest {
                            from,
                            to: top.account_id,
                            value,
                            existence: ExistenceRequirement::KeepAlive,
                        },
                    )
                },
            }
        }),
{
    let m = due.len() as int;
    let lead = due + seq![Effect::BeginTransaction];
    let effects = step.effects@;
    if let RunAction::Return(output) = step.action {
        law_result_decides_on_the_transaction(before, lead, output, after, step);
        assert(effects.take(m + 1) == lead);
        assert(effects[m] == effects.take(m + 1)[m]);
        assert(effects.take(m) =~= lead.take(m));
    }
    assert(lead.take(m) =~= due);
    assert(effects.take(m) =~= due);
}

/// A run whose code fails, or asks for a revert, ends where it began: whatever happened in between,
/// the runtime holds again what it held after what was due, as long as every transaction that was
/// opened in between was closed.
pub proof fn law_failed_run_ends_where_it_began<E: Executable>(
    first: StackView,
    due: Seq<Effect>,
    executable: E,
    funds: Funds,
    started: StackView,
    first_step: RunStep,
    world: World,
    later: World,
    before: StackView,
    output: ExecResult,
    stored: Option<ContractInfo>,
    after: StackView,
    last_step: RunStep,
)
    requires
        first.frames.len() >= 1,
        run_started(first, due, executable, funds, started, first_step),
        !(first_step.action is Return),
        later.saved == performed_all(world, first_step.effects@).saved,
        before.frames.len() >= 1,
        run_ended(before, output, stored, after, last_step),
        output is Err || output->Ok_0.flags.revert,
    ensures
        performed_all(later, last_step.effects@) == performed_all(world, due),
{
    law_run_starts(first, due, executable, funds, started, first_step);
    let ready = performed_all(world, due);
    let begin = seq![Effect::BeginTransaction];
    assert(first_step.effects@ =~= due + begin);
    lemma_performed_append(world, due, begin);
    lemma_performed_one(ready, Effect::BeginTransaction);
    law_failed_code_is_rolled_back(before, output, stored, after, last_step, later);
    lemma_performed_one(later, Effect::RollbackTransaction);
    assert(later.saved.drop_last() =~= ready.saved);
}

/// No constructor is executed, and no endowment is asked for, below the subsistence threshold.
pub proof fn law_executed_constructor_is_funded<E: Executable>(
    before: StackView,
    due: Seq<Effect>,
    executable: E,
    funds: Funds,
    after: StackView,
    step: RunStep,
)
    requires
        before.frames.len() >= 1,
        run_started(before, due, executable, funds, after, step),
        before.frames.last().entry_point == ExportedFunction::Constructor,
        !(step.action is Return),
    ensures
        before.frames.last().value_transferred >= funds.subsistence_threshold,
{
    law_run_starts(before, due, executable, funds, after, step);
}

/// After its transfer, a run goes on with the code of the frame, or it fails and is rolled back.
pub proof fn law_run_continues(before: StackView, made: bool, after: StackView, step: RunStep)
    requires
        before.frames.len() >= 1,
        run_continued(before, made, after, step),
    ensures
        made ==> {
            &&& step.action == RunAction::Execute(before.frames.last().entry_point)
            &&& step.effects@.len() == 0
            &&& after == before
        },
        !made ==> {
            &&& step.action == RunAction::Return(
                Err::<ExecReturnValue, ExecError>(
                    ExecError {
                        error: DispatchError::Module(Error::TransferFailed),
                        origin: ErrorOrigin::Caller,
                    },
                ),
            )
            &&& step.effects@ == seq![Effect::RollbackTransaction]
            &&& after == popped(before, false)
        },
{
    if !made {
        let output = step.action->Return_0;
        law_result_decides_on_the_transaction(before, seq![], output, after, step);
        assert(step.effects@ =~= seq![Effect::RollbackTransaction]);
    }
}

/// A transfer of nothing is not asked for. Any other one is asked for as it is, and the account
/// that is debited may die only where that is allowed. Only a contract is refused, where it would
/// keep less than the threshold and its death is not allowed.
pub proof fn law_transfer_keeps_contracts_alive(
    sender_is_contract: bool,
    allow_death: bool,
    from: AccountId,
    to: AccountId,
    value: Balance,
    funds: Funds,
)
    ensures
        ({
            let decision = transfer_decision(
                sender_is_contract,
                allow_death,
                from,
                to,
                value,
                funds,
            );
            let refused = value != 0 && !allow_death && sender_is_contract
                && funds.subsistence_threshold > 0 && funds.total_balance < value
                + funds.subsistence_threshold;
            &&& refused ==> decision == Err::<Option<TransferRequest>, DispatchError>(
                DispatchError::Module(Error::BelowSubsistenceThreshold),
            )
            &&& !refused ==> {
                &&& decision matches Ok(request)
                &&& request is Some <==> value != 0
                &&& request matches Some(r) ==> {
                    &&& r.from == from && r.to == to && r.value == value
                    &&& r.existence == ExistenceRequirement::AllowDeath <==> allow_death
                }
            }
        }),
{
}

} // verus!
