//! What holds of whole executions, whatever code is executed.
//!
//! An execution is a list of configurations, each reached from the one before by one operation.
use vstd::prelude::*;
use crate::coherence::{
    coherent, complete, current, is_fresh, law_access_keeps_coherence, law_call_keeps_coherence,
    law_call_saves_contracts, law_failed_call_restores_contracts,
    law_instantiation_keeps_coherence, law_other_changes_keep_coherence,
    law_report_keeps_coherence, law_runtime_keeps_coherence, law_settling_keeps_coherence,
    law_termination_keeps_coherence, lemma_push_effects, lemma_same_nearest, lemma_settled_world,
    similar,
};
use crate::executable::{Executable, ExportedFunction};
use crate::ext::{
    call_started, guarded, instantiation_started, with_info, PendingCall, PendingInstantiation,
};
use crate::frame::{CachedContract, Frame, FrameArgs};
use crate::gas::GasMeter;
use crate::laws::{law_pop_conserves_gas, total_gas};
use crate::run::settle_effects;
use crate::stack::{
    frame_pushed, lemma_nearest, lemma_pushed, nearest, popped, push_effects, recursive,
    rent_due, StackView,
};
use crate::types::{
    keeps_changes, AccountId, AliveContractInfo, Balance, DispatchError, Effect, Event, ExecError,
    ExecResult, Weight,
};
use crate::world::{
    lemma_performed_none, lemma_performed_one, performed, performed_all, State, World,
};

verus! {

/// A call stack and the state of the runtime that it works on.
#[verifier::ext_equal]
pub struct Configuration {
    /// The call stack.
    pub stack: StackView,
    /// The runtime.
    pub world: World,
}

/// Whether the runtime charged a rent: at most balances changed.
pub open spec fn rent_charged(a: World, b: World) -> bool {
    b == World { state: State { balances: b.state.balances, ..a.state }, ..a }
}

/// A call of the current contract: it is refused, or it fails to enter the callee, or it enters the
/// callee, which pays its rent, and opens a transaction for it.
pub open spec fn call_made<E: Executable>(
    a: Configuration,
    b: Configuration,
    to: AccountId,
    allows_reentry: bool,
    started: StackView,
    start: Result<(Vec<Effect>, PendingCall), ExecError>,
    value: Balance,
    gas_limit: Weight,
    entered: StackView,
    entry: Result<E, ExecError>,
    charged: World,
) -> bool {
    &&& call_started(a.stack, to, allows_reentry, started, start)
    &&& match start {
        Err(_) => b == Configuration { stack: started, world: a.world },
        Ok((effects, pending)) => {
            let stored = performed_all(a.world, effects@);
            &&& frame_pushed(
                FrameArgs::Call {
                    dest: pending.dest,
                    cached_info: pending.cached_info,
                    stored: stored.state.stored(to),
                },
                value,
                gas_limit,
                started,
                entered,
                entry,
            )
            &&& match entry {
                Ok(executable) => {
                    &&& rent_charged(
                        performed_all(stored, rent_due(entered.top(), executable)),
                        charged,
                    )
                    &&& b == Configuration {
                        stack: entered,
                        world: performed(charged, Effect::BeginTransaction),
                    }
                },
                Err(_) => b == Configuration { stack: guarded(entered, true), world: stored },
            }
        },
    }
}

/// An instantiation by the current contract, for an account that is in use neither in storage nor
/// on the call stack.
pub open spec fn instantiation_made<E: Executable>(
    a: Configuration,
    b: Configuration,
    stored_counter: u64,
    charged: GasMeter,
    load: Result<E, DispatchError>,
    started: StackView,
    start: Result<(Vec<Effect>, PendingInstantiation<E>), ExecError>,
    account_id: AccountId,
    created: Result<AliveContractInfo, DispatchError>,
    value: Balance,
    gas_limit: Weight,
    entered: StackView,
    entry: Result<E, ExecError>,
) -> bool {
    &&& instantiation_started(a.stack, stored_counter, charged, load, started, start)
    &&& created is Ok ==> is_fresh(a.stack, account_id)
        && !a.world.state.contracts.contains_key(account_id)
    &&& match start {
        Err(_) => b == Configuration { stack: started, world: a.world },
        Ok((effects, pending)) => {
            let stored = performed_all(a.world, effects@);
            &&& frame_pushed(
                FrameArgs::Instantiate { account_id, created, executable: pending.executable },
                value,
                gas_limit,
                started,
                entered,
                entry,
            )
            &&& b == Configuration {
                stack: entered,
                world: if entry is Ok {
                    performed(stored, Effect::BeginTransaction)
                } else {
                    stored
                },
            }
        },
    }
}

/// Whether the current contract makes a call.
pub open spec fn calls<E: Executable>(a: Configuration, b: Configuration) -> bool {
    exists|
        to: AccountId,
        allows_reentry: bool,
        started: StackView,
        start: Result<(Vec<Effect>, PendingCall), ExecError>,
        value: Balance,
        gas_limit: Weight,
        entered: StackView,
        entry: Result<E, ExecError>,
        charged: World,
    | #[trigger]
        call_made(
            a,
            b,
            to,
            allows_reentry,
            started,
            start,
            value,
            gas_limit,
            entered,
            entry,
            charged,
        )
}

/// Whether the current contract instantiates another one.
pub open spec fn instantiates<E: Executable>(a: Configuration, b: Configuration) -> bool {
    exists|
        stored_counter: u64,
        charged: GasMeter,
        load: Result<E, DispatchError>,
        started: StackView,
        start: Result<(Vec<Effect>, PendingInstantiation<E>), ExecError>,
        account_id: AccountId,
        created: Result<AliveContractInfo, DispatchError>,
        value: Balance,
        gas_limit: Weight,
        entered: StackView,
        entry: Result<E, ExecError>,
    | #[trigger]
        instantiation_made(
            a,
            b,
            stored_counter,
            charged,
            load,
            started,
            start,
            account_id,
            created,
            value,
            gas_limit,
            entered,
            entry,
        )
}

/// The end of a nested run.
pub open spec fn run_left(a: Configuration, b: Configuration, output: ExecResult) -> bool {
    &&& a.stack.frames.len() >= 2
    &&& b.stack == popped(a.stack, keeps_changes(output))
    &&& b.world == performed_all(a.world, settle_effects(a.stack, output))
}

/// A read of the current contract, or a write to it.
pub open spec fn contract_accessed(
    a: Configuration,
    b: Configuration,
    info: AliveContractInfo,
) -> bool {
    &&& a.stack.top().contract_info != CachedContract::Terminated
    &&& b == Configuration { stack: with_info(a.stack, info), world: a.world }
}

/// The removal of the current contract. What is stored of it goes, too, unless that fails.
pub open spec fn contract_terminated(a: Configuration, b: Configuration) -> bool {
    &&& !recursive(a.stack.frames)
    &&& a.stack.top().contract_info != CachedContract::Terminated
    &&& b.stack == a.stack.with_top(
        Frame { contract_info: CachedContract::Terminated, ..a.stack.top() },
    )
    &&& b.world == a.world || b.world == performed(
        a.world,
        Effect::RemoveContract(a.stack.top().account_id),
    )
}

/// An event of the current contract.
pub open spec fn event_reported(a: Configuration, b: Configuration, event: Event) -> bool {
    &&& b.stack == a.stack
    &&& b.world == performed(a.world, Effect::DepositEvent(event))
}

/// A transfer, or a write to the storage of a contract: what the runtime does on behalf of the
/// current contract.
pub open spec fn runtime_changed(a: Configuration, b: Configuration) -> bool {
    &&& b.stack == a.stack
    &&& b.world == World {
        state: State {
            balances: b.world.state.balances,
            entries: b.world.state.entries,
            ..a.world.state
        },
        ..a.world
    }
}

/// Whether the text of a debug buffer is kept: at most, more is appended.
pub open spec fn text_kept(a: Option<Seq<u8>>, b: Option<Seq<u8>>) -> bool {
    match (a, b) {
        (Some(text), Some(more)) => text.is_prefix_of(more),
        (None, None) => true,
        _ => false,
    }
}

/// Whether a configuration is reached from another one by one operation.
///
/// The last step of a run that completes an instantiation is an access, an event and the end of
/// the run. Gas, messages and the defense against reentrance can change in other operations, and
/// text can be appended to the debug buffer.
pub open spec fn steps<E: Executable>(a: Configuration, b: Configuration) -> bool {
    ||| calls::<E>(a, b)
    ||| instantiates::<E>(a, b)
    ||| exists|output: ExecResult| #[trigger] run_left(a, b, output)
    ||| exists|info: AliveContractInfo| #[trigger] contract_accessed(a, b, info)
    ||| contract_terminated(a, b)
    ||| exists|event: Event| #[trigger] event_reported(a, b, event)
    ||| runtime_changed(a, b)
    ||| similar(a.stack.frames, b.stack.frames) && a.world == b.world && text_kept(
        a.stack.debug_message,
        b.stack.debug_message,
    )
}

/// Whether the frames up to a depth, and the states that are saved for them, are kept: the same
/// contracts are executed in them, with the same values. Those below the depth are not removed.
pub open spec fn kept_below(a: Configuration, b: Configuration, depth: int) -> bool {
    &&& b.world.saved.take(depth + 1) == a.world.saved.take(depth + 1)
    &&& forall|i: int|
        0 <= i <= depth ==> {
            &&& (#[trigger] b.stack.frames[i]).account_id == a.stack.frames[i].account_id
            &&& b.stack.frames[i].entry_point == a.stack.frames[i].entry_point
            &&& b.stack.frames[i].value_transferred == a.stack.frames[i].value_transferred
            &&& i < depth && b.stack.frames[i].contract_info == CachedContract::Terminated
                ==> a.stack.frames[i].contract_info == CachedContract::Terminated
        }
}

/// Whether a configuration is that of a nested run when it starts: there is one frame more, and
/// what the runtime holds, with the contract of the caller as the caller knows it, is saved. What
/// changed for a call is at most a rent that was charged.
pub open spec fn entered_from(a: Configuration, b: Configuration) -> bool {
    let state = b.world.state;
    let stored = performed_all(a.world, push_effects(a.stack)).state;
    &&& b.stack.frames.len() == a.stack.frames.len() + 1
    &&& similar(a.stack.frames, b.stack.frames.drop_last())
    &&& b.world.saved == a.world.saved.push(state)
    &&& state == State { balances: state.balances, ..stored }
    &&& b.stack.top().entry_point == ExportedFunction::Constructor ==> state == stored
}

/// What is below a frame is kept where a frame is pushed on top of it.
proof fn lemma_push_keeps_below<E: Executable>(
    a: Configuration,
    b: Configuration,
    stored: World,
    args: FrameArgs<E>,
    value: Balance,
    gas_limit: Weight,
    started: StackView,
    entered: StackView,
    entry: Result<E, ExecError>,
    charged: World,
    depth: int,
)
    requires
        coherent(a.stack, a.world),
        stored == performed_all(a.world, push_effects(a.stack)),
        similar(a.stack.frames, started.frames),
        frame_pushed(args, value, gas_limit, started, entered, entry),
        rent_charged(stored, charged),
        args is Instantiate ==> charged == stored,
        entry is Ok ==> b == (Configuration {
            stack: entered,
            world: performed(charged, Effect::BeginTransaction),
        }),
        entry is Err ==> similar(entered.frames, b.stack.frames) && b.world == stored,
        0 <= depth < a.stack.frames.len(),
    ensures
        kept_below(a, b, depth),
        b.stack.frames.len() > a.stack.frames.len() ==> entered_from(a, b),
{
    lemma_push_effects(a.stack, a.world);
    let (meter, made) = lemma_pushed(args, value, gas_limit, started, entered, entry);
    assert(b.world.saved.take(depth + 1) =~= a.world.saved.take(depth + 1));
    assert forall|i: int| 0 <= i <= depth implies {
        &&& (#[trigger] b.stack.frames[i]).account_id == a.stack.frames[i].account_id
        &&& b.stack.frames[i].entry_point == a.stack.frames[i].entry_point
        &&& b.stack.frames[i].value_transferred == a.stack.frames[i].value_transferred
        &&& b.stack.frames[i].contract_info == a.stack.frames[i].contract_info
    } by {
        assert(a.stack.frames[i].account_id == started.frames[i].account_id);
        assert(entered.frames[i].contract_info == started.frames[i].contract_info);
        if entry is Err {
            assert(entered.frames[i].account_id == b.stack.frames[i].account_id);
        }
    }
    if entry is Ok {
        let below = b.stack.frames.drop_last();
        assert forall|i: int| 0 <= i < below.len() implies {
            &&& (#[trigger] a.stack.frames[i]).account_id == below[i].account_id
            &&& a.stack.frames[i].entry_point == below[i].entry_point
            &&& a.stack.frames[i].value_transferred == below[i].value_transferred
            &&& a.stack.frames[i].contract_info == below[i].contract_info
        } by {
            assert(a.stack.frames[i].account_id == started.frames[i].account_id);
        }
    }
}

/// What is due for a frame changes at most balances.
proof fn lemma_rent_due<E: Executable>(world: World, frame: Frame, executable: E)
    ensures
        performed_all(world, rent_due(frame, executable)) == world,
{
    lemma_performed_none(world);
    if frame.entry_point == ExportedFunction::Call {
        lemma_performed_one(world, rent_due(frame, executable)[0]);
    }
}

/// Every operation keeps stack and world coherent, the frames that it leaves, and the text in the
/// debug buffer. One that adds a frame starts a nested run.
pub proof fn law_every_step_keeps_coherence<E: Executable>(a: Configuration, b: Configuration)
    requires
        coherent(a.stack, a.world),
        steps::<E>(a, b),
    ensures
        coherent(b.stack, b.world),
        forall|depth: int|
            0 <= depth < a.stack.frames.len() && depth < b.stack.frames.len()
                ==> #[trigger] kept_below(a, b, depth),
        b.stack.frames.len() > a.stack.frames.len() ==> entered_from(a, b),
        text_kept(a.stack.debug_message, b.stack.debug_message),
{
    if calls::<E>(a, b) {
        let (to, allows_reentry, started, start, value, gas_limit, entered, entry, charged) =
            choose|
            to: AccountId,
            allows_reentry: bool,
            started: StackView,
            start: Result<(Vec<Effect>, PendingCall), ExecError>,
            value: Balance,
            gas_limit: Weight,
            entered: StackView,
            entry: Result<E, ExecError>,
            charged: World,
        | #[trigger]
            call_made(
                a,
                b,
                to,
                allows_reentry,
                started,
                start,
                value,
                gas_limit,
                entered,
                entry,
                charged,
            );
        law_call_keeps_coherence(
            a.stack,
            a.world,
            to,
            allows_reentry,
            started,
            start,
            value,
            gas_limit,
            entered,
            entry,
        );
        if let Ok((effects, pending)) = start {
            let stored = performed_all(a.world, effects@);
            let args = FrameArgs::<E>::Call {
                dest: pending.dest,
                cached_info: pending.cached_info,
                stored: stored.state.stored(to),
            };
            let charged = if entry is Ok {
                charged
            } else {
                stored
            };
            if let Ok(executable) = entry {
                lemma_rent_due(stored, entered.top(), executable);
                law_runtime_keeps_coherence(
                    entered,
                    performed(stored, Effect::BeginTransaction),
                    b.world,
                );
            }
            lemma_push_keeps_below(
                a,
                b,
                stored,
                args,
                value,
                gas_limit,
                started,
                entered,
                entry,
                charged,
                0,
            );
            assert forall|depth: int|
                0 <= depth < a.stack.frames.len() && depth < b.stack.frames.len() implies
            #[trigger] kept_below(a, b, depth) by {
                lemma_push_keeps_below(
                    a,
                    b,
                    stored,
                    args,
                    value,
                    gas_limit,
                    started,
                    entered,
                    entry,
                    charged,
                    depth,
                );
            }
        }
    } else if instantiates::<E>(a, b) {
        let (
            stored_counter,
            charged,
            load,
            started,
            start,
            account_id,
            created,
            value,
            gas_limit,
            entered,
            entry,
        ) = choose|
            stored_counter: u64,
            charged: GasMeter,
            load: Result<E, DispatchError>,
            started: StackView,
            start: Result<(Vec<Effect>, PendingInstantiation<E>), ExecError>,
            account_id: AccountId,
            created: Result<AliveContractInfo, DispatchError>,
            value: Balance,
            gas_limit: Weight,
            entered: StackView,
            entry: Result<E, ExecError>,
        | #[trigger]
            instantiation_made(
                a,
                b,
                stored_counter,
                charged,
                load,
                started,
                start,
                account_id,
                created,
                value,
                gas_limit,
                entered,
                entry,
            );
        law_instantiation_keeps_coherence(
            a.stack,
            a.world,
            stored_counter,
            charged,
            load,
            started,
            start,
            account_id,
            created,
            value,
            gas_limit,
            entered,
            entry,
        );
        if let Ok((effects, pending)) = start {
            let stored = performed_all(a.world, effects@);
            let args = FrameArgs::Instantiate {
                account_id,
                created,
                executable: pending.executable,
            };
            lemma_push_keeps_below(
                a,
                b,
                stored,
                args,
                value,
                gas_limit,
                started,
                entered,
                entry,
                stored,
                0,
            );
            assert forall|depth: int|
                0 <= depth < a.stack.frames.len() && depth < b.stack.frames.len() implies
            #[trigger] kept_below(a, b, depth) by {
                lemma_push_keeps_below(
                    a,
                    b,
                    stored,
                    args,
                    value,
                    gas_limit,
                    started,
                    entered,
                    entry,
                    stored,
                    depth,
                );
            }
        }
    } else if exists|output: ExecResult| #[trigger] run_left(a, b, output) {
        let output = choose|output: ExecResult| #[trigger] run_left(a, b, output);
        law_settling_keeps_coherence(a.stack, a.world, output);
        lemma_settled_world(a.stack, a.world, output);
        assert forall|depth: int|
            0 <= depth < a.stack.frames.len() && depth < b.stack.frames.len() implies
        #[trigger] kept_below(a, b, depth) by {
            assert(b.world.saved.take(depth + 1) =~= a.world.saved.take(depth + 1));
        }
    } else if exists|info: AliveContractInfo| #[trigger] contract_accessed(a, b, info) {
        let info = choose|info: AliveContractInfo| #[trigger] contract_accessed(a, b, info);
        law_access_keeps_coherence(a.stack, a.world, info);
    } else if contract_terminated(a, b) {
        law_termination_keeps_coherence(a.stack, a.world);
    } else if exists|event: Event| #[trigger] event_reported(a, b, event) {
        let event = choose|event: Event| #[trigger] event_reported(a, b, event);
        law_report_keeps_coherence(a.stack, a.world, event);
    } else if runtime_changed(a, b) {
        law_runtime_keeps_coherence(a.stack, a.world, b.world);
    } else {
        law_other_changes_keep_coherence(a.stack, b.stack, a.world);
        assert forall|depth: int|
            0 <= depth < a.stack.frames.len() && depth < b.stack.frames.len() implies
        #[trigger] kept_below(a, b, depth) by {
            assert forall|i: int| 0 <= i <= depth implies {
                &&& (#[trigger] b.stack.frames[i]).account_id == a.stack.frames[i].account_id
                &&& b.stack.frames[i].entry_point == a.stack.frames[i].entry_point
                &&& b.stack.frames[i].value_transferred == a.stack.frames[i].value_transferred
                &&& b.stack.frames[i].contract_info == a.stack.frames[i].contract_info
            } by {
                assert(a.stack.frames[i].account_id == b.stack.frames[i].account_id);
            }
        }
    }
}

/// Whether the operation after a configuration of an execution leads to the next one.
pub open spec fn step_at<E: Executable>(trace: Seq<Configuration>, i: int) -> bool {
    steps::<E>(trace[i], trace[i + 1])
}

/// Whether a list of configurations is an execution above a number of frames.
pub open spec fn executes<E: Executable>(trace: Seq<Configuration>, depth: int) -> bool {
    &&& trace.len() >= 1
    &&& forall|i: int| 0 <= i < trace.len() - 1 ==> #[trigger] step_at::<E>(trace, i)
    &&& forall|i: int|
        0 <= i < trace.len() ==> (#[trigger] trace[i]).stack.frames.len() > depth
}

/// Stack and world are coherent at every moment of an execution. The frames up to the depth that it
/// works above are kept, and so is the text in the debug buffer.
pub proof fn law_execution_keeps_coherence<E: Executable>(trace: Seq<Configuration>, depth: int)
    requires
        executes::<E>(trace, depth),
        coherent(trace[0].stack, trace[0].world),
        depth >= 0,
    ensures
        coherent(trace.last().stack, trace.last().world),
        kept_below(trace[0], trace.last(), depth),
        text_kept(trace[0].stack.debug_message, trace.last().stack.debug_message),
    decreases trace.len(),
{
    if trace.len() > 1 {
        let n = trace.len() as int;
        let shorter = trace.drop_last();
        assert forall|i: int| 0 <= i < shorter.len() - 1 implies #[trigger] step_at::<E>(
            shorter,
            i,
        ) by {
            assert(step_at::<E>(trace, i));
        }
        law_execution_keeps_coherence::<E>(shorter, depth);
        assert(step_at::<E>(trace, n - 2));
        let a = trace[n - 2];
        let b = trace[n - 1];
        assert(shorter.last() == a);
        law_every_step_keeps_coherence::<E>(a, b);
        assert(kept_below(a, b, depth));
        assert forall|i: int| 0 <= i <= depth implies {
            &&& (#[trigger] b.stack.frames[i]).account_id == trace[0].stack.frames[i].account_id
            &&& b.stack.frames[i].entry_point == trace[0].stack.frames[i].entry_point
            &&& b.stack.frames[i].value_transferred == trace[0].stack.frames[i].value_transferred
            &&& i < depth && b.stack.frames[i].contract_info == CachedContract::Terminated
                ==> trace[0].stack.frames[i].contract_info == CachedContract::Terminated
        } by {
            assert(a.stack.frames[i].account_id == trace[0].stack.frames[i].account_id);
        }
    }
}

/// A nested run removes its frame and no other one, whether it succeeds or fails: what the frames
/// below execute, and with which values, is what it was. Text that was appended to the debug buffer
/// stays, and the gas that was used stays charged.
///
/// `trace` is the execution of the run, from its start to its end.
pub proof fn law_run_removes_its_frame<E: Executable>(
    trace: Seq<Configuration>,
    output: ExecResult,
    after: Configuration,
)
    requires
        coherent(trace[0].stack, trace[0].world),
        executes::<E>(trace, trace[0].stack.frames.len() - 1),
        trace.last().stack.frames.len() == trace[0].stack.frames.len(),
        run_left(trace.last(), after, output),
    ensures
        after.stack.frames.len() == trace[0].stack.frames.len() - 1,
        forall|i: int|
            0 <= i < after.stack.frames.len() ==> {
                let frame = trace[0].stack.frames[i];
                &&& (#[trigger] after.stack.frames[i]).account_id == frame.account_id
                &&& after.stack.frames[i].entry_point == frame.entry_point
                &&& after.stack.frames[i].value_transferred == frame.value_transferred
            },
        text_kept(trace[0].stack.debug_message, after.stack.debug_message),
        total_gas(trace.last().stack) <= u64::MAX ==> total_gas(after.stack) == total_gas(
            trace.last().stack,
        ),
{
    let depth = trace[0].stack.frames.len() - 1;
    let last = trace.last();
    law_execution_keeps_coherence::<E>(trace, depth);
    assert forall|i: int| 0 <= i < after.stack.frames.len() implies {
        let frame = trace[0].stack.frames[i];
        &&& (#[trigger] after.stack.frames[i]).account_id == frame.account_id
        &&& after.stack.frames[i].entry_point == frame.entry_point
        &&& after.stack.frames[i].value_transferred == frame.value_transferred
    } by {
        assert(last.stack.frames[i].account_id == trace[0].stack.frames[i].account_id);
    }
    if total_gas(last.stack) <= u64::MAX {
        law_pop_conserves_gas(last.stack, keeps_changes(output));
    }
}

/// The first frame is never removed, whether its run succeeds or fails. Where it fails, the runtime
/// holds what it held when the run started: balances, entries of storage, contracts, the account
/// counter and events. A rent that was charged before stays charged, text that was appended to the
/// debug buffer stays, and so does the charge for the gas that was used.
///
/// `trace` is the execution of the run, from its start to its end.
pub proof fn law_first_frame_stays<E: Executable>(
    trace: Seq<Configuration>,
    output: ExecResult,
    after: Configuration,
)
    requires
        coherent(trace[0].stack, trace[0].world),
        executes::<E>(trace, 0),
        trace[0].stack.frames.len() == 1,
        trace.last().stack.frames.len() == 1,
        after.stack == popped(trace.last().stack, keeps_changes(output)),
        after.world == performed_all(
            trace.last().world,
            settle_effects(trace.last().stack, output),
        ),
    ensures
        after.stack.frames.len() == 1,
        after.stack.top().account_id == trace[0].stack.top().account_id,
        after.stack.top().entry_point == trace[0].stack.top().entry_point,
        after.stack.top().value_transferred == trace[0].stack.top().value_transferred,
        after.world.saved.len() == 0,
        !keeps_changes(output) ==> after.world.state == trace[0].world.saved[0],
        text_kept(trace[0].stack.debug_message, after.stack.debug_message),
        total_gas(trace.last().stack) <= u64::MAX ==> total_gas(after.stack) == total_gas(
            trace.last().stack,
        ),
{
    let last = trace.last();
    law_execution_keeps_coherence::<E>(trace, 0);
    lemma_settled_world(last.stack, last.world, output);
    assert(last.stack.frames[0].account_id == trace[0].stack.frames[0].account_id);
    assert(last.world.saved.take(1)[0] == trace[0].world.saved.take(1)[0]);
    if total_gas(last.stack) <= u64::MAX {
        law_pop_conserves_gas(last.stack, keeps_changes(output));
    }
}

/// A call comes back to the frame that made it, whether the run of the callee succeeds or fails: as
/// many frames are there as before, the same contract is on top, and its defense is down.
///
/// `trace` is the execution of the run, and `left` is what it leaves. Then the call ends.
pub proof fn law_call_returns_to_its_caller<E: Executable>(
    before: Configuration,
    trace: Seq<Configuration>,
    output: ExecResult,
    left: Configuration,
)
    requires
        coherent(before.stack, before.world),
        calls::<E>(before, trace[0]),
        executes::<E>(trace, before.stack.frames.len() as int),
        trace.last().stack.frames.len() == before.stack.frames.len() + 1,
        run_left(trace.last(), left, output),
    ensures
        ({
            let after = guarded(left.stack, true);
            &&& after.frames.len() == before.stack.frames.len()
            &&& after.top().account_id == before.stack.top().account_id
            &&& after.top().entry_point == before.stack.top().entry_point
            &&& after.top().value_transferred == before.stack.top().value_transferred
            &&& after.top().allows_reentry
        }),
{
    let first = trace[0];
    let n = before.stack.frames.len() as int;
    assert(first.stack.frames.len() > n);
    law_every_step_keeps_coherence::<E>(before, first);
    law_run_removes_its_frame::<E>(trace, output, left);
    let entry = first.stack.frames.drop_last();
    assert(before.stack.frames[n - 1].account_id == entry[n - 1].account_id);
    assert(left.stack.frames[n - 1].account_id == first.stack.frames[n - 1].account_id);
}

/// A call that is refused, or that does not enter the callee, leaves the frame that made it on top,
/// with its defense down.
pub proof fn law_refused_call_returns_to_its_caller<E: Executable>(
    before: Configuration,
    after: Configuration,
)
    requires
        coherent(before.stack, before.world),
        calls::<E>(before, after),
        after.stack.frames.len() == before.stack.frames.len(),
    ensures
        similar(before.stack.frames, after.stack.frames),
        after.stack.top().allows_reentry,
{
    let (to, allows_reentry, started, start, value, gas_limit, entered, entry, charged) = choose|
        to: AccountId,
        allows_reentry: bool,
        started: StackView,
        start: Result<(Vec<Effect>, PendingCall), ExecError>,
        value: Balance,
        gas_limit: Weight,
        entered: StackView,
        entry: Result<E, ExecError>,
        charged: World,
    | #[trigger]
        call_made(
            before,
            after,
            to,
            allows_reentry,
            started,
            start,
            value,
            gas_limit,
            entered,
            entry,
            charged,
        );
    if let Ok((effects, pending)) = start {
        let args = FrameArgs::<E>::Call {
            dest: pending.dest,
            cached_info: pending.cached_info,
            stored: performed_all(before.world, effects@).state.stored(to),
        };
        let (meter, made) = lemma_pushed(args, value, gas_limit, started, entered, entry);
    }
}

/// A call or an instantiation whose run fails changes nothing, whatever is executed in it: the
/// runtime holds what it held when the run started, balances and entries of storage included, and
/// every contract is what it was. What changed before the run is that the contract of the caller
/// was stored and that a contract that was called paid its rent.
///
/// `trace` is the execution of the run, from its start to its end.
pub proof fn law_failed_run_changes_nothing<E: Executable>(
    before: Configuration,
    trace: Seq<Configuration>,
    output: ExecResult,
    after: Configuration,
    account_id: AccountId,
)
    requires
        coherent(before.stack, before.world),
        executes::<E>(trace, before.stack.frames.len() as int),
        steps::<E>(before, trace[0]),
        trace.last().stack.frames.len() == before.stack.frames.len() + 1,
        run_left(trace.last(), after, output),
        !keeps_changes(output),
    ensures
        after.world.state == trace[0].world.state,
        after.world.saved == before.world.saved,
        after.world.state == (State {
            balances: after.world.state.balances,
            ..performed_all(before.world, push_effects(before.stack)).state
        }),
        trace[0].stack.top().entry_point == ExportedFunction::Constructor
            ==> after.world.state.balances == before.world.state.balances,
        after.world.state.entries == before.world.state.entries,
        after.world.state.events == before.world.state.events,
        after.world.state.account_counter == before.world.state.account_counter,
        complete(before.stack.frames, account_id) ==> current(
            after.stack.frames,
            after.world.state,
            account_id,
        ) == current(before.stack.frames, before.world.state, account_id),
        after.stack.frames.len() == before.stack.frames.len(),
{
    let depth = before.stack.frames.len() as int;
    let first = trace[0];
    let last = trace.last();
    assert(first.stack.frames.len() > depth);
    law_every_step_keeps_coherence::<E>(before, first);
    law_execution_keeps_coherence::<E>(trace, depth);
    lemma_push_effects(before.stack, before.world);
    lemma_settled_world(last.stack, last.world, output);
    assert(last.world.saved.take(depth + 1) =~= last.world.saved);
    assert(first.world.saved.take(depth + 1) =~= first.world.saved);
    assert(last.world.saved.last() == first.world.state);
    assert(last.world.saved.drop_last() =~= before.world.saved);
    let below = last.stack.frames.drop_last();
    let entry = first.stack.frames.drop_last();
    assert forall|i: int| 0 <= i < depth implies (
    #[trigger] before.stack.frames[i]).account_id == below[i].account_id by {
        assert(before.stack.frames[i].account_id == entry[i].account_id);
        assert(last.stack.frames[i].account_id == first.stack.frames[i].account_id);
    }
    if complete(before.stack.frames, account_id) {
        let i = nearest(before.stack.frames, account_id);
        lemma_nearest(before.stack.frames, account_id);
        lemma_same_nearest(before.stack.frames, below, account_id);
        if i >= 0 {
            assert(before.stack.frames[i].entry_point == entry[i].entry_point);
            assert(last.stack.frames[i].entry_point == first.stack.frames[i].entry_point);
        }
        law_call_saves_contracts(before.stack, before.world, account_id);
        law_failed_call_restores_contracts(last.stack, last.world, output, account_id);
    }
}

} // verus!
