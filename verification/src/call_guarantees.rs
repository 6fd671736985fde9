//! What calls, instantiations and removals are for: what their results satisfy, in terms of what
//! they were given.
use vstd::prelude::*;
use crate::config::Config;
use crate::executable::{Executable, ExportedFunction};
use crate::ext::{
    call_entered, call_started, guarded, instantiation_entered, instantiation_started,
    restoration_outcome, termination_ended, termination_queued, termination_started,
    termination_transferred, PendingCall, PendingInstantiation, Termination,
};
use crate::extension::ExtensionView;
use crate::frame::{CachedContract, Frame, FrameArgs};
use crate::gas::GasMeter;
use crate::guarantees::{law_frame_is_put_on_top, law_run_starts};
use crate::run::{first_run_started, run_started, RunAction, RunStep};
use crate::stack::{
    first_stack, frame_pushed, has_room, lemma_nearest_call, may_reenter, nearest_call, next_seed,
    recursive, rent_due, StackView,
};
use crate::types::{
    AccountId, AliveContractInfo, Balance, BlockNumber, ContractInfo, DispatchError,
    DispatchResult, Effect, Error, ErrorOrigin, Event, ExecError, ExistenceRequirement, Funds,
    Moment, Schedule, TransferRequest, Weight,
};

verus! {

/// A contract is kept from being entered by its own frames alone: a frame of another contract makes
/// no difference, whether its defense is up or not, and wherever it is on the stack.
pub proof fn law_only_own_defense_counts(
    below: Seq<Frame>,
    frame: Frame,
    above: Seq<Frame>,
    account_id: AccountId,
)
    ensures
        ({
            let with_it = may_reenter(below + seq![frame] + above, account_id);
            let without_it = may_reenter(below + above, account_id);
            &&& frame.account_id != account_id ==> with_it == without_it
            &&& frame.account_id == account_id && frame.allows_reentry ==> with_it == without_it
            &&& frame.account_id == account_id && !frame.allows_reentry ==> !with_it
        }),
        may_reenter(Seq::<Frame>::empty(), account_id),
{
    let n = below.len() as int;
    let all = below + seq![frame] + above;
    let rest = below + above;
    assert(all[n] == frame);
    assert(forall|i: int| 0 <= i < n ==> all[i] == rest[i]);
    assert(forall|i: int| n <= i < rest.len() ==> #[trigger] rest[i] == all[i + 1]);
    assert(forall|i: int| n < i < all.len() ==> #[trigger] all[i] == rest[i - 1]);
}

/// A call is refused in exactly two cases: where a frame of the callee has its defense up, for
/// which the flag of this call counts in the current frame, and else where there are as many frames
/// as there may be. Otherwise it starts. The flag stays set for the current frame only where the
/// call starts. No other frame changes, and nothing else does.
pub proof fn law_call_is_refused_for_a_reason(
    before: StackView,
    to: AccountId,
    allows_reentry: bool,
    after: StackView,
    outcome: Result<(Vec<Effect>, PendingCall), ExecError>,
)
    requires
        before.frames.len() >= 1,
        call_started(before, to, allows_reentry, after, outcome),
    ensures
        ({
            let n = before.frames.len() as int;
            let defended = (before.frames[n - 1].account_id == to && !allows_reentry) || (exists|
                i: int,
            |
                0 <= i < n - 1 && (#[trigger] before.frames[i]).account_id == to
                    && !before.frames[i].allows_reentry);
            let full = n - 1 >= before.config.call_depth.limit();
            &&& defended ==> outcome == Err::<(Vec<Effect>, PendingCall), ExecError>(
                ExecError {
                    error: DispatchError::Module(Error::ReentranceDenied),
                    origin: ErrorOrigin::Caller,
                },
            )
            &&& !defended && full ==> outcome == Err::<(Vec<Effect>, PendingCall), ExecError>(
                ExecError {
                    error: DispatchError::Module(Error::MaxCallDepthReached),
                    origin: ErrorOrigin::Caller,
                },
            )
            &&& !defended && !full ==> outcome is Ok
            &&& after.frames.len() == n
            &&& forall|i: int|
                0 <= i < n - 1 ==> #[trigger] after.frames[i] == before.frames[i]
            &&& after.frames[n - 1] == Frame {
                allows_reentry: outcome is Err || allows_reentry,
                ..before.frames[n - 1]
            }
            &&& after == StackView { frames: after.frames, ..before }
        }),
{
    let n = before.frames.len() as int;
    let entry = guarded(before, allows_reentry).frames;
    if !may_reenter(entry, to) {
        let i = choose|i: int|
            0 <= i < entry.len() && (#[trigger] entry[i]).account_id == to
                && !entry[i].allows_reentry;
        if i < n - 1 {
            assert(before.frames[i].account_id == to && !before.frames[i].allows_reentry);
        }
    } else {
        assert(entry[n - 1].account_id == to ==> entry[n - 1].allows_reentry);
        assert forall|i: int|
            0 <= i < n - 1 && (#[trigger] before.frames[i]).account_id
                == to implies before.frames[i].allows_reentry by {
            assert(entry[i] == before.frames[i]);
        }
    }
}

/// A contract that is not on the stack can be called, whatever defenses are up there, as long as
/// there is room.
pub proof fn law_contract_not_on_the_stack_can_be_called(
    before: StackView,
    to: AccountId,
    allows_reentry: bool,
    after: StackView,
    outcome: Result<(Vec<Effect>, PendingCall), ExecError>,
)
    requires
        1 <= before.frames.len() <= before.config.call_depth.limit(),
        forall|i: int|
            0 <= i < before.frames.len() ==> (#[trigger] before.frames[i]).account_id != to,
        call_started(before, to, allows_reentry, after, outcome),
    ensures
        outcome is Ok,
{
    law_call_is_refused_for_a_reason(before, to, allows_reentry, after, outcome);
}

/// A contract whose frames all allow it can be entered again, the current one included if the call
/// allows it, as long as there is room.
pub proof fn law_undefended_contract_can_be_entered_again(
    before: StackView,
    to: AccountId,
    after: StackView,
    outcome: Result<(Vec<Effect>, PendingCall), ExecError>,
)
    requires
        1 <= before.frames.len() <= before.config.call_depth.limit(),
        forall|i: int|
            0 <= i < before.frames.len() - 1 && (#[trigger] before.frames[i]).account_id == to
                ==> before.frames[i].allows_reentry,
        call_started(before, to, true, after, outcome),
    ensures
        outcome is Ok,
{
    law_call_is_refused_for_a_reason(before, to, true, after, outcome);
}

/// A call that starts goes to the account that was named. The contract there is the one that the
/// topmost call of the account has cached: a constructor does not count, and neither does what a
/// frame further down has cached. Before that, the caller's own contract is stored, if the caller
/// is a call and has it cached.
pub proof fn law_started_call_names_its_callee(
    before: StackView,
    to: AccountId,
    allows_reentry: bool,
    after: StackView,
    effects: Vec<Effect>,
    pending: PendingCall,
)
    requires
        before.frames.len() >= 1,
        call_started(
            before,
            to,
            allows_reentry,
            after,
            Ok::<(Vec<Effect>, PendingCall), ExecError>((effects, pending)),
        ),
    ensures
        pending.dest == to,
        (forall|i: int|
            0 <= i < before.frames.len() ==> (#[trigger] before.frames[i]).account_id != to
                || before.frames[i].entry_point == ExportedFunction::Constructor)
            ==> pending.cached_info is None,
        forall|i: int|
            {
                &&& 0 <= i < before.frames.len()
                &&& (#[trigger] before.frames[i]).account_id == to
                &&& before.frames[i].entry_point == ExportedFunction::Call
                &&& forall|j: int|
                    i < j < before.frames.len() ==> (#[trigger] before.frames[j]).account_id != to
                        || before.frames[j].entry_point == ExportedFunction::Constructor
            } ==> pending.cached_info == (match before.frames[i].contract_info {
                CachedContract::Cached(info) => Some(info),
                CachedContract::Invalidated => None,
                CachedContract::Terminated => None,
            }),
        ({
            let caller = before.frames.last();
            if caller.contract_info is Cached && caller.entry_point == ExportedFunction::Call {
                effects@ == seq![
                    Effect::InsertContract(caller.account_id, caller.contract_info->Cached_0),
                ]
            } else {
                effects@.len() == 0
            }
        }),
{
    let frames = before.frames;
    lemma_topmost_call(frames, to);
    lemma_nearest_call(frames, to);
    assert forall|i: int|
        {
            &&& 0 <= i < frames.len()
            &&& (#[trigger] frames[i]).account_id == to
            &&& frames[i].entry_point == ExportedFunction::Call
            &&& forall|j: int|
                i < j < frames.len() ==> (#[trigger] frames[j]).account_id != to
                    || frames[j].entry_point == ExportedFunction::Constructor
        } implies pending.cached_info == (match frames[i].contract_info {
        CachedContract::Cached(info) => Some(info),
        CachedContract::Invalidated => None,
        CachedContract::Terminated => None,
    }) by {
        let k = nearest_call(frames, to);
        if k > i {
            assert(frames[k].account_id == to);
        }
    }
}

/// No call of the account is above the one that is found.
proof fn lemma_topmost_call(frames: Seq<Frame>, account_id: AccountId)
    ensures
        forall|j: int|
            nearest_call(frames, account_id) < j < frames.len() && (
            #[trigger] frames[j]).account_id == account_id ==> frames[j].entry_point
                != ExportedFunction::Call,
    decreases frames.len(),
{
    if frames.len() > 0 && !(frames.last().account_id == account_id
        && frames.last().entry_point == ExportedFunction::Call) {
        let below = frames.drop_last();
        lemma_topmost_call(below, account_id);
        lemma_nearest_call(below, account_id);
        assert forall|j: int|
            nearest_call(frames, account_id) < j < frames.len() && (
            #[trigger] frames[j]).account_id == account_id implies frames[j].entry_point
            != ExportedFunction::Call by {
            if j < below.len() {
                assert(below[j] == frames[j]);
            }
        }
    }
}

/// When a call is over, the current contract can be entered again. Nothing else changes.
pub proof fn law_defense_comes_down(stack: StackView, allows_reentry: bool)
    requires
        stack.frames.len() >= 1,
    ensures
        ({
            let n = stack.frames.len() as int;
            let after = guarded(stack, allows_reentry);
            &&& after.frames.len() == n
            &&& forall|i: int|
                0 <= i < n - 1 ==> #[trigger] after.frames[i] == stack.frames[i]
            &&& after.frames[n - 1] == Frame { allows_reentry, ..stack.frames[n - 1] }
            &&& after == StackView { frames: after.frames, ..stack }
        }),
{
}

/// A contract that is called pays rent for its share of the code: as much as leaves less than one
/// byte for each of the users over. The code of a new contract is paid for otherwise.
pub proof fn law_call_pays_rent<E: Executable>(frame: Frame, executable: E)
    ensures
        ({
            let due = rent_due(frame, executable);
            let len = executable.aggregate_len();
            let users = executable.users();
            &&& frame.entry_point == ExportedFunction::Constructor ==> due.len() == 0
            &&& frame.entry_point == ExportedFunction::Call ==> {
                &&& due.len() == 1
                &&& due[0] matches Effect::ChargeRent(account_id, share)
                &&& account_id == frame.account_id
                &&& users == 0 ==> share == len
                &&& users > 0 ==> share * users <= len < (share + 1) * users
            }
        }),
{
    let len = executable.aggregate_len();
    let users = executable.users();
    if users > 0 {
        let share = len / users;
        assert(share * users <= len < (share + 1) * users) by (nonlinear_arith)
            requires
                users > 0,
                share == len / users,
        ;
    }
}

/// A call that was allowed is entered where there is still room: a frame for the callee is pushed,
/// and the rent that is due for it is all that is asked for. Where there is no frame, the current
/// contract can be entered again.
pub proof fn law_entered_call_has_a_frame<E: Executable>(
    pending: PendingCall,
    stored: Option<ContractInfo>,
    value: Balance,
    gas_limit: Weight,
    before: StackView,
    after: StackView,
    outcome: Result<(Vec<Effect>, E), ExecError>,
)
    requires
        before.frames.len() >= 1,
        call_entered(pending, stored, value, gas_limit, before, after, outcome),
    ensures
        ({
            let n = before.frames.len() as int;
            let full = n - 1 >= before.config.call_depth.limit();
            &&& full ==> outcome == Err::<(Vec<Effect>, E), ExecError>(
                ExecError {
                    error: DispatchError::Module(Error::MaxCallDepthReached),
                    origin: ErrorOrigin::Caller,
                },
            )
            &&& outcome is Err ==> {
                &&& after.frames.len() == n
                &&& after.frames[n - 1].allows_reentry
                &&& after.frames[n - 1].account_id == before.frames[n - 1].account_id
                &&& after.frames[n - 1].contract_info == before.frames[n - 1].contract_info
                &&& after.frames[n - 1].entry_point == before.frames[n - 1].entry_point
                &&& full ==> after.frames[n - 1].nested_meter == before.frames[n - 1].nested_meter
                &&& !full ==> exists|pushed: StackView|
                    #[trigger] frame_pushed(
                        FrameArgs::Call {
                            dest: pending.dest,
                            cached_info: pending.cached_info,
                            stored,
                        },
                        value,
                        gas_limit,
                        before,
                        pushed,
                        Err::<E, ExecError>(outcome->Err_0),
                    ) && after.frames[n - 1].nested_meter == pushed.frames[n - 1].nested_meter
            }
            &&& outcome matches Ok((effects, executable)) ==> {
                &&& !full
                &&& effects@ == rent_due(after.frames[n], executable)
                &&& after.frames.len() == n + 1
                &&& after.frames[n].account_id == pending.dest
                &&& after.frames[n].entry_point == ExportedFunction::Call
                &&& frame_pushed(
                    FrameArgs::Call {
                        dest: pending.dest,
                        cached_info: pending.cached_info,
                        stored,
                    },
                    value,
                    gas_limit,
                    before,
                    after,
                    Ok::<E, ExecError>(executable),
                )
            }
            &&& forall|i: int|
                0 <= i < n - 1 ==> #[trigger] after.frames[i] == before.frames[i]
            &&& after == StackView { frames: after.frames, ..before }
        }),
{
    let args = FrameArgs::<E>::Call {
        dest: pending.dest,
        cached_info: pending.cached_info,
        stored,
    };
    if has_room(before) {
        let (pushed, entry) = choose|pushed: StackView, entry: Result<E, ExecError>|
            #[trigger] frame_pushed(args, value, gas_limit, before, pushed, entry) && (match entry {
                Ok(executable) => {
                    &&& outcome matches Ok((effects, x))
                    &&& effects@ == rent_due(pushed.top(), executable)
                    &&& x == executable
                    &&& after == pushed
                },
                Err(error) => {
                    &&& outcome == Err::<(Vec<Effect>, E), ExecError>(error)
                    &&& after == guarded(pushed, true)
                },
            });
        law_frame_is_put_on_top(args, value, gas_limit, before, pushed, entry);
        if entry is Err {
            law_defense_comes_down(pushed, true);
            assert(entry == Err::<E, ExecError>(outcome->Err_0));
            assert(frame_pushed(
                args,
                value,
                gas_limit,
                before,
                pushed,
                Err::<E, ExecError>(outcome->Err_0),
            ));
        }
    }
}

/// The seeds of the contracts that one execution creates are consecutive, from the one after the
/// stored counter on. Without a cached counter, the stored one counts, and with one it does not.
pub proof fn law_seeds_are_consecutive(cached: Option<u64>, stored_counter: u64)
    requires
        cached != Some(u64::MAX),
    ensures
        cached matches Some(counter) ==> next_seed(cached, stored_counter) == counter + 1,
        cached is None && stored_counter < u64::MAX ==> next_seed(cached, stored_counter)
            == stored_counter + 1,
        cached is None && stored_counter == u64::MAX ==> next_seed(cached, stored_counter) == 0,
        next_seed(cached, stored_counter) != u64::MAX ==> next_seed(
            Some(next_seed(cached, stored_counter)),
            stored_counter,
        ) == next_seed(cached, stored_counter) + 1,
{
}

/// An instantiation starts on behalf of the current contract, which pays for loading the code. The
/// counter goes up by one as soon as the code is there. It is refused for want of room alone.
pub proof fn law_instantiation_is_on_behalf_of_the_current_contract<E: Executable>(
    before: StackView,
    stored_counter: u64,
    charged: GasMeter,
    load: Result<E, DispatchError>,
    after: StackView,
    outcome: Result<(Vec<Effect>, PendingInstantiation<E>), ExecError>,
)
    requires
        before.frames.len() >= 1,
        before.account_counter != Some(u64::MAX),
        instantiation_started(before, stored_counter, charged, load, after, outcome),
    ensures
        ({
            let n = before.frames.len() as int;
            let top = before.frames[n - 1];
            let full = n - 1 >= before.config.call_depth.limit();
            &&& outcome is Ok <==> load is Ok && !full
            &&& outcome matches Err(e) ==> e == ExecError {
                error: match load {
                    Err(error) => error,
                    Ok(_) => DispatchError::Module(Error::MaxCallDepthReached),
                },
                origin: ErrorOrigin::Caller,
            }
            &&& outcome matches Ok((effects, pending)) ==> {
                &&& pending.sender == top.account_id
                &&& load == Ok::<E, DispatchError>(pending.executable)
                &&& after.account_counter == Some(pending.trie_seed)
                &&& if top.contract_info is Cached && top.entry_point == ExportedFunction::Call {
                    effects@ == seq![
                        Effect::InsertContract(top.account_id, top.contract_info->Cached_0),
                    ]
                } else {
                    effects@.len() == 0
                }
            }
            &&& load is Err ==> after.account_counter == before.account_counter
            &&& load is Ok ==> after.account_counter == Some(
                match before.account_counter {
                    Some(counter) => (counter + 1) as u64,
                    None => if stored_counter == u64::MAX {
                        0
                    } else {
                        (stored_counter + 1) as u64
                    },
                },
            )
            &&& after.frames.len() == n
            &&& forall|i: int|
                0 <= i < n - 1 ==> #[trigger] after.frames[i] == before.frames[i]
            &&& after.frames[n - 1] == Frame { nested_meter: charged, ..top }
            &&& after == StackView {
                frames: after.frames,
                account_counter: after.account_counter,
                ..before
            }
        }),
{
}

/// An instantiation that was allowed gets a frame for its account where there is still room, with
/// nothing changed below but what the frame is paid from. The account that is returned is the one
/// that the frame is for.
pub proof fn law_entered_instantiation_has_a_frame<E: Executable>(
    pending: PendingInstantiation<E>,
    account_id: AccountId,
    created: Result<AliveContractInfo, DispatchError>,
    endowment: Balance,
    gas_limit: Weight,
    before: StackView,
    after: StackView,
    outcome: Result<(AccountId, E), ExecError>,
)
    requires
        before.frames.len() >= 1,
        instantiation_entered(
            pending,
            account_id,
            created,
            endowment,
            gas_limit,
            before,
            after,
            outcome,
        ),
    ensures
        ({
            let n = before.frames.len() as int;
            let left = before.frames[n - 1].nested_meter.gas_left;
            let full = n - 1 >= before.config.call_depth.limit();
            &&& outcome is Ok <==> !full && created is Ok && gas_limit <= left
            &&& outcome matches Err(e) ==> {
                &&& e == ExecError {
                    error: if full {
                        DispatchError::Module(Error::MaxCallDepthReached)
                    } else {
                        match created {
                            Err(error) => error,
                            Ok(_) => DispatchError::Module(Error::OutOfGas),
                        }
                    },
                    origin: ErrorOrigin::Caller,
                }
                &&& after == before
            }
            &&& outcome matches Ok((id, executable)) ==> {
                &&& id == account_id
                &&& executable == pending.executable
                &&& after.frames.len() == n + 1
                &&& after.frames[n].account_id == account_id
                &&& after.frames[n].entry_point == ExportedFunction::Constructor
                &&& after.frames[n].value_transferred == endowment
                &&& created matches Ok(info)
                &&& after.frames[n].contract_info == CachedContract::Cached(info)
                &&& gas_limit != 0 ==> after.frames[n].nested_meter.gas_left == gas_limit
                &&& gas_limit == 0 ==> after.frames[n].nested_meter.gas_left == left
                &&& after.frames[n - 1].nested_meter.gas_left == left
                    - after.frames[n].nested_meter.gas_left
                &&& forall|i: int|
                    0 <= i < n - 1 ==> #[trigger] after.frames[i] == before.frames[i]
                &&& after == StackView { frames: after.frames, ..before }
            }
        }),
{
    let args = FrameArgs::<E>::Instantiate { account_id, created, executable: pending.executable };
    if has_room(before) {
        let pushed = choose|pushed: Result<E, ExecError>|
            #[trigger] frame_pushed(args, endowment, gas_limit, before, after, pushed)
                && outcome == (match pushed {
                Ok(executable) => Ok::<(AccountId, E), ExecError>((account_id, executable)),
                Err(error) => Err::<(AccountId, E), ExecError>(error),
            });
        law_frame_is_put_on_top(args, endowment, gas_limit, before, after, pushed);
        if outcome is Err {
            assert(after.frames =~= before.frames);
        }
    }
}

/// The first frame of a call stack is run like any other: the rent that is due for a call comes
/// first, and nothing does before a constructor. All of the gas goes to the frame, and the value
/// comes from the origin. The stack starts with no counter cached.
pub proof fn law_first_frame_is_run<E: Executable>(
    frame: Frame,
    executable: E,
    origin: AccountId,
    gas_meter: GasMeter,
    schedule: Schedule,
    config: Config,
    timestamp: Moment,
    block_number: BlockNumber,
    debug_message: Option<Seq<u8>>,
    extension: ExtensionView,
    funds: Funds,
    after: StackView,
    step: RunStep,
)
    requires
        first_run_started(
            frame,
            executable,
            origin,
            gas_meter,
            schedule,
            config,
            timestamp,
            block_number,
            debug_message,
            extension,
            funds,
            after,
            step,
        ),
    ensures
        ({
            let rents = if frame.entry_point == ExportedFunction::Call {
                1int
            } else {
                0int
            };
            let unfunded = frame.entry_point == ExportedFunction::Constructor
                && frame.value_transferred < funds.subsistence_threshold;
            &&& step.effects@.len() > rents
            &&& step.effects@[rents] == Effect::BeginTransaction
            &&& rents == 1 ==> step.effects@[0] is ChargeRent
            &&& step.action is Return <==> executable.target() is Some || unfunded
            &&& step.action matches RunAction::Execute(function) ==> {
                &&& frame.value_transferred == 0
                &&& function == frame.entry_point
            }
            &&& step.action matches RunAction::Transfer(request) ==> request == (TransferRequest {
                from: origin,
                to: frame.account_id,
                value: frame.value_transferred,
                existence: ExistenceRequirement::KeepAlive,
            })
            &&& !(step.action is Return) ==> {
                &&& after.frames == seq![frame]
                &&& after.account_counter is None
                &&& after.gas_meter == gas_meter
            }
            &&& run_started(
                StackView {
                    origin,
                    schedule,
                    config,
                    gas_meter,
                    timestamp,
                    block_number,
                    account_counter: None,
                    frames: seq![frame],
                    debug_message,
                    extension,
                },
                rent_due(frame, executable),
                executable,
                funds,
                after,
                step,
            )
        }),
{
    let stack = first_stack(
        frame,
        origin,
        gas_meter,
        schedule,
        config,
        timestamp,
        block_number,
        debug_message,
        extension,
    );
    let due = rent_due(frame, executable);
    law_run_starts(stack, due, executable, funds, after, step);
    law_call_pays_rent(frame, executable);
    if frame.entry_point == ExportedFunction::Call {
        assert(step.effects@.take(1)[0] == due[0]);
    }
}

/// A frame that is put on top is recursive exactly where one of those below is of its account. A
/// first frame never is.
pub proof fn law_recursion_is_seen(frames: Seq<Frame>, frame: Frame)
    ensures
        recursive(frames.push(frame)) <==> exists|i: int|
            0 <= i < frames.len() && (#[trigger] frames[i]).account_id == frame.account_id,
        !recursive(seq![frame]),
{
    let all = frames.push(frame);
    assert(all.last() == frame);
    assert(forall|i: int| 0 <= i < frames.len() ==> #[trigger] all[i] == frames[i]);
    assert(forall|i: int| 0 <= i < frames.len() ==> all[i] == #[trigger] frames[i]);
}

/// A contract can be given up for another one exactly where it can remove itself, and else both are
/// refused alike.
pub proof fn law_restoration_is_refused_like_a_removal(
    before: StackView,
    beneficiary: AccountId,
    stored: Option<ContractInfo>,
    after: StackView,
    outcome: Result<Termination, DispatchError>,
)
    requires
        termination_started(before, beneficiary, stored, after, outcome),
    ensures
        restoration_outcome(before) is Err <==> outcome is Err,
        outcome matches Err(error) ==> restoration_outcome(before) == Err::<(), DispatchError>(
            error,
        ),
{
}

/// A contract removes itself in favour of the beneficiary that it names, unless another frame is of
/// the same contract. Until then, nothing happens to it, and from then on its frame does not have
/// it.
pub proof fn law_removal_starts_unless_recursive(
    before: StackView,
    beneficiary: AccountId,
    stored: Option<ContractInfo>,
    after: StackView,
    outcome: Result<Termination, DispatchError>,
)
    requires
        before.frames.len() >= 1,
        termination_started(before, beneficiary, stored, after, outcome),
    ensures
        ({
            let n = before.frames.len() as int;
            let top = before.frames[n - 1];
            let twice = exists|i: int|
                0 <= i < n - 1 && (#[trigger] before.frames[i]).account_id == top.account_id;
            &&& twice ==> after == before && outcome == Err::<Termination, DispatchError>(
                DispatchError::Module(Error::TerminatedWhileReentrant),
            )
            &&& !twice ==> {
                &&& outcome matches Ok(termination)
                &&& termination.account_id == top.account_id
                &&& termination.beneficiary == beneficiary
                &&& match top.contract_info {
                    CachedContract::Cached(info) => termination.info == info,
                    CachedContract::Invalidated => stored == Some(
                        ContractInfo::Alive(termination.info),
                    ),
                    CachedContract::Terminated => false,
                }
                &&& after.frames.len() == n
                &&& forall|i: int|
                    0 <= i < n - 1 ==> #[trigger] after.frames[i] == before.frames[i]
                &&& after.frames[n - 1] == Frame {
                    contract_info: CachedContract::Terminated,
                    ..top
                }
                &&& after == StackView { frames: after.frames, ..before }
            }
        }),
{
}

/// A removal that comes to its end gives all of the contract's free balance to the beneficiary, of
/// which the account may die, and nothing is transferred where there is nothing. What is stored for
/// the contract goes, and that is reported with the beneficiary.
pub proof fn law_removed_contract_leaves_nothing(
    termination: Termination,
    queued: DispatchResult,
    free_balance: Balance,
    decision: Result<Option<TransferRequest>, DispatchError>,
    made: bool,
    cleared: Result<Vec<Effect>, DispatchError>,
    before: StackView,
    charged: GasMeter,
    removed: DispatchResult,
    after: StackView,
    outcome: Result<Vec<Effect>, DispatchError>,
)
    requires
        before.frames.len() >= 1,
        termination_queued(termination, queued, free_balance, decision),
        termination_transferred(termination, made, cleared),
        termination_ended(before, termination, charged, removed, after, outcome),
    ensures
        match queued {
            Err(error) => decision == Err::<Option<TransferRequest>, DispatchError>(error),
            Ok(_) => decision == Ok::<Option<TransferRequest>, DispatchError>(
                if free_balance == 0 {
                    None
                } else {
                    Some(
                        TransferRequest {
                            from: termination.account_id,
                            to: termination.beneficiary,
                            value: free_balance,
                            existence: ExistenceRequirement::AllowDeath,
                        },
                    )
                },
            ),
        },
        made ==> (cleared matches Ok(effects) && effects@ == seq![
            Effect::RemoveContract(termination.account_id),
        ]),
        !made ==> cleared == Err::<Vec<Effect>, DispatchError>(
            DispatchError::Module(Error::TransferFailed),
        ),
        match removed {
            Err(error) => outcome == Err::<Vec<Effect>, DispatchError>(error),
            Ok(_) => outcome matches Ok(effects) && effects@ == seq![
                Effect::DepositEvent(
                    Event::Terminated(termination.account_id, termination.beneficiary),
                ),
            ],
        },
        ({
            let n = before.frames.len() as int;
            &&& after.frames.len() == n
            &&& forall|i: int|
                0 <= i < n - 1 ==> #[trigger] after.frames[i] == before.frames[i]
            &&& after.frames[n - 1] == Frame { nested_meter: charged, ..before.frames[n - 1] }
            &&& after == StackView { frames: after.frames, ..before }
        }),
{
}

} // verus!
