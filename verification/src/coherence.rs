//! What holds between the call stack and the state of the runtime, whatever is executed.
//!
//! Every frame runs in a transaction of its own, and caches what storage holds for its contract.
//! A call stack and a world are coherent where each frame can rely on its contract: it is there,
//! in the state as it is and in every state that a failure can bring back. The laws of this module
//! say that every operation keeps them coherent, and what follows from it.
use vstd::prelude::*;
use crate::executable::{Executable, ExportedFunction};
use crate::ext::{
    call_started, guarded, instantiation_started, with_info, PendingCall, PendingInstantiation,
};
use crate::frame::{effective, CachedContract, Frame, FrameArgs};
use crate::gas::GasMeter;
use crate::run::{
    completes_instantiation, run_ended, run_settled, run_started, settle_effects, RunAction,
    RunStep,
};
use crate::stack::{
    cached_by_call, frame_made, frame_pushed, frames_after_pop, lemma_nearest, lemma_nearest_call,
    lemma_pushed, nearest, nearest_call, pop_effects, popped, push_effects, recursive, StackView,
};
use crate::types::{
    keeps_changes, refusal, AccountId, AliveContractInfo, Balance, ContractInfo, DispatchError,
    Effect, Error, Event, ExecError, ExecResult, Funds, Schedule, Weight,
};
use crate::world::{
    lemma_performed_append, lemma_performed_none, lemma_performed_one, performed, performed_all,
    State, World,
};

verus! {

/// What the runtime held before the transaction of the given depth was opened, or what it holds.
pub open spec fn state_at(world: World, depth: int) -> State {
    if depth < world.saved.len() {
        world.saved[depth]
    } else {
        world.state
    }
}

/// Whether the contract of a frame is stored in every state from the frame's own transaction on.
pub open spec fn alive_throughout(frames: Seq<Frame>, world: World, i: int) -> bool {
    forall|k: int|
        i <= k <= frames.len() ==> (#[trigger] state_at(world, k)).alive(
            frames[i].account_id,
        ) is Some
}

/// Whether nothing is stored for the account of a frame in any state from the given one on.
pub open spec fn absent_from(frames: Seq<Frame>, world: World, i: int, from: int) -> bool {
    forall|k: int|
        from <= k <= frames.len() ==> !(#[trigger] state_at(world, k)).contracts.contains_key(
            frames[i].account_id,
        )
}

/// Whether no other frame is of the same account.
pub open spec fn alone(frames: Seq<Frame>, i: int) -> bool {
    forall|j: int|
        0 <= j < frames.len() && j != i ==> (#[trigger] frames[j]).account_id
            != frames[i].account_id
}

/// Whether the contract of a frame is not in any frame above it, up to the given one.
pub open spec fn undisturbed(frames: Seq<Frame>, i: int, k: int) -> bool {
    forall|j: int| i < j < k ==> (#[trigger] frames[j]).account_id != frames[i].account_id
}

/// Whether the contract of a frame that made a call is stored as the given one, in every state
/// from that call on, up to where the contract is entered again.
pub open spec fn stored_since_call(
    frames: Seq<Frame>,
    world: World,
    i: int,
    info: AliveContractInfo,
) -> bool {
    forall|k: int|
        i + 1 <= k <= frames.len() && undisturbed(frames, i, k) ==> (#[trigger] state_at(
            world,
            k,
        )).alive(frames[i].account_id) == Some(info)
}

/// Whether all frames of the same account below a frame know that what they have is stale.
pub open spec fn stale_below(frames: Seq<Frame>, i: int) -> bool {
    forall|j: int|
        0 <= j < i && (#[trigger] frames[j]).account_id == frames[i].account_id
            ==> frames[j].contract_info == CachedContract::Invalidated
}

/// Whether a frame can rely on its contract.
///
/// The contract of a call is stored, unless the frame removed it. What the frame had cached when
/// it made a call is what is stored since then. Where it has nothing cached, it is alone or the
/// frames further down have nothing cached either.
/// The contract of a constructor is not stored before the constructor is done, and it is in no
/// other frame.
pub open spec fn frame_coherent(frames: Seq<Frame>, world: World, i: int) -> bool {
    let frame = frames[i];
    match frame.entry_point {
        ExportedFunction::Call => {
            &&& alive_throughout(frames, world, i) || (frame.contract_info
                == CachedContract::Terminated && alone(frames, i) && absent_from(
                frames,
                world,
                i,
                i + 1,
            ))
            &&& i < frames.len() - 1 ==> (frame.contract_info matches CachedContract::Cached(info)
                ==> stored_since_call(frames, world, i, info))
            &&& frame.contract_info is Cached || stale_below(frames, i)
        },
        ExportedFunction::Constructor => {
            &&& alone(frames, i)
            &&& absent_from(frames, world, i, i)
            &&& frame.contract_info != CachedContract::Invalidated
        },
    }
}

/// Whether every frame runs in a transaction of its own and can rely on its contract.
pub open spec fn coherent(stack: StackView, world: World) -> bool {
    &&& stack.frames.len() >= 1
    &&& world.saved.len() == stack.frames.len()
    &&& forall|i: int|
        0 <= i < stack.frames.len() ==> #[trigger] frame_coherent(stack.frames, world, i)
}

/// Whether two lists of frames agree on what they execute: on accounts, entry points, transferred
/// values and contracts.
pub open spec fn similar(a: Seq<Frame>, b: Seq<Frame>) -> bool {
    &&& a.len() == b.len()
    &&& forall|i: int|
        0 <= i < a.len() ==> {
            &&& (#[trigger] a[i]).account_id == b[i].account_id
            &&& a[i].entry_point == b[i].entry_point
            &&& a[i].value_transferred == b[i].value_transferred
            &&& a[i].contract_info == b[i].contract_info
        }
}

/// Gas, the defense against reentrance, messages and the debug buffer are of no concern to
/// coherence: an operation that changes nothing else keeps stack and world coherent.
pub proof fn law_other_changes_keep_coherence(a: StackView, b: StackView, world: World)
    requires
        coherent(a, world),
        similar(a.frames, b.frames),
    ensures
        coherent(b, world),
{
    assert forall|i: int| 0 <= i < b.frames.len() implies #[trigger] frame_coherent(
        b.frames,
        world,
        i,
    ) by {
        assert(frame_coherent(a.frames, world, i));
        assert(a.frames[i].account_id == b.frames[i].account_id);
        lemma_same_accounts(a.frames, b.frames, world, i);
        if a.frames[i].entry_point == ExportedFunction::Call {
            if alive_throughout(a.frames, world, i) {
                assert(alive_throughout(b.frames, world, i));
            } else {
                lemma_similar_alone(a.frames, b.frames, i);
                assert(absent_from(b.frames, world, i, i + 1));
            }
        } else {
            lemma_similar_alone(a.frames, b.frames, i);
            assert(absent_from(b.frames, world, i, i));
        }
    }
}

proof fn lemma_similar_alone(a: Seq<Frame>, b: Seq<Frame>, i: int)
    requires
        similar(a, b),
        alone(a, i),
        0 <= i < a.len(),
    ensures
        alone(b, i),
{
    assert forall|j: int| 0 <= j < b.len() && j != i implies (#[trigger] b[j]).account_id
        != b[i].account_id by {
        assert(a[j].account_id == b[j].account_id);
        assert(a[i].account_id == b[i].account_id);
    }
}

/// A frame that is undisturbed is so among frames of the same accounts, up to any lower one.
proof fn lemma_undisturbed(a: Seq<Frame>, b: Seq<Frame>, i: int, m: int, k: int)
    requires
        0 <= i < m <= k,
        m <= a.len(),
        k <= b.len(),
        forall|j: int| i <= j < m ==> (#[trigger] a[j]).account_id == b[j].account_id,
        undisturbed(b, i, k),
    ensures
        undisturbed(a, i, m),
{
    assert(a[i].account_id == b[i].account_id);
    assert forall|j: int| i < j < m implies (#[trigger] a[j]).account_id != a[i].account_id by {
        assert(b[j].account_id != b[i].account_id);
    }
}

/// What is said of a frame's cache holds among frames of the same accounts.
proof fn lemma_same_accounts(a: Seq<Frame>, b: Seq<Frame>, world: World, i: int)
    requires
        a.len() == b.len(),
        0 <= i < a.len(),
        forall|j: int| 0 <= j < a.len() ==> (#[trigger] a[j]).account_id == b[j].account_id,
        forall|j: int| 0 <= j < i ==> (#[trigger] a[j]).contract_info == b[j].contract_info,
    ensures
        forall|info: AliveContractInfo|
            stored_since_call(a, world, i, info) ==> #[trigger] stored_since_call(
                b,
                world,
                i,
                info,
            ),
        stale_below(a, i) ==> stale_below(b, i),
{
    assert(a[i].account_id == b[i].account_id);
    assert forall|info: AliveContractInfo| stored_since_call(a, world, i, info) implies
    #[trigger] stored_since_call(b, world, i, info) by {
        assert forall|k: int| i + 1 <= k <= b.len() && undisturbed(b, i, k) implies (
        #[trigger] state_at(world, k)).alive(b[i].account_id) == Some(info) by {
            lemma_undisturbed(a, b, i, k, k);
        }
    }
    if stale_below(a, i) {
        assert forall|j: int| 0 <= j < i && (#[trigger] b[j]).account_id
            == b[i].account_id implies b[j].contract_info == CachedContract::Invalidated by {
            assert(a[j].account_id == b[j].account_id);
            assert(a[j].contract_info == b[j].contract_info);
        }
    }
}

/// What is stored before a frame is pushed is at most the contract of the topmost frame.
pub proof fn lemma_push_effects(stack: StackView, world: World)
    ensures
        ({
            let after = performed_all(world, push_effects(stack));
            let top = stack.top();
            &&& after.saved == world.saved
            &&& match top.contract_info {
                CachedContract::Cached(info) => if top.entry_point == ExportedFunction::Call {
                    after.state == State {
                        contracts: world.state.contracts.insert(
                            top.account_id,
                            ContractInfo::Alive(info),
                        ),
                        ..world.state
                    }
                } else {
                    after.state == world.state
                },
                _ => after.state == world.state,
            }
        }),
{
    let top = stack.top();
    lemma_performed_none(world);
    if let CachedContract::Cached(info) = top.contract_info {
        lemma_performed_one(world, Effect::InsertContract(top.account_id, info));
    }
}

/// Storing the contract of the topmost frame keeps the world coherent.
proof fn lemma_sync(stack: StackView, world: World)
    requires
        coherent(stack, world),
    ensures
        coherent(stack, performed_all(world, push_effects(stack))),
{
    let after = performed_all(world, push_effects(stack));
    let frames = stack.frames;
    let n = frames.len() as int;
    let top = stack.top();
    lemma_push_effects(stack, world);
    assert forall|i: int| 0 <= i < n implies #[trigger] frame_coherent(frames, after, i) by {
        assert(frame_coherent(frames, world, i));
        assert(frame_coherent(frames, world, n - 1));
        assert(frames[n - 1] == top);
        assert forall|k: int| 0 <= k < n implies state_at(after, k) == state_at(world, k) by {}
        if frames[i].entry_point == ExportedFunction::Call {
            if alive_throughout(frames, world, i) {
                assert forall|k: int| i <= k <= n implies (#[trigger] state_at(after, k)).alive(
                    frames[i].account_id,
                ) is Some by {
                    assert(state_at(world, k).alive(frames[i].account_id) is Some);
                }
                assert(alive_throughout(frames, after, i));
                if i < n - 1 {
                    if let CachedContract::Cached(info) = frames[i].contract_info {
                        assert forall|k: int|
                            i + 1 <= k <= n && undisturbed(frames, i, k) implies (
                        #[trigger] state_at(after, k)).alive(frames[i].account_id) == Some(
                            info,
                        ) by {
                            assert(state_at(world, k).alive(frames[i].account_id) == Some(info));
                            assert(k == n ==> frames[n - 1].account_id != frames[i].account_id);
                        }
                        assert(stored_since_call(frames, after, i, info));
                    }
                }
            } else {
                assert(top.contract_info is Cached ==> i != n - 1);
                assert(i != n - 1 ==> frames[n - 1].account_id != frames[i].account_id);
                assert forall|k: int| i + 1 <= k <= n implies !(#[trigger] state_at(
                    after,
                    k,
                )).contracts.contains_key(frames[i].account_id) by {
                    assert(!state_at(world, k).contracts.contains_key(frames[i].account_id));
                }
            }
        } else {
            assert(i != n - 1 ==> frames[n - 1].account_id != frames[i].account_id);
            assert forall|k: int| i <= k <= n implies !(#[trigger] state_at(
                after,
                k,
            )).contracts.contains_key(frames[i].account_id) by {
                assert(!state_at(world, k).contracts.contains_key(frames[i].account_id));
            }
        }
    }
}

/// Whether what the topmost frame has cached, if it is a call, is what is stored.
spec fn synced(stack: StackView, world: World) -> bool {
    stack.top().entry_point == ExportedFunction::Call ==> (
    stack.top().contract_info matches CachedContract::Cached(info) ==> world.state.alive(
        stack.top().account_id,
    ) == Some(info))
}

/// The states that can come back after a transaction was opened are those from before, and the
/// current one.
proof fn lemma_begin(world: World)
    ensures
        ({
            let after = performed(world, Effect::BeginTransaction);
            let n = world.saved.len() as int;
            &&& after.saved.len() == n + 1
            &&& forall|k: int| 0 <= k <= n ==> #[trigger] state_at(after, k) == state_at(world, k)
            &&& state_at(after, n + 1) == world.state
            &&& state_at(world, n) == world.state
        }),
{
}

/// The frames below stay coherent when a frame is pushed and its transaction is opened, unless
/// they want to be alone with the pushed frame's account.
proof fn lemma_pushed_below(stack: StackView, world: World, frame: Frame, i: int)
    requires
        coherent(stack, world),
        synced(stack, world),
        0 <= i < stack.frames.len(),
        alone(stack.frames, i) && stack.frames[i].account_id == frame.account_id
            ==> alive_throughout(stack.frames, world, i) && stack.frames[i].entry_point
            == ExportedFunction::Call,
    ensures
        frame_coherent(
            stack.frames.push(frame),
            performed(world, Effect::BeginTransaction),
            i,
        ),
{
    let frames = stack.frames;
    let n = frames.len() as int;
    let pushed = frames.push(frame);
    let after = performed(world, Effect::BeginTransaction);
    lemma_begin(world);
    assert(frame_coherent(frames, world, i));
    assert(pushed[i] == frames[i]);
    assert(frames.last() == stack.top());
    if frames[i].entry_point == ExportedFunction::Call {
        if alive_throughout(frames, world, i) {
            assert forall|k: int| i <= k <= n + 1 implies (#[trigger] state_at(after, k)).alive(
                pushed[i].account_id,
            ) is Some by {
                if k <= n {
                    assert(state_at(world, k).alive(frames[i].account_id) is Some);
                } else {
                    assert(state_at(world, n).alive(frames[i].account_id) is Some);
                }
            }
            assert(alive_throughout(pushed, after, i));
            if let CachedContract::Cached(info) = frames[i].contract_info {
                assert forall|k: int|
                    i + 1 <= k <= n + 1 && undisturbed(pushed, i, k) implies (
                #[trigger] state_at(after, k)).alive(pushed[i].account_id) == Some(info) by {
                    let l = if k <= n {
                        k
                    } else {
                        n
                    };
                    assert(state_at(after, k) == state_at(world, l));
                    if i < n - 1 {
                        lemma_undisturbed(frames, pushed, i, l, k);
                        assert(state_at(world, l).alive(frames[i].account_id) == Some(info));
                    }
                }
                assert(stored_since_call(pushed, after, i, info));
            }
        } else {
            assert(alone(pushed, i));
            assert forall|k: int| i + 1 <= k <= n + 1 implies !(#[trigger] state_at(
                after,
                k,
            )).contracts.contains_key(pushed[i].account_id) by {
                let l = if k <= n {
                    k
                } else {
                    n
                };
                assert(!state_at(world, l).contracts.contains_key(frames[i].account_id));
            }
        }
        if !(frames[i].contract_info is Cached) {
            assert forall|j: int| 0 <= j < i && (#[trigger] pushed[j]).account_id
                == pushed[i].account_id implies pushed[j].contract_info
                == CachedContract::Invalidated by {
                assert(frames[j] == pushed[j]);
            }
        }
    } else {
        assert(alone(pushed, i));
        assert forall|k: int| i <= k <= n + 1 implies !(#[trigger] state_at(
            after,
            k,
        )).contracts.contains_key(pushed[i].account_id) by {
            let l = if k <= n {
                k
            } else {
                n
            };
            assert(!state_at(world, l).contracts.contains_key(frames[i].account_id));
        }
    }
}

/// A call of a contract that is stored can be pushed.
proof fn lemma_push_call(stack: StackView, world: World, frame: Frame)
    requires
        coherent(stack, world),
        synced(stack, world),
        frame.entry_point == ExportedFunction::Call,
        frame.contract_info is Cached,
        world.state.alive(frame.account_id) is Some,
    ensures
        coherent(
            StackView { frames: stack.frames.push(frame), ..stack },
            performed(world, Effect::BeginTransaction),
        ),
{
    let frames = stack.frames;
    let n = frames.len() as int;
    let pushed = frames.push(frame);
    let after = performed(world, Effect::BeginTransaction);
    lemma_begin(world);
    assert forall|i: int| 0 <= i < pushed.len() implies #[trigger] frame_coherent(
        pushed,
        after,
        i,
    ) by {
        if i < n {
            assert(frame_coherent(frames, world, i));
            if frames[i].account_id == frame.account_id {
                assert(state_at(world, n).alive(frames[i].account_id) is Some);
            }
            lemma_pushed_below(stack, world, frame, i);
        } else {
            assert(alive_throughout(pushed, after, i));
        }
    }
}

/// A constructor of a contract that is nowhere yet can be pushed.
proof fn lemma_push_constructor(stack: StackView, world: World, frame: Frame)
    requires
        coherent(stack, world),
        synced(stack, world),
        frame.entry_point == ExportedFunction::Constructor,
        frame.contract_info is Cached,
        !world.state.contracts.contains_key(frame.account_id),
        is_fresh(stack, frame.account_id),
    ensures
        coherent(
            StackView { frames: stack.frames.push(frame), ..stack },
            performed(world, Effect::BeginTransaction),
        ),
{
    let frames = stack.frames;
    let n = frames.len() as int;
    let pushed = frames.push(frame);
    let after = performed(world, Effect::BeginTransaction);
    lemma_begin(world);
    assert forall|i: int| 0 <= i < pushed.len() implies #[trigger] frame_coherent(
        pushed,
        after,
        i,
    ) by {
        if i < n {
            assert(frames[i].account_id != frame.account_id);
            lemma_pushed_below(stack, world, frame, i);
        } else {
            assert(alone(pushed, i)) by {
                assert forall|j: int| 0 <= j < pushed.len() && j != i implies (
                #[trigger] pushed[j]).account_id != pushed[i].account_id by {
                    assert(pushed[j] == frames[j]);
                }
            }
            assert(absent_from(pushed, after, i, i));
        }
    }
}

/// Whether no frame is of an account.
pub open spec fn is_fresh(stack: StackView, account_id: AccountId) -> bool {
    forall|i: int|
        0 <= i < stack.frames.len() ==> (#[trigger] stack.frames[i]).account_id != account_id
}

/// A call stack that starts with a call is coherent when the transaction of its first frame is
/// open.
pub proof fn law_first_call_is_coherent<E: Executable>(
    dest: AccountId,
    value: Balance,
    gas_limit: Weight,
    schedule: Schedule,
    before: GasMeter,
    after: GasMeter,
    frame: Frame,
    executable: E,
    stack: StackView,
    state: State,
)
    requires
        frame_made(
            FrameArgs::Call { dest, cached_info: None, stored: state.stored(dest) },
            value,
            gas_limit,
            schedule,
            before,
            after,
            Ok::<(Frame, E), ExecError>((frame, executable)),
        ),
        stack.frames == seq![frame],
    ensures
        coherent(
            stack,
            performed(World { state, saved: Seq::empty() }, Effect::BeginTransaction),
        ),
{
    let world = performed(World { state, saved: Seq::empty() }, Effect::BeginTransaction);
    assert(frame_coherent(stack.frames, world, 0)) by {
        assert(alive_throughout(stack.frames, world, 0));
    }
}

/// A call stack that starts with an instantiation is coherent when the transaction of its first
/// frame is open, if nothing was stored for the account of the new contract.
pub proof fn law_first_instantiation_is_coherent<E: Executable>(
    account_id: AccountId,
    created: Result<AliveContractInfo, DispatchError>,
    given: E,
    value: Balance,
    gas_limit: Weight,
    schedule: Schedule,
    before: GasMeter,
    after: GasMeter,
    frame: Frame,
    executable: E,
    stack: StackView,
    state: State,
)
    requires
        frame_made(
            FrameArgs::Instantiate { account_id, created, executable: given },
            value,
            gas_limit,
            schedule,
            before,
            after,
            Ok::<(Frame, E), ExecError>((frame, executable)),
        ),
        stack.frames == seq![frame],
        !state.contracts.contains_key(account_id),
    ensures
        coherent(
            stack,
            performed(World { state, saved: Seq::empty() }, Effect::BeginTransaction),
        ),
{
    let world = performed(World { state, saved: Seq::empty() }, Effect::BeginTransaction);
    assert(frame_coherent(stack.frames, world, 0)) by {
        assert(alone(stack.frames, 0));
        assert(absent_from(stack.frames, world, 0, 0));
    }
}

/// Every call keeps stack and world coherent, whether it is refused, fails to enter the callee or
/// enters it and opens a transaction for it.
pub proof fn law_call_keeps_coherence<E: Executable>(
    before: StackView,
    world: World,
    to: AccountId,
    allows_reentry: bool,
    started: StackView,
    start: Result<(Vec<Effect>, PendingCall), ExecError>,
    value: Balance,
    gas_limit: Weight,
    entered: StackView,
    entry: Result<E, ExecError>,
)
    requires
        coherent(before, world),
        call_started(before, to, allows_reentry, started, start),
        start matches Ok((effects, pending)) ==> frame_pushed(
            FrameArgs::Call {
                dest: pending.dest,
                cached_info: pending.cached_info,
                stored: performed_all(world, effects@).state.stored(to),
            },
            value,
            gas_limit,
            started,
            entered,
            entry,
        ),
    ensures
        start is Err ==> coherent(started, world),
        start matches Ok((effects, _)) ==> {
            let stored = performed_all(world, effects@);
            &&& entry is Ok ==> coherent(entered, performed(stored, Effect::BeginTransaction))
            &&& entry is Err ==> coherent(guarded(entered, true), stored)
        },
{
    match start {
        Err(_) => {
            law_other_changes_keep_coherence(before, started, world);
        },
        Ok((effects, pending)) => {
            let stored = performed_all(world, effects@);
            lemma_sync(before, world);
            lemma_push_effects(before, world);
            law_other_changes_keep_coherence(before, started, stored);
            let args = FrameArgs::<E>::Call {
                dest: to,
                cached_info: pending.cached_info,
                stored: stored.state.stored(to),
            };
            let (meter, made) = lemma_pushed(args, value, gas_limit, started, entered, entry);
            let paid = started.with_top(Frame { nested_meter: meter, ..started.top() });
            law_other_changes_keep_coherence(started, paid, stored);
            match made {
                Err(_) => {
                    law_other_changes_keep_coherence(paid, guarded(entered, true), stored);
                },
                Ok((frame, _)) => {
                    let n = before.frames.len() as int;
                    let i = nearest_call(before.frames, to);
                    lemma_nearest_call(before.frames, to);
                    assert(stored.state.alive(to) is Some) by {
                        if pending.cached_info is Some {
                            assert(frame_coherent(before.frames, stored, i));
                            assert(state_at(stored, n).alive(to) is Some);
                        }
                    }
                    assert(frame.account_id == to);
                    assert(frame.entry_point == ExportedFunction::Call);
                    lemma_push_call(paid, stored, frame);
                },
            }
        },
    }
}

/// Every instantiation keeps stack and world coherent, whether it is refused, fails to enter the
/// constructor or enters it and opens a transaction for it. Of a new contract this says that its
/// account was used neither in storage nor on the stack.
pub proof fn law_instantiation_keeps_coherence<E: Executable>(
    before: StackView,
    world: World,
    stored_counter: u64,
    charged: GasMeter,
    load: Result<E, DispatchError>,
    started: StackView,
    start: Result<(Vec<Effect>, PendingInstantiation<E>), ExecError>,
    account_id: AccountId,
    created: Result<AliveContractInfo, DispatchError>,
    value: Balance,
    gas_limit: Weight,
    entered: StackView,
    entry: Result<E, ExecError>,
)
    requires
        coherent(before, world),
        instantiation_started(before, stored_counter, charged, load, started, start),
        created is Ok ==> is_fresh(before, account_id) && !world.state.contracts.contains_key(
            account_id,
        ),
        start matches Ok((effects, pending)) ==> frame_pushed(
            FrameArgs::Instantiate { account_id, created, executable: pending.executable },
            value,
            gas_limit,
            started,
            entered,
            entry,
        ),
    ensures
        start is Err ==> coherent(started, world),
        start matches Ok((effects, _)) ==> {
            let stored = performed_all(world, effects@);
            &&& entry is Ok ==> coherent(entered, performed(stored, Effect::BeginTransaction))
            &&& entry is Err ==> coherent(entered, stored)
        },
{
    law_other_changes_keep_coherence(before, started, world);
    if let Ok((effects, pending)) = start {
        let stored = performed_all(world, effects@);
        lemma_sync(before, world);
        lemma_push_effects(before, world);
        law_other_changes_keep_coherence(before, started, stored);
        let args = FrameArgs::Instantiate { account_id, created, executable: pending.executable };
        let (meter, made) = lemma_pushed(args, value, gas_limit, started, entered, entry);
        let paid = started.with_top(Frame { nested_meter: meter, ..started.top() });
        law_other_changes_keep_coherence(started, paid, stored);
        if let Ok((frame, _)) = made {
            assert(frame.account_id == account_id);
            assert(frame.entry_point == ExportedFunction::Constructor);
            let n = before.frames.len() as int;
            assert(before.frames[n - 1].account_id != account_id);
            assert(is_fresh(paid, account_id)) by {
                assert forall|i: int| 0 <= i < paid.frames.len() implies (
                #[trigger] paid.frames[i]).account_id != account_id by {
                    assert(before.frames[i].account_id != account_id);
                }
            }
            lemma_push_constructor(paid, stored, frame);
        }
    }
}

/// What is done to the world when a run ends.
pub proof fn lemma_settled_world(stack: StackView, world: World, output: ExecResult)
    requires
        stack.frames.len() >= 1,
        world.saved.len() >= 1,
    ensures
        ({
            let after = performed_all(world, settle_effects(stack, output));
            let top = stack.top();
            &&& after.saved == world.saved.drop_last()
            &&& !keeps_changes(output) ==> after.state == world.saved.last()
            &&& keeps_changes(output) ==> {
                &&& after.state.events == world.state.events
                &&& after.state.balances == world.state.balances
                &&& after.state.entries == world.state.entries
                &&& after.state.account_counter == (match stack.account_counter {
                    Some(counter) if stack.frames.len() == 1 => counter,
                    _ => world.state.account_counter,
                })
                &&& after.state.contracts == (match top.contract_info {
                    CachedContract::Cached(info) => if stack.frames.len() >= 2 && stack.caller()
                        == top.account_id {
                        world.state.contracts
                    } else {
                        world.state.contracts.insert(top.account_id, ContractInfo::Alive(info))
                    },
                    _ => world.state.contracts,
                })
            }
        }),
{
    let keeps = keeps_changes(output);
    let close = if keeps {
        Effect::CommitTransaction
    } else {
        Effect::RollbackTransaction
    };
    let closed = performed(world, close);
    let more = pop_effects(stack, keeps);
    lemma_performed_append(world, seq![close], more);
    lemma_performed_one(world, close);
    lemma_performed_none(closed);
    let top = stack.top();
    if keeps {
        if stack.frames.len() == 1 {
            let contract = match top.contract_info {
                CachedContract::Cached(info) => seq![Effect::InsertContract(top.account_id, info)],
                _ => seq![],
            };
            let counter = match stack.account_counter {
                Some(counter) => seq![Effect::SetAccountCounter(counter)],
                None => seq![],
            };
            lemma_performed_append(closed, contract, counter);
            let written = performed_all(closed, contract);
            lemma_performed_none(written);
            if let CachedContract::Cached(info) = top.contract_info {
                lemma_performed_one(closed, Effect::InsertContract(top.account_id, info));
            }
            if let Some(counter) = stack.account_counter {
                lemma_performed_one(written, Effect::SetAccountCounter(counter));
            }
        } else if let CachedContract::Cached(info) = top.contract_info {
            lemma_performed_one(closed, Effect::InsertContract(top.account_id, info));
        }
    }
}

/// The end of a nested run keeps stack and world coherent.
pub proof fn law_settling_keeps_coherence(stack: StackView, world: World, output: ExecResult)
    requires
        coherent(stack, world),
        stack.frames.len() >= 2,
    ensures
        coherent(
            popped(stack, keeps_changes(output)),
            performed_all(world, settle_effects(stack, output)),
        ),
{
    let keeps = keeps_changes(output);
    let frames = stack.frames;
    let n = frames.len() as int;
    let top = stack.top();
    let below = frames.drop_last();
    let rest = frames_after_pop(frames, keeps);
    let after = performed_all(world, settle_effects(stack, output));
    lemma_settled_world(stack, world, output);
    assert(frames[n - 1] == top);
    assert(below.last() == frames[n - 2]);
    assert(rest.len() == n - 1);
    assert forall|k: int| 0 <= k < n - 1 implies state_at(after, k) == state_at(world, k) by {}
    assert(frame_coherent(frames, world, n - 1));
    assert forall|i: int| 0 <= i < rest.len() implies #[trigger] frame_coherent(
        rest,
        after,
        i,
    ) by {
        assert(frame_coherent(frames, world, i));
        assert(rest[i].account_id == frames[i].account_id);
        assert(rest[i].entry_point == frames[i].entry_point);
        let account_id = frames[i].account_id;
        // A frame that is alone is not touched, and the popped frame is of another account.
        if alone(frames, i) {
            assert(frames[n - 1].account_id != account_id);
            assert(rest[i].contract_info == frames[i].contract_info);
            assert forall|j: int| 0 <= j < rest.len() && j != i implies (
            #[trigger] rest[j]).account_id != rest[i].account_id by {
                assert(frames[j].account_id != frames[i].account_id);
            }
        }
        if frames[i].entry_point == ExportedFunction::Call {
            if alive_throughout(frames, world, i) {
                assert forall|k: int| i <= k <= n - 1 implies (#[trigger] state_at(
                    after,
                    k,
                )).alive(account_id) is Some by {
                    assert(state_at(world, k).alive(account_id) is Some);
                    assert(state_at(world, n).alive(account_id) is Some);
                }
                assert(alive_throughout(rest, after, i));
            } else {
                assert forall|k: int| i + 1 <= k <= n - 1 implies !(#[trigger] state_at(
                    after,
                    k,
                )).contracts.contains_key(account_id) by {
                    assert(!state_at(world, k).contracts.contains_key(account_id));
                    assert(!state_at(world, n).contracts.contains_key(account_id));
                }
                assert(absent_from(rest, after, i, i + 1));
            }
            if i < n - 2 {
                if let CachedContract::Cached(info) = rest[i].contract_info {
                    assert(frames[i].contract_info == CachedContract::Cached(info));
                    assert forall|k: int| i + 1 <= k <= n - 1 && undisturbed(rest, i, k) implies (
                    #[trigger] state_at(after, k)).alive(account_id) == Some(info) by {
                        lemma_undisturbed(frames, rest, i, k, k);
                        assert(state_at(world, k).alive(account_id) == Some(info));
                        if k == n - 1 && keeps {
                            if top.account_id == account_id {
                                assert(frames[n - 2].account_id != account_id);
                                assert(!(top.contract_info is Cached)
                                    ==> frames[i].contract_info == CachedContract::Invalidated);
                            } else {
                                assert(undisturbed(frames, i, n));
                                assert(state_at(world, n).alive(account_id) == Some(info));
                            }
                        }
                    }
                    assert(stored_since_call(rest, after, i, info));
                }
            }
            if !(rest[i].contract_info is Cached) {
                assert forall|j: int| 0 <= j < i && (#[trigger] rest[j]).account_id
                    == rest[i].account_id implies rest[j].contract_info
                    == CachedContract::Invalidated by {
                    assert(frames[j].account_id == account_id);
                }
            }
        } else {
            assert forall|k: int| i <= k <= n - 1 implies !(#[trigger] state_at(
                after,
                k,
            )).contracts.contains_key(account_id) by {
                assert(!state_at(world, k).contracts.contains_key(account_id));
                assert(!state_at(world, n).contracts.contains_key(account_id));
            }
            assert(absent_from(rest, after, i, i));
        }
    }
}

/// Whether two worlds agree on the contracts that are stored and on those that can come back.
pub open spec fn same_contracts(a: World, b: World) -> bool {
    &&& a.saved.len() == b.saved.len()
    &&& a.state.contracts == b.state.contracts
    &&& forall|k: int|
        0 <= k < a.saved.len() ==> (#[trigger] a.saved[k]).contracts == b.saved[k].contracts
}

/// Balances, the entries in the storage of contracts, events and the account counter are of no
/// concern to coherence: whatever the runtime does to them keeps stack and world coherent.
pub proof fn law_runtime_keeps_coherence(stack: StackView, a: World, b: World)
    requires
        coherent(stack, a),
        same_contracts(a, b),
    ensures
        coherent(stack, b),
{
    let frames = stack.frames;
    let n = frames.len() as int;
    assert forall|k: int| 0 <= k <= n implies (#[trigger] state_at(a, k)).contracts == state_at(
        b,
        k,
    ).contracts by {
        if k < n {
            assert(a.saved[k].contracts == b.saved[k].contracts);
        }
    }
    assert forall|i: int| 0 <= i < n implies #[trigger] frame_coherent(frames, b, i) by {
        assert(frame_coherent(frames, a, i));
        let account_id = frames[i].account_id;
        assert(state_at(a, i + 1).contracts == state_at(b, i + 1).contracts);
        if frames[i].entry_point == ExportedFunction::Call {
            if alive_throughout(frames, a, i) {
                assert forall|k: int| i <= k <= n implies (#[trigger] state_at(b, k)).alive(
                    account_id,
                ) is Some by {
                    assert(state_at(a, k).alive(account_id) is Some);
                }
                if i < n - 1 {
                    if let CachedContract::Cached(info) = frames[i].contract_info {
                        assert forall|k: int|
                            i + 1 <= k <= n && undisturbed(frames, i, k) implies (
                        #[trigger] state_at(b, k)).alive(account_id) == Some(info) by {
                            assert(state_at(a, k).alive(account_id) == Some(info));
                        }
                        assert(stored_since_call(frames, b, i, info));
                    }
                }
            } else {
                assert forall|k: int| i + 1 <= k <= n implies !(#[trigger] state_at(
                    b,
                    k,
                )).contracts.contains_key(account_id) by {
                    assert(!state_at(a, k).contracts.contains_key(account_id));
                }
            }
        } else {
            assert forall|k: int| i <= k <= n implies !(#[trigger] state_at(
                b,
                k,
            )).contracts.contains_key(account_id) by {
                assert(!state_at(a, k).contracts.contains_key(account_id));
            }
        }
    }
}

/// An event keeps stack and world coherent.
pub proof fn law_report_keeps_coherence(stack: StackView, world: World, event: Event)
    requires
        coherent(stack, world),
    ensures
        coherent(stack, performed(world, Effect::DepositEvent(event))),
{
    law_runtime_keeps_coherence(stack, world, performed(world, Effect::DepositEvent(event)));
}

/// The current contract is always there: unless the code that runs removed it, it is cached or
/// else stored.
pub proof fn law_contract_is_there(stack: StackView, world: World)
    requires
        coherent(stack, world),
        stack.top().contract_info != CachedContract::Terminated,
    ensures
        effective(
            stack.top().contract_info,
            world.state.stored(stack.top().account_id),
        ) is Some,
{
    let n = stack.frames.len() as int;
    assert(frame_coherent(stack.frames, world, n - 1));
    assert(state_at(world, n) == world.state);
    if stack.top().entry_point == ExportedFunction::Call {
        assert(state_at(world, n).alive(stack.top().account_id) is Some);
    }
}

/// Reading or writing the current contract keeps stack and world coherent.
pub proof fn law_access_keeps_coherence(stack: StackView, world: World, info: AliveContractInfo)
    requires
        coherent(stack, world),
        stack.top().contract_info != CachedContract::Terminated,
    ensures
        coherent(with_info(stack, info), world),
{
    let frames = stack.frames;
    let n = frames.len() as int;
    let after = with_info(stack, info).frames;
    assert forall|i: int| 0 <= i < n implies #[trigger] frame_coherent(after, world, i) by {
        lemma_top_replaced(frames, after, world, i);
    }
}

/// A frame stays coherent where at most the contract of the topmost frame becomes another one
/// that is cached.
proof fn lemma_top_replaced(a: Seq<Frame>, b: Seq<Frame>, world: World, i: int)
    requires
        a.len() == b.len(),
        0 <= i < a.len(),
        forall|j: int|
            0 <= j < a.len() ==> {
                &&& (#[trigger] a[j]).account_id == b[j].account_id
                &&& a[j].entry_point == b[j].entry_point
                &&& j < a.len() - 1 ==> a[j].contract_info == b[j].contract_info
            },
        a.last().contract_info != CachedContract::Terminated,
        b.last().contract_info is Cached,
        frame_coherent(a, world, i),
    ensures
        frame_coherent(b, world, i),
{
    assert(a[i].account_id == b[i].account_id);
    assert(a.last() == a[a.len() - 1]);
    assert(b.last() == b[a.len() - 1]);
    if alone(a, i) {
        assert forall|j: int| 0 <= j < b.len() && j != i implies (#[trigger] b[j]).account_id
            != b[i].account_id by {
            assert(a[j].account_id != a[i].account_id);
        }
    }
    lemma_same_accounts(a, b, world, i);
    if a[i].entry_point == ExportedFunction::Call {
        if alive_throughout(a, world, i) {
            assert(alive_throughout(b, world, i));
        } else {
            assert(absent_from(b, world, i, i + 1));
        }
    } else {
        assert(absent_from(b, world, i, i));
    }
}

/// The first step of a run keeps stack and world coherent, if it goes on or if the run is nested.
pub proof fn law_run_start_keeps_coherence<E: Executable>(
    before: StackView,
    world: World,
    executable: E,
    funds: Funds,
    after: StackView,
    step: RunStep,
)
    requires
        coherent(before, performed(world, Effect::BeginTransaction)),
        run_started(before, seq![], executable, funds, after, step),
        step.action is Return ==> before.frames.len() >= 2,
    ensures
        coherent(after, performed_all(world, step.effects@)),
{
    let begin = seq![Effect::BeginTransaction];
    assert(seq![] + begin =~= begin);
    lemma_performed_one(world, Effect::BeginTransaction);
    if let RunAction::Return(output) = step.action {
        lemma_performed_append(world, begin, settle_effects(before, output));
        law_settling_keeps_coherence(
            before,
            performed(world, Effect::BeginTransaction),
            output,
        );
    }
}

/// A transfer that is not made ends a nested run and keeps stack and world coherent.
pub proof fn law_failed_transfer_keeps_coherence(
    before: StackView,
    world: World,
    output: ExecResult,
    after: StackView,
    step: RunStep,
)
    requires
        coherent(before, world),
        before.frames.len() >= 2,
        run_settled(before, seq![], output, after, step),
    ensures
        coherent(after, performed_all(world, step.effects@)),
{
    law_settling_keeps_coherence(before, world, output);
    assert(seq![] + settle_effects(before, output) =~= settle_effects(before, output));
}

/// The last step of a nested run keeps stack and world coherent.
pub proof fn law_run_end_keeps_coherence(
    before: StackView,
    world: World,
    output: ExecResult,
    after: StackView,
    step: RunStep,
)
    requires
        coherent(before, world),
        before.frames.len() >= 2,
        run_ended(
            before,
            output,
            world.state.stored(before.top().account_id),
            after,
            step,
        ),
    ensures
        coherent(after, performed_all(world, step.effects@)),
{
    let top = before.top();
    if completes_instantiation(before, output) {
        let info = effective(top.contract_info, world.state.stored(top.account_id))->0;
        let full = with_info(before, info);
        law_access_keeps_coherence(before, world, info);
        let event = Effect::DepositEvent(Event::Instantiated(before.caller(), top.account_id));
        let reported = performed(world, event);
        law_runtime_keeps_coherence(full, world, reported);
        law_settling_keeps_coherence(full, reported, output);
        lemma_performed_append(world, seq![event], settle_effects(full, output));
        lemma_performed_one(world, event);
    } else {
        let result = step.action->Return_0;
        law_settling_keeps_coherence(before, world, result);
        assert(seq![] + settle_effects(before, result) =~= settle_effects(before, result));
    }
}

/// The removal of the current contract keeps stack and world coherent, before and after what is
/// stored of it goes.
pub proof fn law_termination_keeps_coherence(stack: StackView, world: World)
    requires
        coherent(stack, world),
        !recursive(stack.frames),
        stack.top().contract_info != CachedContract::Terminated,
    ensures
        ({
            let after = stack.with_top(
                Frame { contract_info: CachedContract::Terminated, ..stack.top() },
            );
            &&& coherent(after, world)
            &&& coherent(after, performed(world, Effect::RemoveContract(stack.top().account_id)))
        }),
{
    let frames = stack.frames;
    let n = frames.len() as int;
    let top = stack.top();
    let after = stack.with_top(
        Frame { contract_info: CachedContract::Terminated, ..stack.top() },
    ).frames;
    let removed = performed(world, Effect::RemoveContract(top.account_id));
    assert(alone(frames, n - 1)) by {
        assert forall|j: int| 0 <= j < n && j != n - 1 implies (#[trigger] frames[j]).account_id
            != frames[n - 1].account_id by {}
    }
    assert forall|j: int| 0 <= j < n implies (#[trigger] after[j]).account_id
        == frames[j].account_id && after[j].entry_point == frames[j].entry_point by {}
    assert forall|i: int| 0 <= i < n implies #[trigger] frame_coherent(after, world, i)
        && frame_coherent(after, removed, i) by {
        assert(frame_coherent(frames, world, i));
        assert(after[i].account_id == frames[i].account_id);
        let account_id = frames[i].account_id;
        if alone(frames, i) {
            assert forall|j: int| 0 <= j < n && j != i implies (#[trigger] after[j]).account_id
                != after[i].account_id by {
                assert(frames[j].account_id != frames[i].account_id);
            }
        }
        assert(i != n - 1 ==> account_id != top.account_id);
        lemma_same_accounts(frames, after, world, i);
        assert forall|k: int| 0 <= k < n implies state_at(removed, k) == state_at(world, k) by {}
        if frames[i].entry_point == ExportedFunction::Call {
            if alive_throughout(frames, world, i) {
                assert(alive_throughout(after, world, i));
                if i != n - 1 {
                    assert forall|k: int| i <= k <= n implies (#[trigger] state_at(
                        removed,
                        k,
                    )).alive(account_id) is Some by {
                        assert(state_at(world, k).alive(account_id) is Some);
                    }
                    assert(alive_throughout(after, removed, i));
                } else {
                    assert(absent_from(after, removed, i, i + 1));
                }
            } else {
                assert(absent_from(after, world, i, i + 1));
                assert forall|k: int| i + 1 <= k <= n implies !(#[trigger] state_at(
                    removed,
                    k,
                )).contracts.contains_key(account_id) by {
                    assert(!state_at(world, k).contracts.contains_key(account_id));
                }
            }
            if i < n - 1 {
                if let CachedContract::Cached(info) = frames[i].contract_info {
                    assert(stored_since_call(after, world, i, info));
                    assert forall|k: int| i + 1 <= k <= n && undisturbed(after, i, k) implies (
                    #[trigger] state_at(removed, k)).alive(account_id) == Some(info) by {
                        assert(state_at(world, k).alive(account_id) == Some(info));
                    }
                    assert(stored_since_call(after, removed, i, info));
                }
            }
        } else {
            assert(absent_from(after, world, i, i));
            assert forall|k: int| i <= k <= n implies !(#[trigger] state_at(
                removed,
                k,
            )).contracts.contains_key(account_id) by {
                assert(!state_at(world, k).contracts.contains_key(account_id));
            }
        }
    }
    assert forall|i: int| 0 <= i < n implies #[trigger] frame_coherent(after, removed, i) by {
        assert(frame_coherent(after, world, i));
    }
}

/// A failed run leaves nothing behind: the runtime holds what it held when the run started, and of
/// the frames below only the caller's gas changes. The text in the debug buffer stays.
pub proof fn law_failed_run_is_reverted(stack: StackView, world: World, output: ExecResult)
    requires
        coherent(stack, world),
        !keeps_changes(output),
    ensures
        ({
            let after = popped(stack, false);
            let world_after = performed_all(world, settle_effects(stack, output));
            &&& world_after.state == world.saved.last()
            &&& world_after.saved == world.saved.drop_last()
            &&& after.debug_message == stack.debug_message
            &&& stack.frames.len() >= 2 ==> {
                let caller = stack.frames[stack.frames.len() - 2];
                after.frames == stack.frames.drop_last().update(
                    stack.frames.len() - 2,
                    Frame { nested_meter: after.top().nested_meter, ..caller },
                )
            }
        }),
{
    lemma_settled_world(stack, world, output);
}

/// What a run keeps of its transaction stays: balances, entries of storage, events and the
/// contracts of others.
pub proof fn law_successful_run_is_kept(stack: StackView, world: World, output: ExecResult)
    requires
        coherent(stack, world),
        keeps_changes(output),
    ensures
        ({
            let after = performed_all(world, settle_effects(stack, output));
            &&& after.saved == world.saved.drop_last()
            &&& after.state.events == world.state.events
            &&& after.state.balances == world.state.balances
            &&& after.state.entries == world.state.entries
            &&& forall|account_id: AccountId|
                account_id != stack.top().account_id ==> #[trigger] after.state.stored(account_id)
                    == world.state.stored(account_id)
        }),
{
    lemma_settled_world(stack, world, output);
}

/// The contract of an account, as the topmost frame of the account knows it, or else as it is
/// stored.
pub open spec fn current(frames: Seq<Frame>, state: State, account_id: AccountId) -> Option<
    AliveContractInfo,
> {
    let i = nearest(frames, account_id);
    if i >= 0 {
        effective(frames[i].contract_info, state.stored(account_id))
    } else {
        state.alive(account_id)
    }
}

/// Whether the contract of an account is complete: its topmost frame, if there is one, is neither
/// its constructor nor the one that removed it.
pub open spec fn complete(frames: Seq<Frame>, account_id: AccountId) -> bool {
    let i = nearest(frames, account_id);
    i >= 0 ==> frames[i].entry_point == ExportedFunction::Call && frames[i].contract_info
        != CachedContract::Terminated
}

/// What contracts changed of themselves is not discarded when the code that they call fails: for
/// the time of the call, every contract is saved as it is at that moment.
pub proof fn law_call_saves_contracts(stack: StackView, world: World, account_id: AccountId)
    requires
        coherent(stack, world),
        complete(stack.frames, account_id),
    ensures
        performed(
            performed_all(world, push_effects(stack)),
            Effect::BeginTransaction,
        ).saved.last().alive(account_id) == current(stack.frames, world.state, account_id),
{
    let n = stack.frames.len() as int;
    let i = nearest(stack.frames, account_id);
    lemma_push_effects(stack, world);
    lemma_nearest(stack.frames, account_id);
    assert(stack.top() == stack.frames[n - 1]);
    assert(state_at(world, n) == world.state);
    if i >= 0 {
        assert(frame_coherent(stack.frames, world, i));
        assert(state_at(world, n).alive(account_id) is Some);
        if i < n - 1 {
            assert(undisturbed(stack.frames, i, n));
        }
    }
}

/// After a call that failed, every contract is again as it was saved for the time of the call, no
/// matter what was done to it in between. One whose constructor made the call is not stored yet:
/// it is what the constructor has cached.
pub proof fn law_failed_call_restores_contracts(
    stack: StackView,
    world: World,
    output: ExecResult,
    account_id: AccountId,
)
    requires
        coherent(stack, world),
        stack.frames.len() >= 2,
        !keeps_changes(output),
    ensures
        ({
            let below = stack.frames.drop_last();
            let after = popped(stack, false).frames;
            let state = performed_all(world, settle_effects(stack, output)).state;
            &&& complete(below, account_id) ==> current(after, state, account_id)
                == world.saved.last().alive(account_id)
            &&& !complete(below, account_id) ==> after[nearest(below, account_id)].contract_info
                == below[nearest(below, account_id)].contract_info && nearest(after, account_id)
                == nearest(below, account_id)
        }),
{
    let n = stack.frames.len() as int;
    let below = stack.frames.drop_last();
    let after = popped(stack, false).frames;
    let i = nearest(below, account_id);
    lemma_settled_world(stack, world, output);
    lemma_nearest(below, account_id);
    lemma_same_nearest(below, after, account_id);
    assert(state_at(world, n - 1) == world.saved.last());
    if i >= 0 {
        assert(frame_coherent(stack.frames, world, i));
        if complete(below, account_id) {
            assert(state_at(world, n - 1).alive(account_id) is Some);
            assert(undisturbed(stack.frames, i, n - 1)) by {
                assert forall|j: int| i < j < n - 1 implies (#[trigger] stack.frames[j]).account_id
                    != stack.frames[i].account_id by {
                    assert(below[j].account_id != account_id);
                }
            }
        }
    }
}

/// The same frame is found among frames of the same accounts.
pub proof fn lemma_same_nearest(a: Seq<Frame>, b: Seq<Frame>, account_id: AccountId)
    requires
        a.len() == b.len(),
        forall|j: int| 0 <= j < a.len() ==> (#[trigger] a[j]).account_id == b[j].account_id,
    ensures
        nearest(a, account_id) == nearest(b, account_id),
{
    lemma_nearest(a, account_id);
    lemma_nearest(b, account_id);
    let i = nearest(a, account_id);
    let j = nearest(b, account_id);
    if i >= 0 {
        assert(a[i].account_id == b[i].account_id);
    }
    if j >= 0 {
        assert(a[j].account_id == b[j].account_id);
    }
}

/// When a run keeps its changes, every contract stays what it is at that moment: the contract of
/// the run is what the run made of it, for the frames below and for everyone who calls it. The one
/// exception is a contract that the run gave up without removing it.
pub proof fn law_successful_run_is_seen(
    stack: StackView,
    world: World,
    output: ExecResult,
    account_id: AccountId,
)
    requires
        coherent(stack, world),
        stack.frames.len() >= 2,
        keeps_changes(output),
        account_id == stack.top().account_id && stack.top().contract_info
            == CachedContract::Terminated ==> world.state.stored(account_id) is None,
    ensures
        current(
            popped(stack, true).frames,
            performed_all(world, settle_effects(stack, output)).state,
            account_id,
        ) == current(stack.frames, world.state, account_id),
{
    let n = stack.frames.len() as int;
    let frames = stack.frames;
    let below = frames.drop_last();
    let after = popped(stack, true).frames;
    let state = performed_all(world, settle_effects(stack, output)).state;
    let top = stack.top();
    lemma_settled_world(stack, world, output);
    lemma_nearest(frames, account_id);
    lemma_nearest(below, account_id);
    assert forall|j: int| 0 <= j < below.len() implies (#[trigger] below[j]).account_id
        == after[j].account_id by {}
    lemma_same_nearest(below, after, account_id);
    let i = nearest(below, account_id);
    assert(frames[n - 1] == top);
    assert(below.last() == frames[n - 2]);
    assert(frame_coherent(frames, world, n - 1));
    assert(state_at(world, n) == world.state);
    if top.account_id == account_id {
        if i >= 0 {
            assert(frame_coherent(frames, world, i));
            assert(frames[i].account_id == account_id);
            assert(!alone(frames, n - 1));
        }
    }
}

/// A contract whose constructor succeeds is stored and reported once, with the one who created it.
pub proof fn law_instantiation_is_reported(
    before: StackView,
    world: World,
    output: ExecResult,
    after: StackView,
    step: RunStep,
)
    requires
        coherent(before, world),
        completes_instantiation(before, output),
        run_ended(
            before,
            output,
            world.state.stored(before.top().account_id),
            after,
            step,
        ),
    ensures
        ({
            let account_id = before.top().account_id;
            let world_after = performed_all(world, step.effects@);
            &&& before.top().contract_info matches CachedContract::Cached(info)
            &&& world_after.state.alive(account_id) == Some(info)
            &&& world_after.state.events == world.state.events.push(
                Event::Instantiated(before.caller(), account_id),
            )
        }),
{
    let top = before.top();
    let n = before.frames.len() as int;
    assert(frame_coherent(before.frames, world, n - 1));
    let info = top.contract_info->Cached_0;
    let full = with_info(before, info);
    let event = Effect::DepositEvent(Event::Instantiated(before.caller(), top.account_id));
    let reported = performed(world, event);
    lemma_performed_append(world, seq![event], settle_effects(full, output));
    lemma_performed_one(world, event);
    lemma_settled_world(full, reported, output);
    if n >= 2 {
        assert(before.frames[n - 2].account_id != before.frames[n - 1].account_id);
    }
}

/// The account counter is stored when the first frame succeeds, and not before.
pub proof fn law_counter_is_stored_at_the_end(stack: StackView, world: World, output: ExecResult)
    requires
        coherent(stack, world),
    ensures
        ({
            let after = performed_all(world, settle_effects(stack, output));
            let counter = if keeps_changes(output) {
                world.state.account_counter
            } else {
                world.saved.last().account_counter
            };
            after.state.account_counter == (if keeps_changes(output) && stack.frames.len() == 1 {
                match stack.account_counter {
                    Some(cached) => cached,
                    None => counter,
                }
            } else {
                counter
            })
        }),
{
    lemma_settled_world(stack, world, output);
}

/// Only a contract that is stored can be called: whatever is cached for an account, it is stored,
/// too, when the frame of a call is made.
pub proof fn law_called_contract_is_stored<E: Executable>(
    before: StackView,
    world: World,
    to: AccountId,
    allows_reentry: bool,
    started: StackView,
    start: Result<(Vec<Effect>, PendingCall), ExecError>,
    value: Balance,
    gas_limit: Weight,
    entered: StackView,
    entry: Result<E, ExecError>,
)
    requires
        coherent(before, world),
        call_started(before, to, allows_reentry, started, start),
        start matches Ok((effects, pending)) ==> frame_pushed(
            FrameArgs::Call {
                dest: pending.dest,
                cached_info: pending.cached_info,
                stored: performed_all(world, effects@).state.stored(to),
            },
            value,
            gas_limit,
            started,
            entered,
            entry,
        ),
        world.state.stored(to) is None,
    ensures
        start is Ok ==> entry == Err::<E, ExecError>(refusal(Error::ContractNotFound)),
{
    if let Ok((effects, pending)) = start {
        let n = before.frames.len() as int;
        let i = nearest_call(before.frames, to);
        lemma_nearest_call(before.frames, to);
        lemma_push_effects(before, world);
        assert(state_at(world, n) == world.state);
        assert(frame_coherent(before.frames, world, n - 1));
        if i >= 0 {
            assert(frame_coherent(before.frames, world, i));
            if alive_throughout(before.frames, world, i) {
                assert(state_at(world, n).alive(to) is Some);
            }
        }
        if before.top().account_id == to && before.top().entry_point == ExportedFunction::Call {
            if alive_throughout(before.frames, world, n - 1) {
                assert(state_at(world, n).alive(to) is Some);
            }
        }
    }
}

/// A contract cannot be called before its constructor is done, not even by itself.
pub proof fn law_constructor_cannot_be_called(stack: StackView, world: World, i: int)
    requires
        coherent(stack, world),
        0 <= i < stack.frames.len(),
        stack.frames[i].entry_point == ExportedFunction::Constructor,
    ensures
        world.state.stored(stack.frames[i].account_id) is None,
        cached_by_call(stack.frames, stack.frames[i].account_id) is None,
{
    let n = stack.frames.len() as int;
    let account_id = stack.frames[i].account_id;
    assert(frame_coherent(stack.frames, world, i));
    assert(!state_at(world, n).contracts.contains_key(account_id));
    lemma_nearest_call(stack.frames, account_id);
}

} // verus!
