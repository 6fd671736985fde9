//! What holds of the call stack over several operations, whatever the runtime does.
use vstd::prelude::*;
use crate::codec::{
    action_preimage, byte_range, call_action_name, call_bytes, compact_len, encoded_balance,
    encoded_bytes, le_bytes, lemma_le_bytes_len,
};
use crate::config::BalanceWidth;
use crate::executable::{shared_size, Executable, ExportedFunction};
use crate::ext::{
    call_routed, call_started, description_of, guarded, instantiation_started, storage_read,
    with_info, write_started, CallRoute, ContractWrite, PendingCall, PendingInstantiation,
};
use crate::extension::{with_breakpoint, with_message, ContractActionDesc, ExtensionView};
use crate::frame::{Frame, FrameArgs};
use crate::gas::{absorbed, GasMeter};
use crate::stack::{
    call_frame_made, found_contract, frame_entered, frame_pushed, frames_after_pop, has_room,
    lemma_pushed, popped, StackView,
};
use crate::types::{
    refusal, AccountId, AliveContractInfo, Balance, ChainId, ContractInfo, Digest, DispatchError,
    Effect, Error, ExecError, RunMode, StorageKey, TrieId, Weight,
};
use crate::world::State;

verus! {

/// The gas that is left in the meters of some frames.
pub open spec fn frames_gas(frames: Seq<Frame>) -> int
    decreases frames.len(),
{
    if frames.len() == 0 {
        0
    } else {
        frames_gas(frames.drop_last()) + frames.last().nested_meter.gas_left
    }
}

/// The gas that is left in all meters of a call stack.
pub open spec fn total_gas(stack: StackView) -> int {
    stack.gas_meter.gas_left + frames_gas(stack.frames)
}

/// Only the meters count.
proof fn lemma_same_gas(a: Seq<Frame>, b: Seq<Frame>)
    requires
        a.len() == b.len(),
        forall|i: int|
            0 <= i < a.len() ==> (#[trigger] a[i]).nested_meter.gas_left
                == b[i].nested_meter.gas_left,
    ensures
        frames_gas(a) == frames_gas(b),
    decreases a.len(),
{
    if a.len() > 0 {
        assert forall|i: int| 0 <= i < a.drop_last().len() implies (
        #[trigger] a.drop_last()[i]).nested_meter.gas_left
            == b.drop_last()[i].nested_meter.gas_left by {
            assert(a[i].nested_meter.gas_left == b[i].nested_meter.gas_left);
        }
        lemma_same_gas(a.drop_last(), b.drop_last());
        assert(a[a.len() - 1].nested_meter.gas_left == b[a.len() - 1].nested_meter.gas_left);
    }
}

/// No frame holds less than nothing.
proof fn lemma_gas_is_not_negative(frames: Seq<Frame>)
    ensures
        frames_gas(frames) >= 0,
    decreases frames.len(),
{
    if frames.len() > 0 {
        lemma_gas_is_not_negative(frames.drop_last());
    }
}

/// The topmost frame's part of the gas.
proof fn lemma_top_gas(frames: Seq<Frame>, frame: Frame)
    requires
        frames.len() >= 1,
    ensures
        frames_gas(frames.update(frames.len() - 1, frame)) == frames_gas(frames)
            - frames.last().nested_meter.gas_left + frame.nested_meter.gas_left,
{
    assert(frames.update(frames.len() - 1, frame).drop_last() =~= frames.drop_last());
}

/// A pushed frame adds what it holds.
proof fn lemma_pushed_gas(frames: Seq<Frame>, frame: Frame)
    ensures
        frames_gas(frames.push(frame)) == frames_gas(frames) + frame.nested_meter.gas_left,
{
    assert(frames.push(frame).drop_last() =~= frames);
}

/// When a frame is popped, no gas is lost and none is made: what the frame did not use goes back
/// to its caller, or from the first frame to the root meter.
pub proof fn law_pop_conserves_gas(stack: StackView, persist: bool)
    requires
        stack.frames.len() >= 1,
        total_gas(stack) <= u64::MAX,
    ensures
        total_gas(popped(stack, persist)) == total_gas(stack),
{
    let frames = stack.frames;
    let top = stack.top();
    let below = frames.drop_last();
    lemma_gas_is_not_negative(below);
    if frames.len() == 1 {
        assert(below =~= Seq::<Frame>::empty());
        let left = popped(stack, persist).frames;
        assert(left.drop_last() =~= Seq::<Frame>::empty());
    } else {
        let prev = below.last();
        lemma_gas_is_not_negative(below.drop_last());
        let rest = below.update(
            below.len() - 1,
            Frame { nested_meter: absorbed(prev.nested_meter, top.nested_meter), ..prev },
        );
        lemma_top_gas(below, rest.last());
        lemma_same_gas(rest, frames_after_pop(frames, persist));
    }
}

/// When the frame of an instantiation is pushed, gas only moves: the new frame is filled from the
/// meter of the one below, and nothing moves where the frame cannot be made.
pub proof fn law_instantiation_conserves_gas<E: Executable>(
    account_id: AccountId,
    created: Result<AliveContractInfo, DispatchError>,
    executable: E,
    value: Balance,
    gas_limit: Weight,
    before: StackView,
    after: StackView,
    outcome: Result<E, ExecError>,
)
    requires
        before.wf(),
        frame_pushed(
            FrameArgs::Instantiate { account_id, created, executable },
            value,
            gas_limit,
            before,
            after,
            outcome,
        ),
    ensures
        total_gas(after) == total_gas(before),
{
    let args = FrameArgs::Instantiate { account_id, created, executable };
    let (meter, made) = lemma_pushed(args, value, gas_limit, before, after, outcome);
    lemma_top_gas(before.frames, Frame { nested_meter: meter, ..before.top() });
    if let Ok((frame, _)) = made {
        let paid = before.with_top(Frame { nested_meter: meter, ..before.top() });
        lemma_pushed_gas(paid.frames, frame);
    }
}

/// When the frame of a call is pushed, the only gas that is spent is what loading the code costs,
/// and none is where there is no contract to call.
pub proof fn law_call_spends_gas_on_loading_alone<E: Executable>(
    dest: AccountId,
    cached_info: Option<AliveContractInfo>,
    stored: Option<ContractInfo>,
    value: Balance,
    gas_limit: Weight,
    before: StackView,
    after: StackView,
    outcome: Result<E, ExecError>,
)
    requires
        before.wf(),
        frame_pushed(
            FrameArgs::Call { dest, cached_info, stored },
            value,
            gas_limit,
            before,
            after,
            outcome,
        ),
    ensures
        match found_contract(cached_info, stored) {
            Err(_) => total_gas(after) == total_gas(before),
            Ok(info) => exists|charged: GasMeter, load: Result<E, DispatchError>|
                #[trigger] E::loads(
                    info.code_hash,
                    before.schedule,
                    before.top().nested_meter,
                    charged,
                    load,
                ) && total_gas(before) - total_gas(after) == before.top().nested_meter.gas_left
                    - charged.gas_left,
        },
{
    let args = FrameArgs::<E>::Call { dest, cached_info, stored };
    let (meter, made) = lemma_pushed(args, value, gas_limit, before, after, outcome);
    lemma_top_gas(before.frames, Frame { nested_meter: meter, ..before.top() });
    let paid = before.with_top(Frame { nested_meter: meter, ..before.top() });
    if let Ok((frame, _)) = made {
        lemma_pushed_gas(paid.frames, frame);
    }
    if let Ok(info) = found_contract(cached_info, stored) {
        let root = before.top().nested_meter;
        assert(call_frame_made(
            dest,
            info,
            value,
            gas_limit,
            before.schedule,
            root,
            meter,
            made,
        ));
        let (charged, load) = choose|charged: GasMeter, load: Result<E, DispatchError>|
            #[trigger] E::loads(info.code_hash, before.schedule, root, charged, load)
                && frame_entered(
                dest,
                info,
                ExportedFunction::Call,
                load,
                value,
                gas_limit,
                charged,
                meter,
                made,
            );
        assert(E::loads(info.code_hash, before.schedule, root, charged, load));
    }
}

/// A frame that is popped without its changes being kept, and that did not use any gas, leaves no
/// trace: the frames are those from before it was pushed for an instantiation.
pub proof fn law_unused_frame_leaves_no_trace<E: Executable>(
    account_id: AccountId,
    info: AliveContractInfo,
    executable: E,
    value: Balance,
    gas_limit: Weight,
    before: StackView,
    after: StackView,
    outcome: Result<E, ExecError>,
)
    requires
        before.wf(),
        frame_pushed(
            FrameArgs::Instantiate {
                account_id,
                created: Ok::<AliveContractInfo, DispatchError>(info),
                executable,
            },
            value,
            gas_limit,
            before,
            after,
            outcome,
        ),
        outcome is Ok,
    ensures
        popped(after, false).frames == before.frames,
{
    let args = FrameArgs::Instantiate {
        account_id,
        created: Ok::<AliveContractInfo, DispatchError>(info),
        executable,
    };
    let (meter, made) = lemma_pushed(args, value, gas_limit, before, after, outcome);
    let paid = before.with_top(Frame { nested_meter: meter, ..before.top() });
    assert(after.frames.drop_last() =~= paid.frames);
    assert(popped(after, false).frames =~= before.frames);
}

/// Where a frame fits, the call stack is well formed after it was pushed, with one frame more, or
/// as many as before if the frame could not be made.
pub proof fn law_push_keeps_depth_bounded<E: Executable>(
    args: FrameArgs<E>,
    value: Balance,
    gas_limit: Weight,
    before: StackView,
    after: StackView,
    outcome: Result<E, ExecError>,
)
    requires
        before.wf(),
        has_room(before),
        frame_pushed(args, value, gas_limit, before, after, outcome),
    ensures
        after.wf(),
        after.frames.len() == before.frames.len() + (if outcome is Ok {
            1int
        } else {
            0int
        }),
{
    let (meter, made) = lemma_pushed(args, value, gas_limit, before, after, outcome);
}

/// A call stack is well formed after a frame was popped, with one frame less, except that the
/// first one stays.
pub proof fn law_pop_keeps_depth_bounded(stack: StackView, persist: bool)
    requires
        stack.wf(),
    ensures
        popped(stack, persist).wf(),
        popped(stack, persist).frames.len() == (if stack.frames.len() == 1 {
            1
        } else {
            stack.frames.len() - 1
        }),
{
}

/// The caller of a pushed frame is the contract that was on top before, and of the first frame
/// the origin. When a frame is popped, its caller is on top again.
pub proof fn law_caller_is_the_frame_below<E: Executable>(
    args: FrameArgs<E>,
    value: Balance,
    gas_limit: Weight,
    before: StackView,
    after: StackView,
    outcome: Result<E, ExecError>,
    persist: bool,
)
    requires
        before.wf(),
        frame_pushed(args, value, gas_limit, before, after, outcome),
    ensures
        outcome is Ok ==> after.caller() == before.top().account_id,
        outcome is Ok ==> after.top().value_transferred == value,
        before.frames.len() == 1 ==> before.caller() == before.origin,
        before.frames.len() >= 2 ==> popped(before, persist).top().account_id == before.caller(),
{
    let (meter, made) = lemma_pushed(args, value, gas_limit, before, after, outcome);
}

/// A contract that is somewhere on the call stack with its defense up cannot be called, also not
/// by itself. The one who tried can be called again.
pub proof fn law_defended_contract_cannot_be_entered(
    before: StackView,
    to: AccountId,
    allows_reentry: bool,
    after: StackView,
    outcome: Result<(Vec<Effect>, PendingCall), ExecError>,
    i: int,
)
    requires
        before.wf(),
        call_started(before, to, allows_reentry, after, outcome),
        0 <= i < before.frames.len(),
        before.frames[i].account_id == to,
        if i == before.frames.len() - 1 {
            !allows_reentry
        } else {
            !before.frames[i].allows_reentry
        },
    ensures
        outcome == Err::<(Vec<Effect>, PendingCall), ExecError>(refusal(Error::ReentranceDenied)),
        after.top().allows_reentry,
{
    assert(guarded(before, allows_reentry).frames[i].account_id == to);
}

/// The defense of a contract is up for the time of a call alone: when the call is over, it is
/// down, and that of the contracts further down is as it was.
pub proof fn law_defense_ends_with_the_call(stack: StackView, persist: bool, i: int)
    requires
        stack.wf(),
        stack.frames.len() >= 2,
        0 <= i < stack.frames.len() - 2,
    ensures
        ({
            let after = guarded(popped(stack, persist), true);
            &&& after.top().allows_reentry
            &&& after.frames[i].allows_reentry == stack.frames[i].allows_reentry
        }),
{
}

/// An instantiation whose constructor fails does not use up a number: the account counter is what
/// it was, as it was cached or else stored.
pub proof fn law_failed_instantiation_restores_counter<E: Executable>(
    before: StackView,
    stored_counter: u64,
    charged: GasMeter,
    load: Result<E, DispatchError>,
    started: StackView,
    start: Result<(Vec<Effect>, PendingInstantiation<E>), ExecError>,
    ended: StackView,
)
    requires
        before.account_counter != Some(u64::MAX),
        instantiation_started(before, stored_counter, charged, load, started, start),
        start is Ok,
        ended.account_counter == started.account_counter,
        ended.top().entry_point == ExportedFunction::Constructor,
    ensures
        popped(ended, false).account_counter == Some(
            match before.account_counter {
                Some(cached) => cached,
                None => stored_counter,
            },
        ),
{
}

/// The description that was noted last counts where there was none of the action before.
proof fn lemma_noted_description(
    descriptions: Seq<ContractActionDesc>,
    description: ContractActionDesc,
    action_id: Digest,
)
    requires
        description.action_id == action_id,
    ensures
        description_of(descriptions.push(description), action_id) == (match description_of(
            descriptions,
            action_id,
        ) {
            Some(found) => Some(found),
            None => Some(description),
        }),
    decreases descriptions.len(),
{
    let all = descriptions.push(description);
    if descriptions.len() == 0 {
        assert(all[0] == description);
    } else {
        assert(all[0] == descriptions[0]);
        assert(all.drop_first() =~= descriptions.drop_first().push(description));
        lemma_noted_description(descriptions.drop_first(), description, action_id);
    }
}

/// A call that was made in a dry run is found by the run that follows with what the dry run noted:
/// it goes to the chain that was declared for it, or stays on this one.
pub proof fn law_dry_run_prepares_the_call(
    dry: StackView,
    action_id: Digest,
    to: AccountId,
    input_data: Vec<u8>,
    declared_target: Option<ChainId>,
    noted: StackView,
    answer: CallRoute,
    before: StackView,
    declared_later: Option<ChainId>,
    after: StackView,
    route: CallRoute,
)
    requires
        dry.extension.run_mode == RunMode::Dry,
        description_of(dry.extension.descriptions, action_id) is None,
        call_routed(dry, action_id, to, input_data, declared_target, noted, answer),
        before.extension.run_mode == RunMode::Pre,
        before.extension.descriptions == noted.extension.descriptions,
        call_routed(before, action_id, to, input_data, declared_later, after, route),
    ensures
        route == (match declared_target {
            Some(target_id) => CallRoute::Remote(target_id, input_data),
            None => CallRoute::Local(input_data),
        }),
{
    lemma_noted_description(
        dry.extension.descriptions,
        ContractActionDesc { action_id, target_id: declared_target, to: Some(to) },
        action_id,
    );
}

/// Whether the breakpoints are in order and none is after the last message.
pub open spec fn rounds_in_order(extension: ExtensionView) -> bool {
    &&& forall|i: int, j: int|
        0 <= i <= j < extension.breakpoints.len() ==> extension.breakpoints[i]
            <= extension.breakpoints[j]
    &&& forall|i: int|
        0 <= i < extension.breakpoints.len() ==> extension.breakpoints[i]
            <= extension.messages.len()
}

/// The breakpoints between rounds stay in order, as messages are kept and targets change. They
/// are counted in 32 bits, so this holds for as many messages.
pub proof fn law_rounds_stay_in_order(
    extension: ExtensionView,
    message: Vec<u8>,
    prev: Option<ChainId>,
    next: Option<ChainId>,
)
    requires
        rounds_in_order(extension),
        extension.messages.len() <= u32::MAX,
    ensures
        rounds_in_order(with_message(extension, message)),
        rounds_in_order(with_breakpoint(extension, prev, next)),
{
}

/// The shares that the users of a code are charged for do not exceed what the code takes.
pub proof fn law_shares_do_not_exceed_the_whole(len: u32, users: u32)
    ensures
        shared_size(len, users) * users <= len,
        users == 0 ==> shared_size(len, users) == len,
{
    if users != 0 {
        assert((len / users) * users <= len) by (nonlinear_arith)
            requires
                users != 0,
        ;
    }
}

/// Different numbers have different bytes.
proof fn lemma_le_bytes_injective(a: nat, b: nat, len: nat)
    requires
        a < byte_range(len),
        b < byte_range(len),
        le_bytes(a, len) == le_bytes(b, len),
    ensures
        a == b,
    decreases len,
{
    if len > 0 {
        let rest = (len - 1) as nat;
        let bytes = le_bytes(a, len);
        assert(bytes[0] == (a % 256) as u8);
        assert(le_bytes(b, len)[0] == (b % 256) as u8);
        assert(bytes.skip(1) =~= le_bytes(a / 256, rest));
        assert(le_bytes(b, len).skip(1) =~= le_bytes(b / 256, rest));
        lemma_le_bytes_injective(a / 256, b / 256, rest);
    }
}

/// Every balance fits into its bytes.
proof fn lemma_balance_range(width: BalanceWidth, value: Balance)
    requires
        value <= width.greatest(),
    ensures
        value < byte_range(width.bytes()),
{
    reveal_with_fuel(byte_range, 17);
    assert(byte_range(4) == 0x1_0000_0000);
    assert(byte_range(8) == 0x1_0000_0000_0000_0000);
    assert(byte_range(16) == 0x1_0000_0000_0000_0000_0000_0000_0000_0000);
}

/// Different byte strings of up to 32 bits of length have different encodings.
proof fn lemma_encoded_bytes_injective(bytes: Seq<u8>, other: Seq<u8>)
    requires
        bytes.len() <= u32::MAX,
        other.len() <= u32::MAX,
        encoded_bytes(bytes) == encoded_bytes(other),
    ensures
        bytes == other,
{
    lemma_compact_len(bytes.len());
    lemma_compact_len(other.len());
    let prefix = compact_len(bytes.len()).len() as int;
    assert(encoded_bytes(bytes).len() == prefix + bytes.len());
    assert(encoded_bytes(other).len() == compact_len(other.len()).len() + other.len());
    assert(bytes.len() == other.len());
    assert(encoded_bytes(bytes).skip(prefix) =~= bytes);
    assert(encoded_bytes(other).skip(prefix) =~= other);
}

/// The number of bytes that the compact form of a length takes.
proof fn lemma_compact_len(len: nat)
    ensures
        compact_len(len).len() == (if len < 0x40 {
            1int
        } else if len < 0x4000 {
            2
        } else if len < 0x4000_0000 {
            4
        } else {
            5
        }),
{
    lemma_le_bytes_len(4 * len, 1);
    lemma_le_bytes_len(4 * len + 1, 2);
    lemma_le_bytes_len(4 * len + 2, 4);
    lemma_le_bytes_len(len, 4);
}

/// The bytes that are hashed for the identifier of a call tell it apart from every call that
/// differs in the callee, the value or the input.
pub proof fn law_calls_are_told_apart(
    width: BalanceWidth,
    to: AccountId,
    value: Balance,
    input_data: Seq<u8>,
    other_to: AccountId,
    other_value: Balance,
    other_input_data: Seq<u8>,
)
    requires
        value <= width.greatest(),
        other_value <= width.greatest(),
        input_data.len() + 36 + width.bytes() <= u32::MAX,
        other_input_data.len() + 36 + width.bytes() <= u32::MAX,
        action_preimage(call_action_name(), call_bytes(width, to, value, input_data))
            == action_preimage(
            call_action_name(),
            call_bytes(width, other_to, other_value, other_input_data),
        ),
    ensures
        to == other_to,
        value == other_value,
        input_data == other_input_data,
{
    let name = call_action_name();
    let bytes = call_bytes(width, to, value, input_data);
    let other = call_bytes(width, other_to, other_value, other_input_data);
    let end = 32 + width.bytes() as int;
    lemma_le_bytes_len(value as nat, width.bytes());
    lemma_le_bytes_len(other_value as nat, width.bytes());
    lemma_encoded_bytes_injective(name + bytes, name + other);
    assert((name + bytes).skip(4) =~= bytes);
    assert((name + other).skip(4) =~= other);
    assert(bytes.take(32) =~= to@);
    assert(bytes.take(32) =~= other_to@);
    assert(to =~= other_to);
    assert(bytes.subrange(32, end) =~= encoded_balance(width, value));
    assert(bytes.subrange(32, end) =~= encoded_balance(width, other_value));
    lemma_balance_range(width, value);
    lemma_balance_range(width, other_value);
    lemma_le_bytes_injective(value as nat, other_value as nat, width.bytes());
    assert(bytes.skip(end) =~= input_data);
    assert(bytes.skip(end) =~= other_input_data);
}

/// What a contract writes to its storage, it reads: with no write to the entry and no call in
/// between, a read finds the entry as it was set, or none if it was deleted. The message that goes
/// with the read is kept. Without such a message, there is no entry, and nothing changes.
///
/// `info` is what the write made of the contract, whose storage stays in the same trie. `later` is
/// the call stack before the read.
pub proof fn law_read_follows_write(
    before: StackView,
    write_message: Result<Vec<u8>, &'static str>,
    stored: Option<ContractInfo>,
    started: StackView,
    write: ContractWrite,
    info: AliveContractInfo,
    later: StackView,
    read_message: Result<Vec<u8>, &'static str>,
    stored_later: Option<ContractInfo>,
    after: StackView,
    trie_id: Option<TrieId>,
    state: State,
    key: StorageKey,
    value: Option<Seq<u8>>,
)
    requires
        before.wf(),
        write_started(
            before,
            write_message,
            stored,
            started,
            Ok::<ContractWrite, DispatchError>(write),
        ),
        info.trie_id == write.info.trie_id,
        later.wf(),
        later.top().contract_info == with_info(started, info).top().contract_info,
        storage_read(later, read_message, stored_later, after, trie_id),
    ensures
        match read_message {
            Ok(message) => {
                &&& trie_id == Some(write.info.trie_id)
                &&& state.with_entry(write.info.trie_id, key, value).entry(
                    trie_id->0,
                    key,
                ) == value
                &&& after.extension.messages == later.extension.messages.push(message)
            },
            Err(_) => {
                &&& trie_id is None
                &&& after == later
            },
        },
{
}

} // verus!
