//! What the dealings with other chains, with storage and with encodings are for: what their results
//! satisfy, in terms of what they were given.
use vstd::arithmetic::power::{lemma_pow0, pow};
use vstd::prelude::*;
use vstd::utf8::*;
use crate::codec::{
    action_preimage, blake2_256, call_action_id, compact_len, digest_of, encoded_balance,
    keccak_256, le_bytes, lemma_le_bytes_len,
};
use crate::config::{BalanceWidth, Config, Hashing};
use crate::executable::Executable;
use crate::ext::{
    allowance_read, allowance_set, call_routed, debug_appended, description_of, emitted_event,
    message_kept, remote_call_answered, remote_call_asked, remote_transfer_asked,
    remote_transfer_outcome, storage_read, write_ended, write_started, CallRoute, ContractWrite,
};
use crate::extension::{
    abi_failure, are_abi_values, call_message_made, is_gateway_call, is_gateway_read,
    is_gateway_write, method_name_bytes, module_name_bytes, name_bytes, named_call_message_made,
    names_taken, with_breakpoint, AbiReplies, AbiType, AbiValues, ContractActionDesc,
    ExtensionView, GatewayCall, GatewayRead, GatewayTransfer, GatewayWrite,
};
use crate::frame::{effective, loaded, CachedContract, Frame};
use crate::rent::{credited, rent_params, RentConfig};
use crate::stack::StackView;
use crate::types::{
    AccountId, AliveContractInfo, Balance, CallFlags, ChainId, ContractInfo, Digest, DispatchError,
    DispatchResult, Effect, Error, ErrorOrigin, Event, ExecError, ExecResult, ExecReturnValue,
    RunMode, StorageKey, TrieId, Weight,
};

verus! {

/// A name is read byte by byte: every byte that is not zero is part of it, whatever it is, and no
/// zero is. The bytes keep their order, and each counts as often as it stands there.
pub proof fn law_name_is_read_byte_by_byte(input: Seq<u8>, from: int, mid: int, to: int)
    requires
        0 <= from <= mid <= to <= input.len(),
    ensures
        name_bytes(input, from, to) == name_bytes(input, from, mid) + name_bytes(input, mid, to),
        from < mid && input[mid - 1] != 0 ==> name_bytes(input, mid - 1, mid) == seq![
            input[mid - 1],
        ],
        from < mid && input[mid - 1] == 0 ==> name_bytes(input, mid - 1, mid).len() == 0,
        name_bytes(input, mid, mid).len() == 0,
{
    let keep = |b: u8| b > 0;
    let left = input.subrange(from, mid);
    let right = input.subrange(mid, to);
    assert(input.subrange(from, to) =~= left + right);
    Seq::filter_distributes_over_add(left, right, keep);
    reveal(Seq::filter);
    assert(input.subrange(mid, mid) =~= Seq::<u8>::empty());
    assert(Seq::<u8>::empty().filter(keep) =~= Seq::<u8>::empty());
    if from < mid {
        let one = input.subrange(mid - 1, mid);
        assert(one =~= seq![input[mid - 1]]);
        assert(one.drop_last() =~= Seq::<u8>::empty());
        assert(one.drop_last().filter(keep) =~= Seq::<u8>::empty());
        assert(one.last() == input[mid - 1]);
    }
}

/// Only zeros: there is no name.
proof fn lemma_padding_is_no_name(input: Seq<u8>, from: int, to: int)
    requires
        0 <= from <= to <= input.len(),
        forall|i: int| from <= i < to ==> #[trigger] input[i] == 0,
    ensures
        name_bytes(input, from, to) == Seq::<u8>::empty(),
    decreases to - from,
{
    law_name_is_read_byte_by_byte(input, from, to, to);
    if from < to {
        lemma_padding_is_no_name(input, from, to - 1);
        law_name_is_read_byte_by_byte(input, from, to - 1, to);
    }
}

/// No zeros: all of it is the name.
proof fn lemma_text_is_a_name(input: Seq<u8>, from: int, to: int)
    requires
        0 <= from <= to <= input.len(),
        forall|i: int| from <= i < to ==> #[trigger] input[i] != 0,
    ensures
        name_bytes(input, from, to) == input.subrange(from, to),
    decreases to - from,
{
    law_name_is_read_byte_by_byte(input, from, to, to);
    if from < to {
        lemma_text_is_a_name(input, from, to - 1);
        law_name_is_read_byte_by_byte(input, from, to - 1, to);
        assert(input.subrange(from, to) =~= input.subrange(from, to - 1).push(input[to - 1]));
    }
    assert(name_bytes(input, from, to) =~= input.subrange(from, to));
}

/// A text without zeros that stands at the start of a range, with zeros after it, is the name that
/// is read from the range.
pub proof fn law_padded_name_is_read_back(input: Seq<u8>, from: int, to: int, text: Seq<u8>)
    requires
        0 <= from <= to <= input.len(),
        from + text.len() <= to,
        !text.contains(0),
        input.subrange(from, from + text.len()) == text,
        forall|i: int| from + text.len() <= i < to ==> #[trigger] input[i] == 0,
    ensures
        name_bytes(input, from, to) == text,
{
    let mid = from + text.len();
    assert forall|i: int| from <= i < mid implies #[trigger] input[i] != 0 by {
        assert(input.subrange(from, mid)[i - from] == text[i - from]);
        assert(text.contains(text[i - from]));
    }
    lemma_text_is_a_name(input, from, mid);
    lemma_padding_is_no_name(input, mid, to);
    law_name_is_read_byte_by_byte(input, from, mid, to);
    assert(text + Seq::<u8>::empty() =~= text);
}

/// An input that starts with the name of a module and that of a method, each of up to 31 characters
/// and padded with zeros to 32 bytes, asks for just these: each is told by its length, in the upper
/// bits of one byte, and the bytes of the name. What stands in the last byte of each half, and what
/// follows them, does not count.
pub proof fn law_names_are_read_back(
    input: Seq<u8>,
    module_name: Seq<u8>,
    method_name: Seq<u8>,
    names: Result<(Vec<u8>, Vec<u8>), &'static str>,
)
    requires
        input.len() >= 64,
        module_name.len() <= 31,
        method_name.len() <= 31,
        !module_name.contains(0),
        !method_name.contains(0),
        valid_utf8(module_name),
        valid_utf8(method_name),
        input.subrange(0, module_name.len() as int) == module_name,
        forall|i: int| module_name.len() <= i < 31 ==> #[trigger] input[i] == 0,
        input.subrange(32, 32 + method_name.len() as int) == method_name,
        forall|i: int| 32 + method_name.len() <= i < 63 ==> #[trigger] input[i] == 0,
        names_taken(input, names),
    ensures
        names matches Ok((module, method)) && {
            &&& module@ == seq![(4 * module_name.len()) as u8] + module_name
            &&& method@ == seq![(4 * method_name.len()) as u8] + method_name
        },
{
    law_padded_name_is_read_back(input, 0, 31, module_name);
    law_padded_name_is_read_back(input, 32, 63, method_name);
    assert(module_name_bytes(input) == module_name);
    assert(method_name_bytes(input) == method_name);
    lemma_short_len(module_name.len());
    lemma_short_len(method_name.len());
}

/// The compact form of a short length is one byte.
proof fn lemma_short_len(len: nat)
    requires
        len < 0x40,
    ensures
        compact_len(len) == seq![(4 * len) as u8],
{
    reveal_with_fuel(le_bytes, 2);
    assert(le_bytes(4 * len, 1) =~= seq![(4 * len) as u8]);
}

/// Names cannot be taken from an input that is too short for them, or where what is there is no
/// text. They can in every other case.
pub proof fn law_names_are_missing_for_a_reason(
    input: Seq<u8>,
    names: Result<(Vec<u8>, Vec<u8>), &'static str>,
)
    requires
        names_taken(input, names),
    ensures
        input.len() < 64 ==> (names matches Err(text) && text@
            == "Input < 64 doesn't allow to extract function and method names"@),
        input.len() >= 64 ==> {
            let module_name = name_bytes(input, 0, 31);
            let method_name = name_bytes(input, 32, 63);
            &&& names is Ok <==> valid_utf8(module_name) && valid_utf8(method_name)
            &&& names matches Err(text) ==> text@ == "Can't decode argument to &str"@
        },
{
}

/// The byte of a number at a place is what is left after the places below it were divided away.
pub proof fn law_lowest_byte_comes_first(value: nat, len: nat)
    ensures
        le_bytes(value, len).len() == len,
        forall|i: int|
            0 <= i < len ==> #[trigger] le_bytes(value, len)[i] == (value as int / pow(
                256,
                i as nat,
            )) % 256,
    decreases len,
{
    lemma_le_bytes_len(value, len);
    if len > 0 {
        let rest = (len - 1) as nat;
        let bytes = le_bytes(value, len);
        law_lowest_byte_comes_first(value / 256, rest);
        assert forall|i: int| 0 <= i < len implies #[trigger] bytes[i] == (value as int / pow(
            256,
            i as nat,
        )) % 256 by {
            if i == 0 {
                lemma_pow0(256);
                assert(bytes[0] == (value % 256) as u8);
            } else {
                let below = (i - 1) as nat;
                assert(bytes[i] == le_bytes(value / 256, rest)[i - 1]);
                reveal(pow);
                vstd::arithmetic::power::lemma_pow_positive(256, below);
                vstd::arithmetic::div_mod::lemma_div_denominator(
                    value as int,
                    256,
                    pow(256, below),
                );
            }
        }
    }
}

/// The compact form of a length says how long it is, and gives the length back: the lowest two bits
/// of the first byte are 0, 1 or 2 for a form of one, two or four bytes, whose other bits are the
/// length, and 3 for a form of five, whose other bytes are the length.
pub proof fn law_compact_length_is_read_back(len: nat)
    requires
        len <= u32::MAX,
    ensures
        ({
            let form = compact_len(len);
            &&& form.len() >= 1
            &&& len < 0x40 <==> form[0] % 4 == 0
            &&& 0x40 <= len < 0x4000 <==> form[0] % 4 == 1
            &&& 0x4000 <= len < 0x4000_0000 <==> form[0] % 4 == 2
            &&& form[0] % 4 == 0 ==> form.len() == 1 && len == form[0] / 4
            &&& form[0] % 4 == 1 ==> form.len() == 2 && len == (form[0] + 0x100 * form[1]) / 4
            &&& form[0] % 4 == 2 ==> form.len() == 4 && len == (form[0] + 0x100 * form[1] + 0x1_0000
                * form[2] + 0x100_0000 * form[3]) / 4
            &&& form[0] % 4 == 3 ==> form.len() == 5 && form[0] == 3 && len == form[1] + 0x100
                * form[2] + 0x1_0000 * form[3] + 0x100_0000 * form[4]
        }),
{
    let form = compact_len(len);
    if len < 0x40 {
        lemma_short_len(len);
    } else if len < 0x4000 {
        lemma_two_bytes(4 * len + 1);
    } else if len < 0x4000_0000 {
        lemma_four_bytes(4 * len + 2);
    } else {
        lemma_four_bytes(len);
        assert(form.skip(1) =~= le_bytes(len, 4));
        assert(form[1] == form.skip(1)[0]);
        assert(form[2] == form.skip(1)[1]);
        assert(form[3] == form.skip(1)[2]);
        assert(form[4] == form.skip(1)[3]);
    }
}

/// A number of two bytes is the sum of what its bytes stand for.
proof fn lemma_two_bytes(number: nat)
    requires
        number < 0x1_0000,
    ensures
        ({
            let bytes = le_bytes(number, 2);
            &&& bytes.len() == 2
            &&& number == bytes[0] + 0x100 * bytes[1]
        }),
{
    reveal_with_fuel(le_bytes, 3);
    let bytes = le_bytes(number, 2);
    assert(bytes =~= seq![(number % 256) as u8, (number / 256 % 256) as u8]);
}

/// A number of four bytes is the sum of what its bytes stand for.
proof fn lemma_four_bytes(number: nat)
    requires
        number < 0x1_0000_0000,
    ensures
        ({
            let bytes = le_bytes(number, 4);
            &&& bytes.len() == 4
            &&& number == bytes[0] + 0x100 * bytes[1] + 0x1_0000 * bytes[2] + 0x100_0000 * bytes[3]
        }),
{
    let high = number / 0x1_0000;
    let bytes = le_bytes(number, 4);
    reveal_with_fuel(le_bytes, 3);
    assert(number / 256 / 256 == high);
    lemma_two_bytes(high);
    assert(bytes =~= seq![(number % 256) as u8, (number / 256 % 256) as u8] + le_bytes(high, 2));
    assert(bytes[2] == le_bytes(high, 2)[0]);
    assert(bytes[3] == le_bytes(high, 2)[1]);
}

/// The identifier of an action is the digest, by the hash function of the runtime, of its name and
/// what tells it apart, with the length of both before them. So two actions that are the same in
/// these have the same identifier, and nothing else counts.
pub proof fn law_action_is_identified_by_name_and_bytes(
    hashing: Hashing,
    action_name: Seq<u8>,
    unique_bytes: Seq<u8>,
    data: Seq<u8>,
)
    ensures
        ({
            let preimage = action_preimage(action_name, unique_bytes);
            let len = action_name.len() + unique_bytes.len();
            let prefix = compact_len(len).len() as int;
            &&& preimage.take(prefix) == compact_len(len)
            &&& preimage.subrange(prefix, prefix + action_name.len()) == action_name
            &&& preimage.skip(prefix + action_name.len()) == unique_bytes
        }),
        digest_of(Hashing::BlakeTwo256, data) == blake2_256(data),
        digest_of(Hashing::Keccak256, data) == keccak_256(data),
        hashing != Hashing::BlakeTwo256 ==> digest_of(hashing, data) == keccak_256(data),
{
    let preimage = action_preimage(action_name, unique_bytes);
    let prefix = compact_len(action_name.len() + unique_bytes.len()).len() as int;
    assert(preimage.take(prefix) =~= compact_len(action_name.len() + unique_bytes.len()));
    assert(preimage.subrange(prefix, prefix + action_name.len()) =~= action_name);
    assert(preimage.skip(prefix + action_name.len()) =~= unique_bytes);
}

/// The identifier of a call is the digest, by the hash function of the runtime, of a byte string
/// with its length before it: the word `call`, the callee, the value in as many bytes as balances
/// have, and the input.
pub proof fn law_identifier_is_a_digest(
    config: Config,
    to: AccountId,
    value: Balance,
    input_data: Seq<u8>,
    hashed: Seq<u8>,
)
    requires
        ({
            let width = match config.balance {
                BalanceWidth::Bits32 => 4int,
                BalanceWidth::Bits64 => 8,
                BalanceWidth::Bits128 => 16,
            };
            &&& hashed.len() == 36 + width + input_data.len()
            &&& hashed[0] == 0x63 && hashed[1] == 0x61 && hashed[2] == 0x6c && hashed[3] == 0x6c
            &&& hashed.subrange(4, 36) == to@
            &&& forall|i: int|
                0 <= i < width ==> #[trigger] hashed[36 + i] == (value as int / pow(256, i as nat))
                    % 256
            &&& hashed.skip(36 + width) == input_data
        }),
    ensures
        call_action_id(config, to, value, input_data) == (match config.hashing {
            Hashing::BlakeTwo256 => blake2_256(compact_len(hashed.len()) + hashed),
            Hashing::Keccak256 => keccak_256(compact_len(hashed.len()) + hashed),
        }),
{
    let width = config.balance.bytes() as int;
    law_lowest_byte_comes_first(value as nat, config.balance.bytes());
    let bytes = encoded_balance(config.balance, value);
    assert(hashed.subrange(36, 36 + width) =~= bytes) by {
        assert forall|i: int| 0 <= i < width implies hashed.subrange(36, 36 + width)[i]
            == bytes[i] by {
            assert(hashed[36 + i] == (value as int / pow(256, i as nat)) % 256);
        }
    }
    let name = seq![0x63u8, 0x61u8, 0x6cu8, 0x6cu8];
    assert(hashed =~= name + (to@ + bytes + input_data)) by {
        assert(hashed =~= hashed.subrange(0, 4) + hashed.subrange(4, 36) + hashed.subrange(
            36,
            36 + width,
        ) + hashed.skip(36 + width));
        assert(hashed.subrange(0, 4) =~= name);
    }
}

/// The greatest balance is the greatest number that its bytes can hold.
pub proof fn law_balances_fill_their_bytes(width: BalanceWidth)
    ensures
        width.greatest() == pow(256, width.bytes()) - 1,
        width.bytes() == 4 || width.bytes() == 8 || width.bytes() == 16,
        width == BalanceWidth::Bits32 <==> width.bytes() == 4,
        width == BalanceWidth::Bits64 <==> width.bytes() == 8,
{
    reveal(pow);
    reveal_with_fuel(pow, 17);
    assert(pow(256, 4) == 0x1_0000_0000);
    assert(pow(256, 8) == 0x1_0000_0000_0000_0000);
    assert(pow(256, 16) == 0x1_0000_0000_0000_0000_0000_0000_0000_0000);
}

/// Two values that are added to a balance one after the other come to the same as their sum, in any
/// order. What is added is never lost below the greatest balance, and never leads above it.
pub proof fn law_credits_add_up(
    width: BalanceWidth,
    balance: Balance,
    first: Balance,
    second: Balance,
)
    requires
        balance <= width.greatest(),
        first + second <= u128::MAX,
    ensures
        credited(width, credited(width, balance, first), second) == credited(
            width,
            balance,
            (first + second) as u128,
        ),
        credited(width, balance, 0) == balance,
        balance <= credited(width, balance, first) <= width.greatest(),
        credited(width, balance, first) < width.greatest() ==> credited(width, balance, first)
            - balance == first,
{
}

/// What a contract learns of its rent is what the runtime demands and what is known of the contract
/// and its code, with the value on top of both of its balances.
pub proof fn law_contract_learns_of_its_rent<E: Executable>(
    total_balance: Balance,
    free_balance: Balance,
    value: Balance,
    contract: AliveContractInfo,
    executable: E,
    config: RentConfig,
)
    ensures
        ({
            let params = rent_params(
                total_balance,
                free_balance,
                value,
                contract,
                executable,
                config,
            );
            &&& total_balance + value <= config.balance.greatest() ==> params.total_balance
                == total_balance + value
            &&& total_balance + value > config.balance.greatest() ==> params.total_balance
                == config.balance.greatest()
            &&& free_balance + value <= config.balance.greatest() ==> params.free_balance
                == free_balance + value
            &&& free_balance + value > config.balance.greatest() ==> params.free_balance
                == config.balance.greatest()
            &&& params.subsistence_threshold == config.subsistence_threshold
            &&& params.deposit_per_contract == config.deposit_per_contract
            &&& params.deposit_per_storage_byte == config.deposit_per_storage_byte
            &&& params.deposit_per_storage_item == config.deposit_per_storage_item
            &&& params.rent_fraction == config.rent_fraction
            &&& params.rent_allowance == contract.rent_allowance
            &&& params.storage_size == contract.storage_size
            &&& params.code_size == executable.aggregate_len()
            &&& params.code_refcount == executable.users()
            &&& params.reserved is None
        }),
{
}

/// The accounts of a message are translated as addresses and its amount as a number, in the sizes
/// of the gateway: first the escrow account, then the requester, then the one that it is for.
pub proof fn law_values_are_translated_as_what_they_are(
    extension: ExtensionView,
    width: BalanceWidth,
    to: AccountId,
    value: Balance,
    values: AbiValues,
)
    requires
        are_abi_values(extension, width, to, value, values),
    ensures
        values.escrow.bytes@ == extension.escrow_account@,
        values.requester.bytes@ == extension.requester@,
        values.dest.bytes@ == to@,
        values.escrow.ty == values.requester.ty && values.requester.ty == values.dest.ty,
        values.dest.ty == AbiType::Address(extension.gateway_abi.address_length),
        values.value.ty == AbiType::Uint(extension.gateway_abi.value_type_size),
        values.value.bytes@.len() == width.bytes(),
        forall|i: int|
            0 <= i < width.bytes() ==> #[trigger] values.value.bytes@[i] == (value as int / pow(
                256,
                i as nat,
            )) % 256,
{
    law_lowest_byte_comes_first(value as nat, width.bytes());
}

/// A message is made exactly where every value was translated. Else the first translation that
/// failed says why there is none.
pub proof fn law_first_failed_translation_counts(abi: AbiReplies)
    ensures
        abi_failure(abi) is None <==> abi.escrow is Ok && abi.requester is Ok && abi.dest is Ok
            && abi.value is Ok,
        abi.escrow matches Err(text) ==> abi_failure(abi) == Some(text),
        abi.escrow is Ok ==> (abi.requester matches Err(text) ==> abi_failure(abi) == Some(text)),
        abi.escrow is Ok && abi.requester is Ok ==> (abi.dest matches Err(text) ==> abi_failure(abi)
            == Some(text)),
        abi.escrow is Ok && abi.requester is Ok && abi.dest is Ok ==> (abi.value matches Err(text)
            ==> abi_failure(abi) == Some(text)),
{
}

/// The gateway is asked for a call exactly where every value was translated: with the input, the
/// names, the translated values, the gas limit in eight bytes and the type of the gateway. The
/// outcome is told where it is known and a success.
pub proof fn law_gateway_call_holds_what_was_given(
    extension: ExtensionView,
    gas_limit: Weight,
    abi: AbiReplies,
    input_data: Vec<u8>,
    module_name: Seq<u8>,
    method_name: Seq<u8>,
    output_data: Option<&Result<Vec<u8>, ExecError>>,
    message: Result<GatewayCall, &'static str>,
)
    requires
        call_message_made(
            extension,
            gas_limit,
            abi,
            input_data,
            module_name,
            method_name,
            output_data,
            message,
        ),
    ensures
        message is Ok <==> abi.escrow is Ok && abi.requester is Ok && abi.dest is Ok
            && abi.value is Ok,
        message matches Err(text) ==> Some(text) == abi_failure(abi),
        message matches Ok(call) ==> {
            &&& call.module_name@ == module_name
            &&& call.method_name@ == method_name
            &&& call.input_data == input_data
            &&& call.escrow_account == abi.escrow->Ok_0
            &&& call.requester_account == abi.requester->Ok_0
            &&& call.dest_account == abi.dest->Ok_0
            &&& call.value == abi.value->Ok_0
            &&& call.gas_limit@.len() == 8
            &&& forall|i: int|
                0 <= i < 8 ==> #[trigger] call.gas_limit@[i] == (gas_limit as int / pow(
                    256,
                    i as nat,
                )) % 256
            &&& call.gateway_type@ == extension.gateway_pointer.gateway_type@
            &&& call.result is Some <==> output_data is Some && *output_data->0 is Ok
            &&& call.result matches Some(result) ==> result@ == (*output_data->0)->Ok_0@
        },
{
    law_lowest_byte_comes_first(gas_limit as nat, 8);
}

/// A call that is dispatched by names is the call with the names that its input holds. Where the
/// input does not hold them, there is no call, whatever was translated.
pub proof fn law_named_call_takes_its_names_from_the_input(
    extension: ExtensionView,
    gas_limit: Weight,
    abi: AbiReplies,
    input_data: Vec<u8>,
    output_data: Option<&Result<Vec<u8>, ExecError>>,
    message: Result<GatewayCall, &'static str>,
    names: Result<(Vec<u8>, Vec<u8>), &'static str>,
)
    requires
        named_call_message_made(extension, gas_limit, abi, input_data, output_data, message),
        names_taken(input_data@, names),
    ensures
        match names {
            Err(text) => message matches Err(e) && e@ == text@,
            Ok((module_name, method_name)) => call_message_made(
                extension,
                gas_limit,
                abi,
                input_data,
                module_name@,
                method_name@,
                output_data,
                message,
            ),
        },
{
}

/// A read and a write of the same entry name the same key to the same gateway. A write carries what
/// is written, and a deletion carries nothing.
pub proof fn law_gateway_is_told_the_key(
    extension: ExtensionView,
    key: StorageKey,
    value: Option<Vec<u8>>,
    read: GatewayRead,
    write: GatewayWrite,
)
    requires
        is_gateway_read(extension, key, read),
        is_gateway_write(extension, key, value, write),
    ensures
        read.key@ == write.key@,
        read.gateway_type@ == write.gateway_type@,
        read.key@.len() == 32,
        forall|i: int| 0 <= i < 32 ==> read.key@[i] == key[i],
        read.gateway_type@ == extension.gateway_pointer.gateway_type@,
        write.value == value,
{
}

/// A call into another chain is asked for without names, unless it is dispatched by them. Then the
/// input has to hold them. A text that says why there is no message is the caller's error.
pub proof fn law_remote_call_is_asked_for(
    extension: ExtensionView,
    gas_limit: Weight,
    abi: AbiReplies,
    input_data: Vec<u8>,
    flags: CallFlags,
    message: Result<GatewayCall, ExecError>,
    names: Result<(Vec<u8>, Vec<u8>), &'static str>,
)
    requires
        remote_call_asked(extension, gas_limit, abi, input_data, flags, message),
        names_taken(input_data@, names),
    ensures
        ({
            let translated = abi.escrow is Ok && abi.requester is Ok && abi.dest is Ok
                && abi.value is Ok;
            &&& message is Ok <==> translated && (flags.module_dispatch ==> names is Ok)
            &&& message matches Err(e) ==> e.origin == ErrorOrigin::Caller && e.error is Other
            &&& message matches Err(e) ==> (flags.module_dispatch && names is Err
                ==> e.error->Other_0@ == names->Err_0@)
            &&& message matches Err(e) ==> (!flags.module_dispatch || names is Ok ==> Some(
                e.error->Other_0,
            ) == abi_failure(abi))
            &&& message matches Ok(call) ==> {
                &&& call.module_name@ == if flags.module_dispatch {
                    names->Ok_0.0@
                } else {
                    seq![]
                }
                &&& call.method_name@ == if flags.module_dispatch {
                    names->Ok_0.1@
                } else {
                    seq![]
                }
                &&& call.input_data == input_data
                &&& call.result is None
                &&& is_gateway_call(
                    extension,
                    call,
                    gas_limit,
                    abi,
                    input_data,
                    call.module_name@,
                    call.method_name@,
                    None,
                )
            }
        }),
{
}

/// A transfer on another chain is asked for with the translated values and the type of the gateway,
/// exactly where all values were translated. What the gateway makes of it decides on its outcome.
pub proof fn law_remote_transfer_is_asked_for(
    extension: ExtensionView,
    abi: AbiReplies,
    asked: Result<GatewayTransfer, DispatchError>,
    message: Result<Vec<u8>, &'static str>,
)
    requires
        remote_transfer_asked(extension, abi, asked),
    ensures
        asked is Ok <==> abi.escrow is Ok && abi.requester is Ok && abi.dest is Ok
            && abi.value is Ok,
        asked matches Ok(transfer) ==> {
            &&& abi.escrow->Ok_0 == transfer.escrow_account
            &&& abi.requester->Ok_0 == transfer.requester_account
            &&& abi.dest->Ok_0 == transfer.dest_account
            &&& abi.value->Ok_0 == transfer.value
            &&& transfer.gateway_type@ == extension.gateway_pointer.gateway_type@
        },
        asked matches Err(error) ==> (error matches DispatchError::Other(text) && Some(text)
            == abi_failure(abi)),
        remote_transfer_outcome(message) is Ok <==> message is Ok,
        message matches Err(text) ==> remote_transfer_outcome(message) == Err::<(), DispatchError>(
            DispatchError::Other(text),
        ),
{
}

/// A message that was produced is kept behind the others, and nothing else is. Without one, nothing
/// changes.
pub proof fn law_message_is_kept_in_order(stack: StackView, message: Result<Vec<u8>, &'static str>)
    ensures
        ({
            let after = message_kept(stack, message);
            &&& message matches Ok(bytes) ==> {
                &&& after.extension.messages == stack.extension.messages.push(bytes)
                &&& after.extension == ExtensionView {
                    messages: after.extension.messages,
                    ..stack.extension
                }
                &&& after == StackView { extension: after.extension, ..stack }
            }
            &&& message is Err ==> after == stack
        }),
{
}

/// A round ends exactly where the execution goes from one other chain to a different one. The
/// number of messages so far is noted then. From this chain or to it, no round ends.
pub proof fn law_round_ends_between_two_other_chains(
    extension: ExtensionView,
    prev: Option<ChainId>,
    next: Option<ChainId>,
)
    requires
        extension.messages.len() <= u32::MAX,
    ensures
        ({
            let after = with_breakpoint(extension, prev, next);
            &&& prev is None || next is None || prev == next ==> after == extension
            &&& prev is Some && next is Some && prev != next ==> {
                &&& after.breakpoints.len() == extension.breakpoints.len() + 1
                &&& after.breakpoints.drop_last() == extension.breakpoints
                &&& after.breakpoints.last() == extension.messages.len()
                &&& after == ExtensionView { breakpoints: after.breakpoints, ..extension }
            }
        }),
{
    let after = with_breakpoint(extension, prev, next);
    if prev is Some && next is Some && prev != next {
        assert(after.breakpoints.drop_last() =~= extension.breakpoints);
    }
}

/// A call into another chain is answered with its own input, as one that was not executed here,
/// once its message is kept. Without a message it fails, and nothing is kept.
pub proof fn law_remote_call_is_answered(
    before: StackView,
    message: Result<Vec<u8>, &'static str>,
    input_data: Vec<u8>,
    target_id: ChainId,
    after: StackView,
    output: ExecResult,
)
    requires
        before.frames.len() >= 1,
        before.extension.messages.len() < u32::MAX,
        remote_call_answered(before, message, input_data, target_id, after, output),
    ensures
        output is Ok <==> message is Ok,
        output matches Ok(value) ==> {
            &&& value.data@ == input_data@
            &&& value.flags.foreign_target && !value.flags.revert
        },
        message matches Err(text) ==> {
            &&& after == before
            &&& output == Err::<ExecReturnValue, ExecError>(
                ExecError { error: DispatchError::Other(text), origin: ErrorOrigin::Caller },
            )
        },
        message matches Ok(bytes) ==> {
            let here = before.frames[before.frames.len() - 1].target_id;
            let messages = before.extension.messages;
            &&& after.extension.messages == messages.push(bytes)
            &&& after.extension.breakpoints == if here is Some && here != Some(target_id) {
                before.extension.breakpoints.push((messages.len() + 1) as u32)
            } else {
                before.extension.breakpoints
            }
            &&& after.extension == ExtensionView {
                messages: after.extension.messages,
                breakpoints: after.extension.breakpoints,
                ..before.extension
            }
            &&& after == StackView { extension: after.extension, ..before }
        },
{
}

/// The description of an action that counts is the first one of that action. There is none only
/// where no description is of that action.
pub proof fn law_first_description_counts(
    descriptions: Seq<ContractActionDesc>,
    action_id: Digest,
    i: int,
)
    requires
        0 <= i < descriptions.len(),
        descriptions[i].action_id == action_id,
        forall|j: int| 0 <= j < i ==> (#[trigger] descriptions[j]).action_id != action_id,
    ensures
        description_of(descriptions, action_id) == Some(descriptions[i]),
    decreases descriptions.len(),
{
    if i > 0 {
        let rest = descriptions.drop_first();
        assert(rest[i - 1] == descriptions[i]);
        assert forall|j: int| 0 <= j < i - 1 implies (#[trigger] rest[j]).action_id != action_id by {
            assert(rest[j] == descriptions[j + 1]);
        }
        law_first_description_counts(rest, action_id, i - 1);
    }
}

/// Where no description is of an action, none is found for it.
pub proof fn law_unknown_action_has_no_description(
    descriptions: Seq<ContractActionDesc>,
    action_id: Digest,
)
    requires
        forall|j: int|
            0 <= j < descriptions.len() ==> (#[trigger] descriptions[j]).action_id != action_id,
    ensures
        description_of(descriptions, action_id) is None,
    decreases descriptions.len(),
{
    if descriptions.len() > 0 {
        let rest = descriptions.drop_first();
        assert forall|j: int| 0 <= j < rest.len() implies (#[trigger] rest[j]).action_id
            != action_id by {
            assert(rest[j] == descriptions[j + 1]);
        }
        law_unknown_action_has_no_description(rest, action_id);
    }
}

/// A dry run makes no call: it notes where each goes, behind what was noted before, and answers it
/// with its own input, as one that was not executed here.
pub proof fn law_dry_run_only_notes_calls(
    before: StackView,
    action_id: Digest,
    to: AccountId,
    input_data: Vec<u8>,
    declared_target: Option<ChainId>,
    after: StackView,
    route: CallRoute,
)
    requires
        before.extension.run_mode == RunMode::Dry,
        call_routed(before, action_id, to, input_data, declared_target, after, route),
    ensures
        route matches CallRoute::Answered(Ok(value)) && {
            &&& value.data@ == input_data@
            &&& value.flags.foreign_target && !value.flags.revert
        },
        ({
            let noted = before.extension.descriptions;
            let notes = after.extension.descriptions;
            &&& notes.len() == noted.len() + 1
            &&& notes.drop_last() == noted
            &&& notes.last().action_id == action_id
            &&& notes.last().target_id == declared_target
            &&& notes.last().to == Some(to)
            &&& after.extension == ExtensionView { descriptions: notes, ..before.extension }
            &&& after == StackView { extension: after.extension, ..before }
        }),
{
    assert(after.extension.descriptions.drop_last() =~= before.extension.descriptions);
}

/// Outside of a dry run, a call goes where the first description of it says, with its input, and
/// nothing changes. A call without a description fails on the caller's side.
pub proof fn law_call_goes_where_it_is_described(
    before: StackView,
    action_id: Digest,
    to: AccountId,
    input_data: Vec<u8>,
    declared_target: Option<ChainId>,
    after: StackView,
    route: CallRoute,
    i: int,
)
    requires
        before.extension.run_mode == RunMode::Pre,
        call_routed(before, action_id, to, input_data, declared_target, after, route),
        0 <= i <= before.extension.descriptions.len(),
        i < before.extension.descriptions.len() ==> before.extension.descriptions[i].action_id
            == action_id,
        forall|j: int|
            0 <= j < i ==> (#[trigger] before.extension.descriptions[j]).action_id != action_id,
    ensures
        after == before,
        i == before.extension.descriptions.len() ==> route == CallRoute::Answered(
            Err::<ExecReturnValue, ExecError>(
                ExecError {
                    error: DispatchError::Module(Error::TargetActionDescNotFound),
                    origin: ErrorOrigin::Caller,
                },
            ),
        ),
        i < before.extension.descriptions.len()
            ==> match before.extension.descriptions[i].target_id {
            Some(target_id) => route == CallRoute::Remote(target_id, input_data),
            None => route == CallRoute::Local(input_data),
        },
{
    let descriptions = before.extension.descriptions;
    if i < descriptions.len() {
        law_first_description_counts(descriptions, action_id, i);
    } else {
        law_unknown_action_has_no_description(descriptions, action_id);
    }
}

/// A cached contract counts as it is, whatever is stored. A stale one is read from storage, where
/// it has to be alive. A removed one is gone, whatever is stored.
pub proof fn law_cache_comes_before_storage(
    cache: CachedContract,
    stored: Option<ContractInfo>,
    info: AliveContractInfo,
)
    ensures
        effective(CachedContract::Cached(info), stored) == Some(info),
        effective(CachedContract::Terminated, stored) is None,
        effective(CachedContract::Invalidated, Some(ContractInfo::Alive(info))) == Some(info),
        stored is None || stored->0 is Tombstone ==> effective(
            CachedContract::Invalidated,
            stored,
        ) is None,
        effective(cache, stored) matches Some(found) ==> loaded(cache, stored)
            == CachedContract::Cached(found),
        effective(cache, stored) is None ==> loaded(cache, stored) == cache,
{
}

/// Storage is read and written in the trie of the current contract, and what is known of the
/// contract is cached by that. A write is in the current block. Without a message, neither takes
/// place.
pub proof fn law_storage_is_that_of_the_current_contract(
    before: StackView,
    message: Result<Vec<u8>, &'static str>,
    stored: Option<ContractInfo>,
    after_read: StackView,
    trie_id: Option<TrieId>,
    after_write: StackView,
    write: Result<ContractWrite, DispatchError>,
)
    requires
        before.frames.len() >= 1,
        storage_read(before, message, stored, after_read, trie_id),
        write_started(before, message, stored, after_write, write),
    ensures
        ({
            let n = before.frames.len() as int;
            let top = before.frames[n - 1];
            &&& message matches Err(text) ==> {
                &&& trie_id is None
                &&& after_read == before
                &&& write == Err::<ContractWrite, DispatchError>(DispatchError::Other(text))
            }
            &&& message matches Ok(bytes) ==> {
                &&& write matches Ok(w)
                &&& trie_id == Some(w.info.trie_id)
                &&& w.block_number == before.block_number
                &&& match top.contract_info {
                    CachedContract::Cached(info) => w.info == info,
                    CachedContract::Invalidated => stored == Some(ContractInfo::Alive(w.info)),
                    CachedContract::Terminated => false,
                }
                &&& after_read.frames.len() == n
                &&& after_read.frames[n - 1] == Frame {
                    contract_info: CachedContract::Cached(w.info),
                    ..top
                }
                &&& forall|i: int|
                    0 <= i < n - 1 ==> #[trigger] after_read.frames[i] == before.frames[i]
                &&& after_read.extension.messages == before.extension.messages.push(bytes)
                &&& after_read.extension == ExtensionView {
                    messages: after_read.extension.messages,
                    ..before.extension
                }
                &&& after_read == StackView {
                    frames: after_read.frames,
                    extension: after_read.extension,
                    ..before
                }
            }
            &&& after_write == after_read
        }),
{
}

/// The rent allowance that is set is the one that is read, as long as the contract is not changed
/// in between. Setting it changes nothing else of the contract.
pub proof fn law_allowance_is_read_back(
    before: StackView,
    rent_allowance: Balance,
    stored: Option<ContractInfo>,
    set: StackView,
    stored_later: Option<ContractInfo>,
    after: StackView,
    read: Balance,
)
    requires
        before.frames.len() >= 1,
        allowance_set(before, rent_allowance, stored, set),
        allowance_read(set, stored_later, after, read),
    ensures
        ({
            let n = before.frames.len() as int;
            let top = before.frames[n - 1];
            &&& read == rent_allowance
            &&& after == set
            &&& set.frames.len() == n
            &&& forall|i: int| 0 <= i < n - 1 ==> #[trigger] set.frames[i] == before.frames[i]
            &&& set == StackView { frames: set.frames, ..before }
            &&& match top.contract_info {
                CachedContract::Cached(info) => set.frames[n - 1] == Frame {
                    contract_info: CachedContract::Cached(
                        AliveContractInfo { rent_allowance, ..info },
                    ),
                    ..top
                },
                CachedContract::Invalidated => {
                    &&& stored matches Some(ContractInfo::Alive(info))
                    &&& set.frames[n - 1] == Frame {
                        contract_info: CachedContract::Cached(
                            AliveContractInfo { rent_allowance, ..info },
                        ),
                        ..top
                    }
                },
                CachedContract::Terminated => false,
            }
        }),
{
    assert(after.frames =~= set.frames);
}

/// The rent allowance of a contract is the one that it has, cached or stored.
pub proof fn law_allowance_is_that_of_the_current_contract(
    before: StackView,
    stored: Option<ContractInfo>,
    after: StackView,
    read: Balance,
)
    requires
        before.frames.len() >= 1,
        allowance_read(before, stored, after, read),
    ensures
        match before.frames.last().contract_info {
            CachedContract::Cached(info) => read == info.rent_allowance && after == before,
            CachedContract::Invalidated => {
                &&& stored matches Some(ContractInfo::Alive(info))
                &&& read == info.rent_allowance
                &&& after.frames == before.frames.update(
                    before.frames.len() - 1,
                    Frame {
                        contract_info: CachedContract::Cached(info),
                        ..before.frames.last()
                    },
                )
                &&& after == StackView { frames: after.frames, ..before }
            },
            CachedContract::Terminated => false,
        },
{
    if before.frames.last().contract_info is Cached {
        assert(after.frames =~= before.frames);
    }
}

/// Texts that are appended to the debug buffer stand there one after the other, with nothing
/// before, between or after them. Without a buffer, nothing happens, and that is told.
pub proof fn law_debug_texts_are_appended(
    before: StackView,
    first: Seq<char>,
    middle: StackView,
    first_enabled: bool,
    second: Seq<char>,
    after: StackView,
    second_enabled: bool,
)
    requires
        debug_appended(before, first, middle, first_enabled),
        debug_appended(middle, second, after, second_enabled),
    ensures
        first_enabled == before.debug_message is Some,
        second_enabled == first_enabled,
        before.debug_message is None ==> middle == before && after == before,
        before.debug_message matches Some(buffer) ==> {
            &&& middle.debug_message == Some(buffer + encode_utf8(first))
            &&& after.debug_message == Some(buffer + encode_utf8(first) + encode_utf8(second))
            &&& after == StackView { debug_message: after.debug_message, ..before }
        },
{
}

/// The data of a contract is reported with the escrow account and the requester of the execution,
/// under the topics that were given.
pub proof fn law_event_names_escrow_and_requester(
    extension: ExtensionView,
    topics: Vec<Digest>,
    data: Vec<u8>,
)
    ensures
        emitted_event(extension, topics, data) matches Effect::DepositIndexedEvent(t, event) && {
            &&& t == topics
            &&& event matches Event::VolatileVMEmitted(escrow, requester, d)
            &&& escrow == extension.escrow_account
            &&& requester == extension.requester
            &&& d == data
        },
{
}

/// What a write made of the contract is what its frame has cached from then on, whether the write
/// succeeded or not, and its outcome is passed on. No other frame learns of it.
pub proof fn law_written_contract_is_cached(
    before: StackView,
    info: AliveContractInfo,
    written: DispatchResult,
    after: StackView,
    outcome: DispatchResult,
)
    requires
        before.frames.len() >= 1,
        write_ended(before, info, written, after, outcome),
    ensures
        ({
            let n = before.frames.len() as int;
            &&& outcome == written
            &&& after.frames.len() == n
            &&& forall|i: int|
                0 <= i < n - 1 ==> #[trigger] after.frames[i] == before.frames[i]
            &&& after.frames[n - 1] == Frame {
                contract_info: CachedContract::Cached(info),
                ..before.frames[n - 1]
            }
            &&& after == StackView { frames: after.frames, ..before }
        }),
{
}

} // verus!
