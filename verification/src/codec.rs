//! The encoding of values for other chains, and the identifier of an action.
use parity_scale_codec::Encode;
use sp_runtime::traits::{BlakeTwo256, Keccak256};
use vstd::prelude::*;
use vstd::utf8::*;
use crate::config::{BalanceWidth, Config, Hashing};
use crate::types::{AccountId, Balance, Digest};

verus! {

/// The lowest `len` bytes of a number, the lowest first.
pub open spec fn le_bytes(value: nat, len: nat) -> Seq<u8>
    decreases len,
{
    if len == 0 {
        seq![]
    } else {
        seq![(value % 256) as u8] + le_bytes(value / 256, (len - 1) as nat)
    }
}

/// The compact form of a length: the two lowest bits of the first byte tell how many bytes it
/// takes.
pub open spec fn compact_len(len: nat) -> Seq<u8> {
    if len < 0x40 {
        le_bytes(4 * len, 1)
    } else if len < 0x4000 {
        le_bytes(4 * len + 1, 2)
    } else if len < 0x4000_0000 {
        le_bytes(4 * len + 2, 4)
    } else {
        seq![3u8] + le_bytes(len, 4)
    }
}

/// The encoding of a byte string: its length, then its bytes.
pub open spec fn encoded_bytes(bytes: Seq<u8>) -> Seq<u8> {
    compact_len(bytes.len()) + bytes
}

/// Calls `parity_scale_codec::Encode::encode` on a `u32`, which gives its four bytes, the lowest
/// first.
#[verifier::external_body]
fn encode_u32(value: u32) -> (encoded: Vec<u8>)
    ensures
        encoded@ == le_bytes(value as nat, 4),
{
    value.encode()
}

/// Calls `parity_scale_codec::Encode::encode` on a `u64`, which gives its eight bytes, the lowest
/// first.
#[verifier::external_body]
pub(crate) fn encode_u64(value: u64) -> (encoded: Vec<u8>)
    ensures
        encoded@ == le_bytes(value as nat, 8),
{
    value.encode()
}

/// Calls `parity_scale_codec::Encode::encode` on a `u128`, which gives its sixteen bytes, the
/// lowest first.
#[verifier::external_body]
fn encode_u128(value: u128) -> (encoded: Vec<u8>)
    ensures
        encoded@ == le_bytes(value as nat, 16),
{
    value.encode()
}

/// Calls `parity_scale_codec::Encode::encode` on an array of bytes, which gives these bytes and
/// nothing else.
#[verifier::external_body]
pub(crate) fn encode_array<const N: usize>(bytes: &[u8; N]) -> (encoded: Vec<u8>)
    ensures
        encoded@ == bytes@,
{
    bytes.encode()
}

/// Calls `parity_scale_codec::Encode::encode` on a vector of bytes, which gives the compact form
/// of its length and then its bytes. The call panics where the length takes more than 32 bits.
#[verifier::external_body]
pub(crate) fn encode_vec(bytes: &Vec<u8>) -> (encoded: Vec<u8>)
    requires
        bytes@.len() <= u32::MAX,
    ensures
        encoded@ == encoded_bytes(bytes@),
{
    bytes.encode()
}

/// Calls `parity_scale_codec::Encode::encode` on a string slice, which encodes it as the byte
/// string of its UTF-8 form. The call panics where the length takes more than 32 bits.
#[verifier::external_body]
pub(crate) fn encode_str(text: &str) -> (encoded: Vec<u8>)
    requires
        encode_utf8(text@).len() <= u32::MAX,
    ensures
        encoded@ == encoded_bytes(encode_utf8(text@)),
{
    text.encode()
}

/// Calls `std::str::from_utf8`, which gives the text that the bytes are the UTF-8 form of, if
/// they are well formed.
#[verifier::external_body]
pub(crate) fn text_of(bytes: &[u8]) -> (text: Option<&str>)
    ensures
        text is Some <==> valid_utf8(bytes@),
        text matches Some(t) ==> encode_utf8(t@) == bytes@,
{
    core::str::from_utf8(bytes).ok()
}

/// The BLAKE2b digest of 256 bits, as `sp_runtime::traits::BlakeTwo256` computes it.
pub uninterp spec fn blake2_256(data: Seq<u8>) -> Digest;

/// Calls `sp_runtime::traits::Hash::hash` of `BlakeTwo256`. The digest depends on the data alone.
#[verifier::external_body]
fn hash_blake2(data: &[u8]) -> (digest: Digest)
    ensures
        digest == blake2_256(data@),
{
    <BlakeTwo256 as sp_runtime::traits::Hash>::hash(data).0
}

/// The Keccak digest of 256 bits, as `sp_runtime::traits::Keccak256` computes it.
pub uninterp spec fn keccak_256(data: Seq<u8>) -> Digest;

/// Calls `sp_runtime::traits::Hash::hash` of `Keccak256`. The digest depends on the data alone.
#[verifier::external_body]
fn hash_keccak(data: &[u8]) -> (digest: Digest)
    ensures
        digest == keccak_256(data@),
{
    <Keccak256 as sp_runtime::traits::Hash>::hash(data).0
}

/// The digest of some bytes.
pub open spec fn digest_of(hashing: Hashing, data: Seq<u8>) -> Digest {
    match hashing {
        Hashing::BlakeTwo256 => blake2_256(data),
        Hashing::Keccak256 => keccak_256(data),
    }
}

/// The digest of some bytes.
fn hash(hashing: Hashing, data: &[u8]) -> (digest: Digest)
    ensures
        digest == digest_of(hashing, data@),
{
    match hashing {
        Hashing::BlakeTwo256 => hash_blake2(data),
        Hashing::Keccak256 => hash_keccak(data),
    }
}

/// The encoding of a balance: as many of its bytes as balances have, the lowest first.
pub open spec fn encoded_balance(width: BalanceWidth, value: Balance) -> Seq<u8> {
    le_bytes(value as nat, width.bytes())
}

/// The encoding of a balance.
pub(crate) fn encode_balance(width: BalanceWidth, value: Balance) -> (encoded: Vec<u8>)
    ensures
        encoded@ == encoded_balance(width, value),
{
    match width {
        BalanceWidth::Bits32 => {
            let low: u32 = #[verifier::truncate]
            (value as u32);
            assert(value as u32 == value % 0x1_0000_0000) by (bit_vector);
            proof {
                let high = value as nat / 0x1_0000_0000;
                reveal_with_fuel(byte_range, 5);
                assert(byte_range(4) == 0x1_0000_0000);
                assert(value == low + byte_range(4) * high);
                lemma_le_bytes_low(low as nat, high, 4);
            }
            encode_u32(low)
        },
        BalanceWidth::Bits64 => {
            let low: u64 = #[verifier::truncate]
            (value as u64);
            assert(value as u64 == value % 0x1_0000_0000_0000_0000) by (bit_vector);
            proof {
                let high = value as nat / 0x1_0000_0000_0000_0000;
                reveal_with_fuel(byte_range, 9);
                assert(byte_range(8) == 0x1_0000_0000_0000_0000);
                assert(value == low + byte_range(8) * high);
                lemma_le_bytes_low(low as nat, high, 8);
            }
            encode_u64(low)
        },
        BalanceWidth::Bits128 => encode_u128(value),
    }
}

/// The name under which calls are counted among the actions: `call`.
pub open spec fn call_action_name() -> Seq<u8> {
    seq![0x63u8, 0x61u8, 0x6cu8, 0x6cu8]
}

/// What tells one call from another: the callee, the value and the input.
pub open spec fn call_bytes(
    width: BalanceWidth,
    to: AccountId,
    value: Balance,
    input_data: Seq<u8>,
) -> Seq<u8> {
    to@ + encoded_balance(width, value) + input_data
}

/// The bytes whose digest identifies an action.
pub open spec fn action_preimage(action_name: Seq<u8>, unique_bytes: Seq<u8>) -> Seq<u8> {
    encoded_bytes(action_name + unique_bytes)
}

/// The identifier of a call.
pub open spec fn call_action_id(
    config: Config,
    to: AccountId,
    value: Balance,
    input_data: Seq<u8>,
) -> Digest {
    digest_of(
        config.hashing,
        action_preimage(call_action_name(), call_bytes(config.balance, to, value, input_data)),
    )
}

/// The bytes whose digest identifies an action of the given name.
pub fn action_bytes(action_name: Vec<u8>, unique_bytes: &Vec<u8>) -> (preimage: Vec<u8>)
    requires
        action_name@.len() + unique_bytes@.len() <= u32::MAX,
    ensures
        preimage@ == action_preimage(action_name@, unique_bytes@),
{
    let mut bytes: Vec<u8> = action_name;
    extend_bytes(&mut bytes, unique_bytes.as_slice());
    encode_vec(&bytes)
}

/// The identifier of an action of the given name.
pub fn calculate_action_id(
    hashing: Hashing,
    action_name: Vec<u8>,
    unique_bytes: &Vec<u8>,
) -> (id: Digest)
    requires
        action_name@.len() + unique_bytes@.len() <= u32::MAX,
    ensures
        id == digest_of(hashing, action_preimage(action_name@, unique_bytes@)),
{
    let preimage: Vec<u8> = action_bytes(action_name, unique_bytes);
    hash(hashing, preimage.as_slice())
}

/// Appends bytes to a vector.
pub(crate) fn extend_bytes(bytes: &mut Vec<u8>, more: &[u8])
    ensures
        final(bytes)@ == old(bytes)@ + more@,
{
    let mut i: usize = 0;
    while i < more.len()
        invariant
            i <= more@.len(),
            bytes@ == old(bytes)@ + more@.take(i as int),
        decreases more@.len() - i,
    {
        bytes.push(more[i]);
        assert(more@.take(i as int + 1) == more@.take(i as int).push(more@[i as int]));
        i = i + 1;
    }
    assert(more@.take(i as int) == more@);
}

/// The identifier of a call of the given account, with the given value and input.
pub fn call_id(config: &Config, to: &AccountId, value: Balance, input_data: &Vec<u8>) -> (id:
    Digest)
    requires
        input_data@.len() + 36 + config.balance.bytes() <= u32::MAX,
    ensures
        id == call_action_id(*config, *to, value, input_data@),
{
    proof {
        lemma_le_bytes_len(value as nat, config.balance.bytes());
    }
    let mut unique: Vec<u8> = encode_array(to);
    let encoded_value: Vec<u8> = encode_balance(config.balance, value);
    extend_bytes(&mut unique, encoded_value.as_slice());
    extend_bytes(&mut unique, input_data.as_slice());
    let name: Vec<u8> = vec![0x63u8, 0x61u8, 0x6cu8, 0x6cu8];
    assert(name@ =~= call_action_name());
    calculate_action_id(config.hashing, name, &unique)
}

/// The number of bytes that a number takes is the number that was asked for.
pub proof fn lemma_le_bytes_len(value: nat, len: nat)
    ensures
        le_bytes(value, len).len() == len,
    decreases len,
{
    if len > 0 {
        lemma_le_bytes_len(value / 256, (len - 1) as nat);
    }
}

/// The number of values that so many bytes can take.
pub open spec fn byte_range(len: nat) -> nat
    decreases len,
{
    if len == 0 {
        1
    } else {
        256 * byte_range((len - 1) as nat)
    }
}

/// What is beyond the bytes that are asked for does not count.
proof fn lemma_le_bytes_low(low: nat, high: nat, len: nat)
    ensures
        le_bytes(low + byte_range(len) * high, len) == le_bytes(low, len),
    decreases len,
{
    if len > 0 {
        let rest = (len - 1) as nat;
        let more = byte_range(rest) * high;
        assert(256 * byte_range(rest) * high == 256 * (byte_range(rest) * high))
            by (nonlinear_arith);
        assert(low + byte_range(len) * high == low + 256 * more);
        assert((low + 256 * more) % 256 == low % 256);
        assert((low + 256 * more) / 256 == low / 256 + more);
        lemma_le_bytes_low(low / 256, high, rest);
    }
}

} // verus!
