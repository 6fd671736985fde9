//! The parts that a call stack is made of, each by itself.
use sp_runtime::Perbill;
use volatile_vm::codec::{action_bytes, calculate_action_id, call_id};
use volatile_vm::config::{BalanceWidth, CallDepth, Config, Hashing};
use volatile_vm::executable::{share_of, Executable, ExportedFunction, Ext};
use volatile_vm::extension::{
    take_method_names_from_input, AbiReplies, AbiType, ExposedExt, GatewayABIConfig, GatewayPointer,
    StackExtension,
};
use volatile_vm::frame::{CachedContract, Frame};
use volatile_vm::gas::GasMeter;
use volatile_vm::rent::{RentConfig, RentParams};
use volatile_vm::types::{
    foreign_reply, same_bytes, AliveContractInfo, ChainId, CodeHash, ContractInfo, DispatchError,
    DispatchResult, Error, ErrorOrigin, ExecError, ExecResult, ExecReturnValue, ReturnFlags, RunMode,
    Schedule,
};

const INFO: AliveContractInfo =
    AliveContractInfo { trie_id: [1; 32], storage_size: 5, code_hash: [2; 32], rent_allowance: 70 };

const OTHER_INFO: AliveContractInfo =
    AliveContractInfo { trie_id: [1; 32], storage_size: 6, code_hash: [2; 32], rent_allowance: 71 };

fn config(balance: BalanceWidth) -> Config {
    Config { call_depth: CallDepth::default(), balance, hashing: Hashing::BlakeTwo256 }
}

fn extension() -> StackExtension {
    StackExtension {
        escrow_account: [8; 32],
        requester: [9; 32],
        storage_trie_id: vec![],
        input_data: None,
        inner_exec_transfers: vec![],
        constructed_outbound_messages: vec![],
        round_breakpoints: vec![],
        target_id: None,
        gateway_pointer: GatewayPointer { id: *b"eth1", gateway_type: vec![5, 6] },
        gateway_abi: GatewayABIConfig { address_length: 20, value_type_size: 32 },
        preloaded_action_descriptions: vec![],
        run_mode: RunMode::Pre,
    }
}

fn replies() -> AbiReplies {
    AbiReplies { escrow: Ok(vec![1]), requester: Ok(vec![2]), dest: Ok(vec![3]), value: Ok(vec![4]) }
}

#[test]
fn call_id_is_the_digest_of_the_encoded_call() {
    assert_eq!(
        call_id(&config(BalanceWidth::Bits128), &[3; 32], 3, &vec![6, 7]),
        [
            224, 195, 234, 253, 254, 134, 170, 90, 48, 212, 57, 158, 90, 172, 129, 57, 45, 11, 60,
            205, 60, 123, 224, 42, 249, 5, 48, 176, 85, 231, 14, 126
        ]
    );
    // The length of this one takes two bytes.
    assert_eq!(
        call_id(&config(BalanceWidth::Bits128), &[2; 32], 1000, &vec![1; 100]),
        [
            18, 161, 83, 180, 38, 141, 180, 117, 125, 35, 104, 176, 79, 38, 130, 56, 137, 9, 89, 6,
            180, 93, 144, 119, 120, 119, 54, 251, 53, 104, 59, 93
        ]
    );
}

#[test]
fn calls_that_differ_have_different_ids() {
    let id = call_id(&config(BalanceWidth::Bits128), &[3; 32], 3, &vec![6, 7]);
    assert_ne!(id, call_id(&config(BalanceWidth::Bits128), &[4; 32], 3, &vec![6, 7]));
    assert_ne!(id, call_id(&config(BalanceWidth::Bits128), &[3; 32], 4, &vec![6, 7]));
    assert_ne!(id, call_id(&config(BalanceWidth::Bits128), &[3; 32], 3, &vec![6]));
    assert_eq!(id, call_id(&config(BalanceWidth::Bits128), &[3; 32], 3, &vec![6, 7]));
}

#[test]
fn action_is_encoded_with_its_length() {
    assert_eq!(action_bytes(b"ab".to_vec(), &b"cdefg".to_vec()), b"\x1cabcdefg".to_vec());
    assert_eq!(action_bytes(vec![], &vec![]), vec![0]);
    assert_eq!(action_bytes(vec![0; 52], &vec![0; 100])[..2], [0x61, 0x02]);
    assert_eq!(action_bytes(vec![0; 10], &vec![0; 20000])[..4], [0xaa, 0x38, 0x01, 0x00]);
    assert_eq!(
        calculate_action_id(Hashing::BlakeTwo256, b"ab".to_vec(), &b"cdefg".to_vec()),
        [
            117, 248, 208, 244, 234, 87, 0, 100, 120, 123, 105, 152, 152, 72, 219, 222, 160, 45, 67,
            188, 193, 169, 180, 49, 69, 219, 10, 26, 115, 215, 8, 110
        ]
    );
}

#[test]
fn names_stand_in_the_first_bytes_of_the_input() {
    let mut input = vec![0; 70];
    input[1..4].copy_from_slice(b"abc");
    input[10] = b'd';
    // These two do not belong to any name.
    input[31] = b'x';
    input[63] = b'x';
    input[32..35].copy_from_slice("\u{20ac}".as_bytes());
    assert_eq!(
        take_method_names_from_input(&input),
        Ok((b"\x10abcd".to_vec(), vec![12, 0xe2, 0x82, 0xac]))
    );
    assert_eq!(
        take_method_names_from_input(&vec![0; 64]),
        Ok((vec![0], vec![0]))
    );
    assert_eq!(
        take_method_names_from_input(&vec![b'a'; 63]),
        Err("Input < 64 doesn't allow to extract function and method names")
    );
    // Half a character in the name of the method.
    input[34] = 0;
    assert_eq!(take_method_names_from_input(&input), Err("Can't decode argument to &str"));
    input[34] = 0xac;
    input[0] = 0xff;
    assert_eq!(take_method_names_from_input(&input), Err("Can't decode argument to &str"));
}

#[test]
fn values_are_encoded_for_translation() {
    let values = extension().abi_values(BalanceWidth::Bits128, &[3; 32], 258);
    assert_eq!(values.escrow.ty, AbiType::Address(20));
    assert_eq!(values.escrow.bytes, vec![8; 32]);
    assert_eq!(values.requester.ty, AbiType::Address(20));
    assert_eq!(values.requester.bytes, vec![9; 32]);
    assert_eq!(values.dest.ty, AbiType::Address(20));
    assert_eq!(values.dest.bytes, vec![3; 32]);
    assert_eq!(values.value.ty, AbiType::Uint(32));
    assert_eq!(values.value.bytes, vec![2, 1, 0, 0, 0, 0, 0, 0, 0, 0, 0, 0, 0, 0, 0, 0]);
}

#[test]
fn call_message_holds_the_translations() {
    let extension = extension();
    let output: Result<Vec<u8>, ExecError> = Ok(vec![99]);
    let call = extension
        .produce_call_message(
            0x0102,
            replies(),
            vec![10, 11],
            vec![12],
            vec![13],
            Some(&output),
        )
        .unwrap();
    assert_eq!(call.module_name, vec![12]);
    assert_eq!(call.method_name, vec![13]);
    assert_eq!(call.input_data, vec![10, 11]);
    assert_eq!(call.escrow_account, vec![1]);
    assert_eq!(call.requester_account, vec![2]);
    assert_eq!(call.dest_account, vec![3]);
    assert_eq!(call.value, vec![4]);
    assert_eq!(call.gas_limit, vec![2, 1, 0, 0, 0, 0, 0, 0]);
    assert_eq!(call.gateway_type, vec![5, 6]);
    assert_eq!(call.result, Some(vec![99]));

    // A failure is not told.
    let failure: Result<Vec<u8>, ExecError> = Err(ExecError::refused(Error::OutOfGas));
    let call = extension
        .produce_call_message(0, replies(), vec![], vec![], vec![], Some(&failure))
        .unwrap();
    assert_eq!(call.result, None);
    let call = extension.produce_call_message(0, replies(), vec![], vec![], vec![], None).unwrap();
    assert_eq!(call.result, None);
}

#[test]
fn first_failed_translation_counts() {
    let extension = extension();
    let mut failing = replies();
    failing.value = Err("value");
    assert_eq!(ExposedExt::transfer(&extension, failing), Err("value"));
    let mut failing = replies();
    failing.value = Err("value");
    failing.dest = Err("dest");
    assert_eq!(ExposedExt::transfer(&extension, failing), Err("dest"));
    let mut failing = replies();
    failing.dest = Err("dest");
    failing.requester = Err("requester");
    assert_eq!(ExposedExt::call(&extension, 0, failing, vec![], None), Err("requester"));
    let mut failing = replies();
    failing.requester = Err("requester");
    failing.escrow = Err("escrow");
    assert_eq!(ExposedExt::call(&extension, 0, failing, vec![], None), Err("escrow"));
    let mut failing = replies();
    failing.escrow = Err("escrow");
    assert_eq!(
        ExposedExt::call_module(&extension, 0, failing, vec![0; 64], None),
        Err("escrow")
    );
}

#[test]
fn extension_names_its_parties() {
    let extension = extension();
    assert_eq!(extension.get_escrow_account(), [8; 32]);
    assert_eq!(extension.get_requester(), [9; 32]);
    assert_eq!(extension.get_target_id(), *b"eth1");
}

#[test]
fn call_module_encodes_the_names() {
    let mut input = vec![0; 64];
    input[0] = b'm';
    input[32] = b'f';
    let call = ExposedExt::call_module(&extension(), 7, replies(), input.clone(), None).unwrap();
    assert_eq!(call.module_name, vec![4, b'm']);
    assert_eq!(call.method_name, vec![4, b'f']);
    assert_eq!(call.input_data, input);
    let call = ExposedExt::call(&extension(), 7, replies(), input, None).unwrap();
    assert_eq!(call.module_name, vec![]);
    assert_eq!(call.method_name, vec![]);
}

#[test]
fn breakpoints_are_set_between_known_targets() {
    let mut extension = extension();
    let (a, b): (ChainId, ChainId) = (*b"aaaa", *b"bbbb");
    extension.maybe_round_breakpoint(Some(a), Some(b));
    extension.add_message(vec![1]);
    extension.add_message(vec![2]);
    extension.maybe_round_breakpoint(None, Some(b));
    extension.maybe_round_breakpoint(Some(a), None);
    extension.maybe_round_breakpoint(Some(a), Some(a));
    extension.maybe_round_breakpoint(Some(b), Some(a));
    assert_eq!(extension.round_breakpoints, vec![0, 2]);
    assert_eq!(extension.constructed_outbound_messages, vec![vec![1], vec![2]]);
}

#[test]
fn nested_meter_takes_and_returns() {
    let mut meter = GasMeter::new(100);
    let nested = meter.nested(30).unwrap();
    assert_eq!(nested, GasMeter { gas_limit: 30, gas_left: 30 });
    assert_eq!(meter, GasMeter { gas_limit: 100, gas_left: 70 });
    assert_eq!(meter.nested(71), Err(DispatchError::Module(Error::OutOfGas)));
    assert_eq!(meter.gas_left, 70);
    // Zero asks for everything.
    let everything = meter.nested(0).unwrap();
    assert_eq!(everything.gas_left, 70);
    assert_eq!(meter.gas_left, 0);
    assert_eq!(meter.nested(0), Ok(GasMeter::default()));
    meter.absorb_nested(everything);
    meter.absorb_nested(nested);
    assert_eq!(meter, GasMeter::new(100));
    meter.absorb_nested(GasMeter::new(u64::MAX));
    assert_eq!(meter.gas_left, u64::MAX);
}

#[test]
fn stale_cache_is_loaded_from_storage() {
    let stored = Some(ContractInfo::Alive(OTHER_INFO));
    let mut cache = CachedContract::Cached(INFO);
    cache.load(stored);
    assert_eq!(cache, CachedContract::Cached(INFO));

    assert_eq!(cache.invalidate(None), INFO);
    assert_eq!(cache, CachedContract::Invalidated);
    cache.load(None);
    assert_eq!(cache, CachedContract::Invalidated);
    cache.load(Some(ContractInfo::Tombstone([0; 32])));
    assert_eq!(cache, CachedContract::Invalidated);
    cache.as_alive(stored).storage_size = 9;
    assert_eq!(
        cache,
        CachedContract::Cached(AliveContractInfo { storage_size: 9, ..OTHER_INFO })
    );

    let mut cache = CachedContract::Invalidated;
    assert_eq!(cache.terminate(stored), OTHER_INFO);
    assert_eq!(cache, CachedContract::Terminated);
    cache.load(stored);
    assert_eq!(cache, CachedContract::Terminated);
}

#[test]
fn frame_gives_its_contract_away() {
    let mut frame = Frame {
        account_id: [4; 32],
        contract_info: CachedContract::Cached(INFO),
        value_transferred: 1,
        entry_point: ExportedFunction::Call,
        nested_meter: GasMeter::new(2),
        allows_reentry: true,
        target_id: None,
    };
    frame.contract_info(None).rent_allowance = 71;
    frame.contract_info(None).storage_size = 6;
    assert_eq!(frame.invalidate(None), OTHER_INFO);
    assert_eq!(frame.contract_info, CachedContract::Invalidated);
    assert_eq!(frame.terminate(Some(ContractInfo::Alive(INFO))), INFO);
    assert_eq!(frame.contract_info, CachedContract::Terminated);
}

#[test]
fn tombstone_is_not_alive() {
    assert_eq!(ContractInfo::Alive(INFO).get_alive(), Some(INFO));
    assert_eq!(ContractInfo::Tombstone([0; 32]).get_alive(), None);
}

#[test]
fn replies_and_errors() {
    assert_eq!(
        foreign_reply(vec![1]),
        Ok(ExecReturnValue {
            flags: ReturnFlags { revert: false, foreign_target: true },
            data: vec![1],
        })
    );
    assert!(foreign_reply(vec![]).unwrap().is_success());
    assert_eq!(
        ExecError::caller(DispatchError::Other("text")),
        ExecError { error: DispatchError::Other("text"), origin: ErrorOrigin::Caller }
    );
    assert!(same_bytes(&[1, 2, 3], &[1, 2, 3]));
    assert!(!same_bytes(&[1, 2, 3], &[1, 2, 4]));
    assert!(same_bytes::<0>(&[], &[]));
}

/// Code that is only looked at.
struct Shelved {
    len: u32,
    users: u32,
}

impl Executable for Shelved {
    fn from_storage(
        _code_hash: CodeHash,
        _schedule: &Schedule,
        _gas_meter: &mut GasMeter,
    ) -> Result<Self, DispatchError> {
        unreachable!()
    }

    fn from_storage_noinstr(_code_hash: CodeHash) -> Result<Self, DispatchError> {
        unreachable!()
    }

    fn drop_from_storage(self) {}

    fn add_user(_code_hash: CodeHash, _gas_meter: &mut GasMeter) -> DispatchResult {
        unreachable!()
    }

    fn remove_user(_code_hash: CodeHash, _gas_meter: &mut GasMeter) -> DispatchResult {
        unreachable!()
    }

    fn execute<E: Ext>(
        self,
        _ext: &mut E,
        _function: &ExportedFunction,
        _input_data: Vec<u8>,
    ) -> ExecResult {
        unreachable!()
    }

    fn code_hash(&self) -> &CodeHash {
        unreachable!()
    }

    fn code_len(&self) -> u32 {
        self.len / 2
    }

    fn aggregate_code_len(&self) -> u32 {
        self.len
    }

    fn refcount(&self) -> u32 {
        self.users
    }

    fn get_current_target(&self) -> Option<ChainId> {
        None
    }
}

#[test]
fn occupied_storage_is_shared_among_the_users() {
    assert_eq!(Shelved { len: 100, users: 3 }.occupied_storage(), 33);
    assert_eq!(Shelved { len: 100, users: 1 }.occupied_storage(), 100);
    assert_eq!(Shelved { len: 100, users: 0 }.occupied_storage(), 100);
    assert!(share_of(100, 7) * 7 <= 100);
    assert_eq!(share_of(2, 3), 0);
}

#[test]
fn rent_params_are_derived() {
    let config = |balance| RentConfig {
        balance,
        subsistence_threshold: 17,
        deposit_per_contract: 8,
        deposit_per_storage_byte: 10_000,
        deposit_per_storage_item: 10_001,
        rent_fraction: Perbill::from_percent(4),
    };
    let executable = Shelved { len: 100, users: 3 };
    let params = RentParams::new(1000, 900, 50, &INFO, &executable, config(BalanceWidth::Bits128));
    assert_eq!(params.total_balance, 1050);
    assert_eq!(params.free_balance, 950);
    assert_eq!(params.subsistence_threshold, 17);
    assert_eq!(params.deposit_per_contract, 8);
    assert_eq!(params.deposit_per_storage_byte, 10_000);
    assert_eq!(params.deposit_per_storage_item, 10_001);
    assert_eq!(params.rent_allowance, 70);
    assert_eq!(params.rent_fraction, Perbill::from_percent(4));
    assert_eq!(params.storage_size, 5);
    assert_eq!(params.code_size, 100);
    assert_eq!(params.code_refcount, 3);
    assert_eq!(params.reserved, None);

    let params = RentParams::new(u128::MAX, 1, u128::MAX, &INFO, &executable, config(BalanceWidth::Bits128));
    assert_eq!(params.total_balance, u128::MAX);
    assert_eq!(params.free_balance, u128::MAX);

    let (max, width) = (u128::from(u64::MAX), BalanceWidth::Bits64);
    let params = RentParams::new(max - 1, max - 9, 5, &INFO, &executable, config(width));
    assert_eq!(params.total_balance, max);
    assert_eq!(params.free_balance, max - 4);
}

#[test]
fn balances_are_encoded_in_their_width() {
    assert_eq!(
        call_id(&config(BalanceWidth::Bits64), &[3; 32], 3, &vec![6, 7]),
        [
            24, 216, 226, 163, 136, 181, 134, 10, 205, 116, 128, 110, 149, 166, 251, 115, 178,
            232, 128, 237, 117, 142, 100, 80, 128, 193, 24, 205, 85, 107, 149, 123
        ]
    );
    assert_eq!(
        call_id(&config(BalanceWidth::Bits32), &[3; 32], 3, &vec![6, 7]),
        [
            245, 109, 155, 146, 175, 103, 32, 47, 90, 240, 218, 73, 144, 230, 184, 18, 88, 157,
            219, 81, 5, 29, 60, 167, 230, 74, 4, 98, 143, 165, 169, 138
        ]
    );
    let bytes = |width| extension().abi_values(width, &[3; 32], 258).value.bytes;
    assert_eq!(bytes(BalanceWidth::Bits64), vec![2, 1, 0, 0, 0, 0, 0, 0]);
    assert_eq!(bytes(BalanceWidth::Bits32), vec![2, 1, 0, 0]);
    assert_eq!(BalanceWidth::Bits32.max_value(), u128::from(u32::MAX));
    assert_eq!(BalanceWidth::Bits64.max_value(), u128::from(u64::MAX));
    assert_eq!(BalanceWidth::Bits128.max_value(), u128::MAX);
}

#[test]
fn hash_function_is_for_the_runtime_to_choose() {
    assert_eq!(
        calculate_action_id(Hashing::Keccak256, b"ab".to_vec(), &b"cdefg".to_vec()),
        [
            92, 48, 195, 89, 62, 3, 114, 26, 207, 46, 123, 164, 192, 129, 81, 249, 239, 110, 3,
            32, 84, 170, 111, 96, 175, 150, 246, 169, 114, 204, 209, 67
        ]
    );
}
