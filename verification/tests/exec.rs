//! Executions of contracts on a runtime that lives in memory.
//!
//! The code of a contract is a plain function. It is found by the last byte of its hash.
use std::collections::HashMap;
use volatile_vm::codec::{calculate_action_id, call_id};
use volatile_vm::executable::{Executable, ExportedFunction, Ext};
use volatile_vm::ext::CallRoute;
use volatile_vm::extension::{
    AbiReplies, AbiType, AbiValue, AbiValues, ContractActionDesc, ExposedExt, GatewayABIConfig,
    GatewayPointer, StackExtension,
};
use volatile_vm::config::{BalanceWidth, CallDepth, Config, Hashing};
use volatile_vm::frame::{CachedContract, FrameArgs};
use volatile_vm::gas::GasMeter;
use volatile_vm::run::{RunAction, RunStep};
use volatile_vm::stack::Stack;
use volatile_vm::types::{
    AccountId, AliveContractInfo, Balance, BlockNumber, CallFlags, ChainId, CodeHash, ContractInfo,
    Digest, DispatchError, DispatchResult, Effect, Error, ErrorOrigin, Event, ExecError, ExecResult,
    ExecReturnValue, ExistenceRequirement, Funds, Limits, Moment, ReturnFlags, RunMode, Schedule,
    StorageKey, TransferRequest, TrieId, Weight,
};

const ALICE: AccountId = [1; 32];
const BOB: AccountId = [2; 32];
const CHARLIE: AccountId = [3; 32];
const DJANGO: AccountId = [4; 32];

const GAS_LIMIT: Weight = 10_000_000_000;
const TOMBSTONE_DEPOSIT: Balance = 16;
const RENT: Balance = 1;
const SCHEDULE: Schedule = Schedule { limits: Limits { payload_len: 16384 } };
const TARGET: ChainId = *b"eth1";
const OTHER_TARGET: ChainId = *b"dot1";
const KEY: StorageKey = [7; 32];

/// What the call stack depends on of the runtime.
fn config() -> Config {
    Config {
        call_depth: CallDepth::default(),
        balance: BalanceWidth::Bits128,
        hashing: Hashing::BlakeTwo256,
    }
}

/// What the runtime goes back to when a transaction is rolled back.
struct Snapshot {
    contracts: HashMap<AccountId, ContractInfo>,
    balances: HashMap<AccountId, Balance>,
    storage: HashMap<(TrieId, StorageKey), Vec<u8>>,
    account_counter: u64,
    events: usize,
}

/// A runtime that lives in memory.
struct Host {
    contracts: HashMap<AccountId, ContractInfo>,
    balances: HashMap<AccountId, Balance>,
    storage: HashMap<(TrieId, StorageKey), Vec<u8>>,
    account_counter: u64,
    events: Vec<Event>,
    topics: Vec<Vec<Digest>>,
    transactions: Vec<Snapshot>,
    existential_deposit: Balance,
    declared_targets: HashMap<AccountId, ChainId>,
    gateway_is_down: bool,
    abi_is_unknown: bool,
    deletion_queue_is_full: bool,
}

impl Host {
    fn new(existential_deposit: Balance) -> Host {
        Host {
            contracts: HashMap::new(),
            balances: HashMap::new(),
            storage: HashMap::new(),
            account_counter: 0,
            events: vec![],
            topics: vec![],
            transactions: vec![],
            existential_deposit,
            declared_targets: HashMap::new(),
            gateway_is_down: false,
            abi_is_unknown: false,
            deletion_queue_is_full: false,
        }
    }

    fn subsistence_threshold(&self) -> Balance {
        self.existential_deposit + TOMBSTONE_DEPOSIT
    }

    fn set_balance(&mut self, who: &AccountId, amount: Balance) {
        self.balances.insert(*who, amount);
    }

    fn get_balance(&self, who: &AccountId) -> Balance {
        self.balances.get(who).copied().unwrap_or(0)
    }

    fn place_contract(&mut self, address: &AccountId, code_hash: CodeHash) {
        let trie_id = trie_id(address, 0);
        let info = self.new_contract(address, trie_id, code_hash).unwrap();
        let balance = self.subsistence_threshold() * 10;
        self.set_balance(address, balance);
        self.contracts.insert(*address, ContractInfo::Alive(info));
    }

    fn new_contract(
        &self,
        address: &AccountId,
        trie_id: TrieId,
        code_hash: CodeHash,
    ) -> Result<AliveContractInfo, DispatchError> {
        if self.contracts.contains_key(address) {
            return Err(DispatchError::Runtime(b"DuplicateContract".to_vec()));
        }
        Ok(AliveContractInfo { trie_id, storage_size: 0, code_hash, rent_allowance: Balance::MAX })
    }

    fn stored(&self, address: &AccountId) -> Option<ContractInfo> {
        self.contracts.get(address).copied()
    }

    fn code_hash(&self, address: &AccountId) -> Option<CodeHash> {
        Some(self.stored(address)?.get_alive()?.code_hash)
    }

    fn funds(&self, who: &AccountId) -> Funds {
        Funds {
            total_balance: self.get_balance(who),
            subsistence_threshold: self.subsistence_threshold(),
        }
    }

    /// Makes a transfer. An account that is left or credited with less than the existential
    /// deposit does not exist.
    fn transfer(&mut self, request: &TransferRequest) -> bool {
        let from = self.get_balance(&request.from);
        if from < request.value {
            return false;
        }
        let left = from - request.value;
        if request.existence == ExistenceRequirement::KeepAlive && left < self.existential_deposit {
            return false;
        }
        let credited = self.get_balance(&request.to) + request.value;
        if credited < self.existential_deposit {
            return false;
        }
        self.set_balance(&request.from, left);
        let to = self.get_balance(&request.to);
        self.set_balance(&request.to, to + request.value);
        true
    }

    fn perform(&mut self, effects: Vec<Effect>) {
        for effect in effects {
            match effect {
                Effect::BeginTransaction => self.transactions.push(Snapshot {
                    contracts: self.contracts.clone(),
                    balances: self.balances.clone(),
                    storage: self.storage.clone(),
                    account_counter: self.account_counter,
                    events: self.events.len(),
                }),
                Effect::CommitTransaction => {
                    self.transactions.pop().unwrap();
                }
                Effect::RollbackTransaction => {
                    let saved = self.transactions.pop().unwrap();
                    self.contracts = saved.contracts;
                    self.balances = saved.balances;
                    self.storage = saved.storage;
                    self.account_counter = saved.account_counter;
                    self.events.truncate(saved.events);
                    self.topics.truncate(saved.events);
                }
                Effect::ChargeRent(account_id, code_size) => {
                    let rent = RENT + Balance::from(code_size);
                    let left = self.get_balance(&account_id).saturating_sub(rent);
                    self.set_balance(&account_id, left);
                }
                Effect::InsertContract(account_id, info) => {
                    self.contracts.insert(account_id, ContractInfo::Alive(info));
                }
                Effect::RemoveContract(account_id) => {
                    self.contracts.remove(&account_id);
                }
                Effect::SetAccountCounter(counter) => self.account_counter = counter,
                Effect::DepositEvent(event) => {
                    self.events.push(event);
                    self.topics.push(vec![]);
                }
                Effect::DepositIndexedEvent(topics, event) => {
                    self.events.push(event);
                    self.topics.push(topics);
                }
            }
        }
    }

    fn translate(&self, value: AbiValue) -> Result<Vec<u8>, &'static str> {
        if self.abi_is_unknown {
            return Err("The type is unknown");
        }
        let mut bytes = match value.ty {
            AbiType::Address(len) => vec![b'a', len as u8],
            AbiType::Uint(len) => vec![b'u', len as u8],
        };
        bytes.extend(value.bytes);
        Ok(bytes)
    }

    fn translate_all(&self, values: AbiValues) -> AbiReplies {
        AbiReplies {
            escrow: self.translate(values.escrow),
            requester: self.translate(values.requester),
            dest: self.translate(values.dest),
            value: self.translate(values.value),
        }
    }

    /// Turns what the gateway is asked for into a message.
    fn gateway(&self, request: String) -> Result<Vec<u8>, &'static str> {
        if self.gateway_is_down {
            Err("The gateway is down")
        } else {
            Ok(request.into_bytes())
        }
    }
}

fn contract_address(sender: &AccountId, code_hash: &CodeHash, salt: &[u8]) -> AccountId {
    let mut bytes = sender.to_vec();
    bytes.extend(code_hash);
    bytes.extend(salt);
    calculate_action_id(Hashing::BlakeTwo256, b"address".to_vec(), &bytes)
}

fn trie_id(account_id: &AccountId, seed: u64) -> TrieId {
    let mut bytes = account_id.to_vec();
    bytes.extend(seed.to_le_bytes());
    calculate_action_id(Hashing::BlakeTwo256, b"trie".to_vec(), &bytes)
}

fn extension(run_mode: RunMode) -> StackExtension {
    StackExtension {
        escrow_account: [8; 32],
        requester: [9; 32],
        storage_trie_id: vec![],
        input_data: None,
        inner_exec_transfers: vec![],
        constructed_outbound_messages: vec![],
        round_breakpoints: vec![],
        target_id: None,
        gateway_pointer: GatewayPointer { id: TARGET, gateway_type: vec![5] },
        gateway_abi: GatewayABIConfig { address_length: 20, value_type_size: 32 },
        preloaded_action_descriptions: vec![],
        run_mode,
    }
}

struct MockCtx<'a> {
    ext: &'a mut dyn Ext,
    input_data: Vec<u8>,
}

type Code = fn(MockCtx, &MockExecutable) -> ExecResult;

struct MockExecutable {
    func: Code,
    func_type: ExportedFunction,
    code_hash: CodeHash,
    target: Option<ChainId>,
}

fn hash(id: u8) -> CodeHash {
    let mut hash = [0; 32];
    hash[31] = id;
    hash
}

impl Executable for MockExecutable {
    fn from_storage(
        code_hash: CodeHash,
        _schedule: &Schedule,
        gas_meter: &mut GasMeter,
    ) -> Result<Self, DispatchError> {
        // Code with a first byte has a price.
        let price = Weight::from(code_hash[0]);
        if gas_meter.gas_left < price {
            return Err(DispatchError::Module(Error::OutOfGas));
        }
        gas_meter.gas_left -= price;
        Self::from_storage_noinstr(code_hash)
    }

    fn from_storage_noinstr(code_hash: CodeHash) -> Result<Self, DispatchError> {
        match code(code_hash[31]) {
            Some((func_type, func)) => Ok(MockExecutable {
                func,
                func_type,
                code_hash,
                target: if code_hash[31] == FOREIGN { Some(TARGET) } else { None },
            }),
            None => Err(DispatchError::Runtime(b"CodeNotFound".to_vec())),
        }
    }

    fn drop_from_storage(self) {}

    fn add_user(_code_hash: CodeHash, _gas_meter: &mut GasMeter) -> DispatchResult {
        Ok(())
    }

    fn remove_user(code_hash: CodeHash, gas_meter: &mut GasMeter) -> DispatchResult {
        let price = Weight::from(code_hash[1]);
        if gas_meter.gas_left < price {
            return Err(DispatchError::Module(Error::OutOfGas));
        }
        gas_meter.gas_left -= price;
        Ok(())
    }

    fn execute<E: Ext>(
        self,
        ext: &mut E,
        function: &ExportedFunction,
        input_data: Vec<u8>,
    ) -> ExecResult {
        if function == &self.func_type {
            (self.func)(MockCtx { ext, input_data }, &self)
        } else {
            exec_success()
        }
    }

    fn code_hash(&self) -> &CodeHash {
        &self.code_hash
    }

    fn code_len(&self) -> u32 {
        0
    }

    fn aggregate_code_len(&self) -> u32 {
        u32::from(self.code_hash[2])
    }

    fn refcount(&self) -> u32 {
        1
    }

    fn get_current_target(&self) -> Option<ChainId> {
        self.target
    }
}

fn exec_success() -> ExecResult {
    Ok(ExecReturnValue { flags: ReturnFlags::empty(), data: vec![] })
}

fn exec_trapped() -> ExecResult {
    Err(ExecError {
        error: DispatchError::Runtime(b"ContractTrapped".to_vec()),
        origin: ErrorOrigin::Callee,
    })
}

fn revert() -> ReturnFlags {
    ReturnFlags { revert: true, foreign_target: false }
}

fn foreign() -> ReturnFlags {
    ReturnFlags { revert: false, foreign_target: true }
}

fn refused(error: Error) -> ExecError {
    ExecError { error: DispatchError::Module(error), origin: ErrorOrigin::Caller }
}

/// A call stack on a runtime.
struct MockStack<'s, 'a> {
    stack: Stack<'a>,
    host: &'s mut Host,
}

impl<'s, 'a> MockStack<'s, 'a> {
    fn run_call(
        host: &'s mut Host,
        origin: AccountId,
        dest: AccountId,
        gas_meter: &'a mut GasMeter,
        value: Balance,
        input_data: Vec<u8>,
        debug_message: Option<&'a mut Vec<u8>>,
        extension: &'a mut StackExtension,
    ) -> ExecResult {
        let (stack, executable, step): (Stack<'a>, MockExecutable, RunStep) = Stack::run_call(
            origin,
            dest,
            host.stored(&dest),
            gas_meter,
            &SCHEDULE,
            config(),
            value,
            1234,
            99,
            debug_message,
            extension,
            host.funds(&origin),
        )?;
        let mut stack = MockStack { stack, host };
        stack.finish(step, executable, input_data)
    }

    fn run_instantiate(
        host: &'s mut Host,
        origin: AccountId,
        executable: MockExecutable,
        gas_meter: &'a mut GasMeter,
        value: Balance,
        input_data: Vec<u8>,
        salt: &[u8],
        debug_message: Option<&'a mut Vec<u8>>,
        extension: &'a mut StackExtension,
    ) -> Result<(AccountId, ExecReturnValue), ExecError> {
        let account_id = contract_address(&origin, executable.code_hash(), salt);
        let trie_id = trie_id(&account_id, Stack::initial_trie_seed(host.account_counter));
        let created = host.new_contract(&account_id, trie_id, *executable.code_hash());
        let (stack, executable, account_id, step) = Stack::run_instantiate(
            origin,
            executable,
            account_id,
            created,
            gas_meter,
            &SCHEDULE,
            config(),
            value,
            1234,
            99,
            debug_message,
            extension,
            host.funds(&origin),
        )?;
        let mut stack = MockStack { stack, host };
        stack.finish(step, executable, input_data).map(|ret| (account_id, ret))
    }

    fn run(&mut self, executable: MockExecutable, input_data: Vec<u8>) -> ExecResult {
        let funds = self.host.funds(self.stack.caller());
        let step = self.stack.run(&executable, funds);
        self.finish(step, executable, input_data)
    }

    fn finish(
        &mut self,
        step: RunStep,
        executable: MockExecutable,
        input_data: Vec<u8>,
    ) -> ExecResult {
        self.host.perform(step.effects);
        match step.action {
            RunAction::Return(output) => output,
            RunAction::Transfer(request) => {
                let made = self.host.transfer(&request);
                let step = self.stack.run_transferred(made);
                self.finish(step, executable, input_data)
            }
            RunAction::Execute(function) => {
                let output = executable.execute(self, &function, input_data);
                let stored = self.host.stored(self.stack.address());
                let step = self.stack.run_executed(output, stored);
                self.host.perform(step.effects);
                match step.action {
                    RunAction::Return(output) => output,
                    _ => unreachable!(),
                }
            }
        }
    }

    fn stored(&self) -> Option<ContractInfo> {
        self.host.stored(self.stack.address())
    }
}

impl<'s, 'a> Ext for MockStack<'s, 'a> {
    fn call(
        &mut self,
        gas_limit: Weight,
        to: AccountId,
        value: Balance,
        input_data: Vec<u8>,
        flags: CallFlags,
        allows_reentry: bool,
    ) -> ExecResult {
        let declared_target = self.host.declared_targets.get(&to).copied();
        match self.stack.call(&to, value, input_data, declared_target) {
            CallRoute::Answered(output) => output,
            CallRoute::Remote(target_id, input_data) => self.call_produce_messages_instead(
                gas_limit,
                to,
                value,
                input_data,
                flags,
                target_id,
            ),
            CallRoute::Local(input_data) => {
                self.regular_call(gas_limit, to, value, input_data, allows_reentry)
            }
        }
    }

    fn regular_call(
        &mut self,
        gas_limit: Weight,
        to: AccountId,
        value: Balance,
        input_data: Vec<u8>,
        allows_reentry: bool,
    ) -> ExecResult {
        let (effects, pending) = self.stack.regular_call(&to, allows_reentry)?;
        self.host.perform(effects);
        let stored = self.host.stored(&to);
        let (effects, executable) =
            self.stack.enter_call::<MockExecutable>(pending, stored, value, gas_limit)?;
        self.host.perform(effects);
        let output = self.run(executable, input_data);
        self.stack.leave_call();
        output
    }

    fn call_produce_messages_instead(
        &mut self,
        gas_limit: Weight,
        to: AccountId,
        value: Balance,
        input_data: Vec<u8>,
        flags: CallFlags,
        target_id: ChainId,
    ) -> ExecResult {
        let abi = self.host.translate_all(self.stack.extension.abi_values(BalanceWidth::Bits128, &to, value));
        let call = self.stack.call_produce_messages_instead(
            gas_limit,
            abi,
            input_data.clone(),
            flags,
        )?;
        let message = self.host.gateway(format!("{:?}", call));
        self.stack.message_produced(message, input_data, target_id)
    }

    fn instantiate(
        &mut self,
        gas_limit: Weight,
        code: CodeHash,
        value: Balance,
        input_data: Vec<u8>,
        salt: &[u8],
    ) -> Result<(AccountId, ExecReturnValue), ExecError> {
        let (effects, pending) =
            self.stack.instantiate::<MockExecutable>(code, self.host.account_counter)?;
        self.host.perform(effects);
        let account_id = contract_address(&pending.sender, &code, salt);
        let trie_id = trie_id(&account_id, pending.trie_seed);
        let created = self.host.new_contract(&account_id, trie_id, code);
        let (account_id, executable) =
            self.stack.enter_instantiate(pending, account_id, created, value, gas_limit)?;
        self.run(executable, input_data).map(|ret| (account_id, ret))
    }

    fn terminate(&mut self, beneficiary: &AccountId) -> DispatchResult {
        let stored = self.stored();
        let termination = self.stack.terminate(beneficiary, stored)?;
        let queued = if self.host.deletion_queue_is_full {
            Err(DispatchError::Runtime(b"DeletionQueueFull".to_vec()))
        } else {
            Ok(())
        };
        let free = self.host.get_balance(&termination.account_id);
        let made = match Stack::terminate_queued(&termination, queued, free)? {
            None => true,
            Some(request) => self.host.transfer(&request),
        };
        let effects = Stack::terminate_transferred(&termination, made)?;
        self.host.perform(effects);
        let effects = self.stack.terminate_removed::<MockExecutable>(termination)?;
        self.host.perform(effects);
        Ok(())
    }

    fn restore_to(
        &mut self,
        dest: AccountId,
        code_hash: CodeHash,
        rent_allowance: Balance,
        delta: Vec<StorageKey>,
    ) -> DispatchResult {
        self.stack.restore_to(dest, code_hash, rent_allowance, delta)
    }

    fn transfer(&mut self, to: &AccountId, value: Balance) -> DispatchResult {
        let abi = self.host.translate_all(self.stack.extension.abi_values(BalanceWidth::Bits128, to, value));
        let transfer = self.stack.produce_transfer(abi)?;
        let message = self.host.gateway(format!("{:?}", transfer));
        self.stack.transfer_produced(message)
    }

    fn get_storage(&mut self, key: &StorageKey) -> Option<Vec<u8>> {
        let read = ExposedExt::get_storage(&*self.stack.extension, key);
        let message = self.host.gateway(format!("{:?}", read));
        let stored = self.stored();
        let trie_id = self.stack.get_storage(message, stored)?;
        self.host.storage.get(&(trie_id, *key)).cloned()
    }

    fn set_storage(&mut self, key: StorageKey, value: Option<Vec<u8>>) -> DispatchResult {
        let write = ExposedExt::set_storage(&*self.stack.extension, &key, value.clone());
        let message = self.host.gateway(format!("{:?}", write));
        let stored = self.stored();
        let write = self.stack.set_storage(message, stored)?;
        assert_eq!(write.block_number, 99);
        let mut info = write.info;
        match value {
            Some(value) => {
                info.storage_size += value.len() as u32;
                self.host.storage.insert((info.trie_id, key), value);
            }
            None => {
                self.host.storage.remove(&(info.trie_id, key));
            }
        }
        self.stack.storage_written(info, Ok(()))
    }

    fn caller(&self) -> &AccountId {
        self.stack.caller()
    }

    fn address(&self) -> &AccountId {
        self.stack.address()
    }

    fn balance(&self) -> Balance {
        self.host.get_balance(self.stack.address())
    }

    fn value_transferred(&self) -> Balance {
        self.stack.value_transferred()
    }

    fn now(&self) -> &Moment {
        self.stack.now()
    }

    fn minimum_balance(&self) -> Balance {
        self.host.existential_deposit
    }

    fn tombstone_deposit(&self) -> Balance {
        TOMBSTONE_DEPOSIT
    }

    fn random(&self, _subject: &[u8]) -> (Digest, BlockNumber) {
        ([0; 32], 0)
    }

    fn deposit_event(&mut self, topics: Vec<Digest>, data: Vec<u8>) {
        let effect = self.stack.deposit_event(topics, data);
        self.host.perform(vec![effect]);
    }

    fn set_rent_allowance(&mut self, rent_allowance: Balance) {
        let stored = self.stored();
        self.stack.set_rent_allowance(rent_allowance, stored)
    }

    fn rent_allowance(&mut self) -> Balance {
        let stored = self.stored();
        self.stack.rent_allowance(stored)
    }

    fn block_number(&self) -> BlockNumber {
        self.stack.block_number()
    }

    fn max_value_size(&self) -> u32 {
        self.stack.schedule().limits.payload_len
    }

    fn get_weight_price(&self, weight: Weight) -> Balance {
        Balance::from(weight)
    }

    fn schedule(&self) -> &Schedule {
        self.stack.schedule()
    }

    fn gas_meter(&mut self) -> &mut GasMeter {
        self.stack.gas_meter()
    }

    fn append_debug_buffer(&mut self, msg: &str) -> bool {
        self.stack.append_debug_buffer(msg)
    }
}

const SUCCESS: u8 = 1;
const FOREIGN: u8 = 2;
const APPENDS_ONE: u8 = 3;
const REVERTS: u8 = 4;
const RETURNS_DATA: u8 = 5;
const REVERTS_WITH_DATA: u8 = 6;
const CHECKS_INPUT: u8 = 7;
const CHECKS_CONSTRUCTOR_INPUT: u8 = 8;
const RECURSES: u8 = 9;
const CALLER_BOB: u8 = 10;
const CALLER_CHARLIE: u8 = 11;
const ADDRESS_BOB: u8 = 12;
const ADDRESS_CHARLIE: u8 = 13;
const CONSTRUCTS: u8 = 14;
const CONSTRUCTS_WITH_DATA: u8 = 15;
const FAILS_TO_CONSTRUCT: u8 = 16;
const INSTANTIATES: u8 = 17;
const TRAPS_IN_CONSTRUCTOR: u8 = 18;
const INSTANTIATES_TRAP: u8 = 19;
const TERMINATES_IN_CONSTRUCTOR: u8 = 20;
const RENT_ALLOWANCE: u8 = 21;
const MEMORY_BOB: u8 = 22;
const MEMORY_CHARLIE: u8 = 23;
const CALLS_ITSELF_IN_CONSTRUCTOR: u8 = 24;
const PRINTS: u8 = 25;
const PRINTS_AND_TRAPS: u8 = 26;
const CALLS_WITHOUT_REENTRY: u8 = 27;
const DENIES_REENTRY: u8 = 28;
const CALLS_BOB: u8 = 29;
const STALE_BOB: u8 = 30;
const STALE_CHARLIE: u8 = 31;
const STALE_DJANGO: u8 = 32;
const DIRECT_RECURSION: u8 = 33;
const TERMINATES: u8 = 34;
const CALLS_BOB_TO_TERMINATE: u8 = 35;
const CALLS_AFTER_TERMINATION: u8 = 36;
const FAILS_TO_CALL: u8 = 37;
const DRAINS_ITSELF: u8 = 38;
const ROUTES: u8 = 39;
const USES_STORAGE: u8 = 40;
const TRANSFERS: u8 = 41;
const EMITS: u8 = 42;
const EMITS_AND_TRAPS: u8 = 43;
const CALLS_EMITTERS: u8 = 44;
const COUNTS: u8 = 45;
const BURNS_GAS: u8 = 46;
const BURNS_GAS_TWICE: u8 = 47;
const LOOKS_AROUND: u8 = 48;
const DISPATCHES: u8 = 49;
const LOWERS_ITS_DEFENSE: u8 = 50;
const RESTORES: u8 = 51;
const GIVES_UP: u8 = 52;
const RESTORES_WHILE_REENTRANT: u8 = 53;
const WRITES_AND_TRAPS: u8 = 54;
const SURVIVES_FAILURE: u8 = 55;

/// The code with the given number.
fn code(id: u8) -> Option<(ExportedFunction, Code)> {
    let (function, code): (ExportedFunction, Code) = match id {
        SUCCESS => (ExportedFunction::Call, |_, _| exec_success()),
        FOREIGN => (ExportedFunction::Call, |_, _| panic!("This code is for another chain")),
        APPENDS_ONE => (ExportedFunction::Call, |ctx, _| {
            ctx.ext.append_debug_buffer("\u{1}");
            exec_success()
        }),
        REVERTS => (ExportedFunction::Call, |_, _| {
            Ok(ExecReturnValue { flags: revert(), data: vec![] })
        }),
        RETURNS_DATA => (ExportedFunction::Call, |_, _| {
            Ok(ExecReturnValue { flags: ReturnFlags::empty(), data: vec![1, 2, 3, 4] })
        }),
        REVERTS_WITH_DATA => (ExportedFunction::Call, |_, _| {
            Ok(ExecReturnValue { flags: revert(), data: vec![1, 2, 3, 4] })
        }),
        CHECKS_INPUT => (ExportedFunction::Call, |ctx, _| {
            assert_eq!(ctx.input_data, &[1, 2, 3, 4]);
            exec_success()
        }),
        CHECKS_CONSTRUCTOR_INPUT => (ExportedFunction::Constructor, |ctx, _| {
            assert_eq!(ctx.input_data, &[1, 2, 3, 4]);
            exec_success()
        }),
        RECURSES => (ExportedFunction::Call, |ctx, _| {
            // Try to call into yourself.
            let r = ctx.ext.regular_call(0, BOB, 0, vec![], true);

            if ctx.ext.get_storage(&KEY).is_none() {
                // We are first time here, it means we just reached bottom.
                // Verify that we've got proper error and set `reached_bottom`.
                assert_eq!(r, Err(refused(Error::MaxCallDepthReached)));
                ctx.ext.set_storage(KEY, Some(vec![1])).unwrap();
            } else {
                // We just unwinding stack here.
                assert!(matches!(r, Ok(_)));
            }
            exec_success()
        }),
        CALLER_BOB => (ExportedFunction::Call, |ctx, _| {
            // Record the caller for bob.
            record(ctx.ext);
            // Call into CHARLIE contract.
            assert!(matches!(ctx.ext.regular_call(0, CHARLIE, 0, vec![], true), Ok(_)));
            exec_success()
        }),
        CALLER_CHARLIE => (ExportedFunction::Call, |ctx, _| {
            // Record the caller for charlie.
            record(ctx.ext);
            exec_success()
        }),
        ADDRESS_BOB => (ExportedFunction::Call, |ctx, _| {
            // Verify that address matches BOB.
            assert_eq!(*ctx.ext.address(), BOB);

            // Call into charlie contract.
            assert!(matches!(ctx.ext.regular_call(0, CHARLIE, 0, vec![], true), Ok(_)));
            exec_success()
        }),
        ADDRESS_CHARLIE => (ExportedFunction::Call, |ctx, _| {
            assert_eq!(*ctx.ext.address(), CHARLIE);
            exec_success()
        }),
        CONSTRUCTS => (ExportedFunction::Constructor, |_, _| exec_success()),
        CONSTRUCTS_WITH_DATA => (ExportedFunction::Constructor, |_, _| {
            Ok(ExecReturnValue { flags: ReturnFlags::empty(), data: vec![80, 65, 83, 83] })
        }),
        FAILS_TO_CONSTRUCT => (ExportedFunction::Constructor, |_, _| {
            Ok(ExecReturnValue { flags: revert(), data: vec![70, 65, 73, 76] })
        }),
        INSTANTIATES => (ExportedFunction::Call, |ctx, _| {
            // Instantiate a contract and return its address.
            let endowment = subsistence_threshold(ctx.ext) * 3;
            let (address, output) = ctx
                .ext
                .instantiate(0, hash(SUCCESS), endowment, vec![], &[48, 49, 50])
                .unwrap();
            Ok(ExecReturnValue { flags: output.flags, data: address.to_vec() })
        }),
        TRAPS_IN_CONSTRUCTOR => (ExportedFunction::Constructor, |_, _| {
            Err(ExecError {
                error: DispatchError::Other("It's a trap!"),
                origin: ErrorOrigin::Caller,
            })
        }),
        INSTANTIATES_TRAP => (ExportedFunction::Call, |ctx, _| {
            let endowment = subsistence_threshold(ctx.ext);
            assert!(matches!(
                ctx.ext.instantiate(0, hash(TRAPS_IN_CONSTRUCTOR), endowment, vec![], &[]),
                Err(ExecError {
                    error: DispatchError::Other("It's a trap!"),
                    origin: ErrorOrigin::Callee,
                })
            ));
            exec_success()
        }),
        TERMINATES_IN_CONSTRUCTOR => (ExportedFunction::Constructor, |ctx, _| {
            ctx.ext.terminate(&ALICE).unwrap();
            exec_success()
        }),
        RENT_ALLOWANCE => (ExportedFunction::Constructor, |ctx, _| {
            let subsistence = subsistence_threshold(ctx.ext);
            let allowance = subsistence * 3;
            assert_eq!(ctx.ext.rent_allowance(), Balance::max_value());
            ctx.ext.set_rent_allowance(allowance);
            assert_eq!(ctx.ext.rent_allowance(), allowance);
            exec_success()
        }),
        MEMORY_BOB => (ExportedFunction::Call, |ctx, _| {
            if ctx.input_data[0] == 0 {
                let original_allowance = ctx.ext.rent_allowance();
                let changed_allowance = Balance::max_value() / 2;
                assert_ne!(original_allowance, changed_allowance);
                ctx.ext.set_rent_allowance(changed_allowance);
                assert_eq!(
                    ctx.ext.regular_call(0, CHARLIE, 0, vec![], true),
                    exec_trapped()
                );
                assert_eq!(ctx.ext.rent_allowance(), changed_allowance);
                assert_ne!(ctx.ext.rent_allowance(), original_allowance);
            }
            exec_success()
        }),
        MEMORY_CHARLIE => (ExportedFunction::Call, |ctx, _| {
            assert!(ctx.ext.regular_call(0, BOB, 0, vec![99], true).is_ok());
            exec_trapped()
        }),
        CALLS_ITSELF_IN_CONSTRUCTOR => (ExportedFunction::Constructor, |ctx, _| {
            let address = *ctx.ext.address();
            assert!(matches!(
                ctx.ext.regular_call(0, address, 0, vec![], true),
                Err(ExecError { error, .. })
                    if error == DispatchError::Module(Error::ContractNotFound)
            ));
            exec_success()
        }),
        PRINTS => (ExportedFunction::Call, |ctx, _| {
            ctx.ext.append_debug_buffer("This is a test");
            ctx.ext.append_debug_buffer("More text");
            exec_success()
        }),
        PRINTS_AND_TRAPS => (ExportedFunction::Call, |ctx, _| {
            ctx.ext.append_debug_buffer("This is a test");
            ctx.ext.append_debug_buffer("More text");
            exec_trapped()
        }),
        CALLS_WITHOUT_REENTRY => (ExportedFunction::Call, |ctx, _| {
            // Call the contract passed as input with disabled reentry.
            let mut dest = [0; 32];
            dest.copy_from_slice(&ctx.input_data);
            ctx.ext.regular_call(0, dest, 0, vec![], false)
        }),
        DENIES_REENTRY => (ExportedFunction::Call, |ctx, _| {
            if ctx.input_data[0] == 0 {
                ctx.ext.regular_call(0, CHARLIE, 0, vec![], false)
            } else {
                exec_success()
            }
        }),
        // Call BOB with input set to '1'.
        CALLS_BOB => (ExportedFunction::Call, |ctx, _| {
            ctx.ext.regular_call(0, BOB, 0, vec![1], true)
        }),
        STALE_BOB => (ExportedFunction::Call, |ctx, _| match ctx.input_data[0] {
            // The first frame goes through CHARLIE to the second, and that through DJANGO to the
            // third, which changes the contract. The second returns without looking at it.
            0 => {
                assert_eq!(ctx.ext.rent_allowance(), Balance::MAX);
                assert_eq!(ctx.ext.regular_call(0, CHARLIE, 0, vec![], true), exec_success());
                assert_eq!(ctx.ext.rent_allowance(), 42);
                exec_success()
            }
            1 => ctx.ext.regular_call(0, DJANGO, 0, vec![], true),
            _ => {
                ctx.ext.set_rent_allowance(42);
                exec_success()
            }
        }),
        STALE_CHARLIE => (ExportedFunction::Call, |ctx, _| {
            ctx.ext.regular_call(0, BOB, 0, vec![1], true)
        }),
        STALE_DJANGO => (ExportedFunction::Call, |ctx, _| {
            ctx.ext.regular_call(0, BOB, 0, vec![2], true)
        }),
        DIRECT_RECURSION => (ExportedFunction::Call, |ctx, _| {
            if ctx.input_data[0] == 0 {
                ctx.ext.set_rent_allowance(7);
                assert_eq!(ctx.ext.regular_call(0, BOB, 0, vec![1], true), exec_success());
                assert_eq!(ctx.ext.rent_allowance(), 8);
                // A recursion that fails changes nothing.
                assert!(ctx.ext.regular_call(0, BOB, 0, vec![2], true).is_ok());
                assert_eq!(ctx.ext.rent_allowance(), 8);
                exec_success()
            } else if ctx.input_data[0] == 1 {
                assert_eq!(ctx.ext.rent_allowance(), 7);
                ctx.ext.set_rent_allowance(8);
                exec_success()
            } else {
                ctx.ext.set_rent_allowance(9);
                Ok(ExecReturnValue { flags: revert(), data: vec![] })
            }
        }),
        TERMINATES => (ExportedFunction::Call, |ctx, _| {
            match ctx.ext.terminate(&DJANGO) {
                Ok(()) => exec_success(),
                Err(error) => Err(ExecError { error, origin: ErrorOrigin::Caller }),
            }
        }),
        CALLS_BOB_TO_TERMINATE => (ExportedFunction::Call, |ctx, _| {
            let to = if *ctx.ext.address() == BOB { CHARLIE } else { BOB };
            if ctx.input_data.len() < 2 {
                let mut input_data = ctx.input_data;
                input_data.push(0);
                ctx.ext.regular_call(0, to, 0, input_data, true)
            } else {
                assert_eq!(
                    ctx.ext.terminate(&DJANGO),
                    Err(DispatchError::Module(Error::TerminatedWhileReentrant))
                );
                exec_success()
            }
        }),
        CALLS_AFTER_TERMINATION => (ExportedFunction::Call, |ctx, _| {
            assert_eq!(ctx.ext.regular_call(0, CHARLIE, 0, vec![], true), exec_success());
            ctx.ext.regular_call(0, CHARLIE, 0, vec![], true)
        }),
        FAILS_TO_CALL => (ExportedFunction::Call, |ctx, _| {
            let limit = ctx.ext.gas_meter().gas_left + 1;
            assert_eq!(
                ctx.ext.regular_call(limit, CHARLIE, 0, vec![], true),
                Err(refused(Error::OutOfGas))
            );
            assert_eq!(
                ctx.ext.regular_call(0, DJANGO, 0, vec![], true),
                Err(refused(Error::ContractIsTombstone))
            );
            ctx.ext.regular_call(0, [77; 32], 0, vec![], true)
        }),
        DRAINS_ITSELF => (ExportedFunction::Call, |ctx, _| {
            let all = ctx.ext.balance();
            let threshold = subsistence_threshold(ctx.ext);
            assert_eq!(
                ctx.ext.regular_call(0, CHARLIE, all - threshold + 1, vec![], true),
                Err(refused(Error::BelowSubsistenceThreshold))
            );
            assert_eq!(
                ctx.ext.regular_call(0, CHARLIE, all - threshold, vec![], true),
                exec_success()
            );
            assert_eq!(ctx.ext.balance(), threshold);
            exec_success()
        }),
        ROUTES => (ExportedFunction::Call, |ctx, _| {
            let flags = CallFlags { module_dispatch: false };
            ctx.ext.call(500, CHARLIE, 3, vec![6, 7], flags, true)
        }),
        USES_STORAGE => (ExportedFunction::Call, |ctx, _| {
            assert_eq!(ctx.ext.get_storage(&KEY), None);
            assert_eq!(ctx.ext.set_storage(KEY, Some(vec![1, 2, 3])), Ok(()));
            assert_eq!(ctx.ext.get_storage(&KEY), Some(vec![1, 2, 3]));
            assert_eq!(ctx.ext.set_storage(KEY, None), Ok(()));
            assert_eq!(ctx.ext.get_storage(&KEY), None);
            assert_eq!(ctx.ext.set_storage(KEY, Some(vec![4, 5])), Ok(()));
            exec_success()
        }),
        TRANSFERS => (ExportedFunction::Call, |ctx, _| match ctx.ext.transfer(&CHARLIE, 5) {
            Ok(()) => exec_success(),
            Err(error) => Err(ExecError { error, origin: ErrorOrigin::Caller }),
        }),
        EMITS => (ExportedFunction::Call, |ctx, _| {
            ctx.ext.deposit_event(vec![[1; 32], [2; 32]], vec![3, 4]);
            exec_success()
        }),
        EMITS_AND_TRAPS => (ExportedFunction::Call, |ctx, _| {
            ctx.ext.deposit_event(vec![], vec![5]);
            exec_trapped()
        }),
        CALLS_EMITTERS => (ExportedFunction::Call, |ctx, _| {
            assert_eq!(ctx.ext.regular_call(0, CHARLIE, 0, vec![], true), exec_success());
            assert_eq!(ctx.ext.regular_call(0, DJANGO, 0, vec![], true), exec_trapped());
            exec_success()
        }),
        COUNTS => (ExportedFunction::Call, |ctx, _| {
            let endowment = subsistence_threshold(ctx.ext);
            let constructed = hash(CONSTRUCTS);
            let trapped = hash(TRAPS_IN_CONSTRUCTOR);
            assert!(ctx.ext.instantiate(0, constructed, endowment, vec![], &[1]).is_ok());
            assert!(ctx.ext.instantiate(0, trapped, endowment, vec![], &[2]).is_err());
            assert!(ctx.ext.instantiate(0, constructed, endowment, vec![], &[3]).is_ok());
            exec_success()
        }),
        BURNS_GAS => (ExportedFunction::Call, |ctx, _| {
            ctx.ext.gas_meter().gas_left -= 1000;
            exec_success()
        }),
        BURNS_GAS_TWICE => (ExportedFunction::Call, |ctx, _| {
            ctx.ext.gas_meter().gas_left -= 10;
            let before = ctx.ext.gas_meter().gas_left;
            assert_eq!(ctx.ext.regular_call(5000, CHARLIE, 0, vec![], true), exec_success());
            assert_eq!(ctx.ext.gas_meter().gas_left, before - 1000);
            assert_eq!(ctx.ext.regular_call(0, DJANGO, 0, vec![], true), exec_trapped());
            assert_eq!(ctx.ext.gas_meter().gas_left, before - 1000);
            exec_trapped()
        }),
        LOOKS_AROUND => (ExportedFunction::Call, |ctx, _| {
            assert_eq!(ctx.ext.value_transferred(), 25);
            assert_eq!(*ctx.ext.now(), 1234);
            assert_eq!(ctx.ext.block_number(), 99);
            assert_eq!(ctx.ext.max_value_size(), 16384);
            assert_eq!(*ctx.ext.schedule(), SCHEDULE);
            assert!(!ctx.ext.append_debug_buffer("nobody listens"));
            exec_success()
        }),
        DISPATCHES => (ExportedFunction::Call, |ctx, _| {
            let flags = CallFlags { module_dispatch: true };
            let input_data = ctx.input_data;
            ctx.ext.call_produce_messages_instead(1, CHARLIE, 2, input_data, flags, OTHER_TARGET)
        }),
        LOWERS_ITS_DEFENSE => (ExportedFunction::Call, |ctx, _| {
            if ctx.input_data.is_empty() {
                // Whether the call is refused, fails or succeeds, the defense comes down again.
                assert_eq!(
                    ctx.ext.regular_call(0, BOB, 0, vec![1], false),
                    Err(refused(Error::ReentranceDenied))
                );
                assert_eq!(
                    ctx.ext.regular_call(0, [77; 32], 0, vec![1], false),
                    Err(refused(Error::ContractNotFound))
                );
                assert_eq!(ctx.ext.regular_call(0, CHARLIE, 0, vec![], false), exec_success());
                ctx.ext.regular_call(0, BOB, 0, vec![1], true)
            } else {
                exec_success()
            }
        }),
        RESTORES => (ExportedFunction::Call, |ctx, _| {
            assert_eq!(ctx.ext.restore_to(CHARLIE, hash(SUCCESS), 1, vec![KEY]), Ok(()));
            exec_success()
        }),
        GIVES_UP => (ExportedFunction::Call, |ctx, _| {
            assert_eq!(
                ctx.ext.terminate(&DJANGO),
                Err(DispatchError::Runtime(b"DeletionQueueFull".to_vec()))
            );
            exec_success()
        }),
        RESTORES_WHILE_REENTRANT => (ExportedFunction::Call, |ctx, _| {
            if ctx.input_data.is_empty() {
                assert_eq!(ctx.ext.restore_to(CHARLIE, hash(SUCCESS), 1, vec![KEY]), Ok(()));
                ctx.ext.regular_call(0, BOB, 0, vec![1], true)
            } else {
                assert_eq!(
                    ctx.ext.restore_to(CHARLIE, hash(SUCCESS), 1, vec![KEY]),
                    Err(DispatchError::Module(Error::TerminatedWhileReentrant))
                );
                exec_success()
            }
        }),
        WRITES_AND_TRAPS => (ExportedFunction::Call, |ctx, _| {
            ctx.ext.append_debug_buffer("w");
            ctx.ext.set_storage(KEY, Some(vec![1])).unwrap();
            assert_eq!(ctx.ext.get_storage(&KEY), Some(vec![1]));
            exec_trapped()
        }),
        SURVIVES_FAILURE => (ExportedFunction::Call, |ctx, _| {
            let value = ctx.ext.value_transferred();
            let before = ctx.ext.balance();
            assert_eq!(ctx.ext.regular_call(0, CHARLIE, 9, vec![], false), exec_trapped());
            // The same frame goes on, and nothing was spent.
            assert_eq!(*ctx.ext.address(), BOB);
            assert_eq!(*ctx.ext.caller(), ALICE);
            assert_eq!(ctx.ext.value_transferred(), value);
            assert_eq!(ctx.ext.balance(), before);
            exec_success()
        }),
        _ => return None,
    };
    Some((function, code))
}

fn subsistence_threshold(ext: &mut dyn Ext) -> Balance {
    ext.minimum_balance() + ext.tombstone_deposit()
}

/// Appends the caller to the debug buffer.
fn record(ext: &mut dyn Ext) {
    let caller = String::from_utf8(ext.caller().to_vec()).unwrap();
    ext.append_debug_buffer(&caller);
}

/// Calls BOB on behalf of ALICE.
fn call_bob(host: &mut Host, value: Balance, input_data: Vec<u8>) -> ExecResult {
    MockStack::run_call(
        host,
        ALICE,
        BOB,
        &mut GasMeter::new(GAS_LIMIT),
        value,
        input_data,
        None,
        &mut extension(RunMode::Pre),
    )
}

/// Instantiates a contract on behalf of ALICE.
fn instantiate(
    host: &mut Host,
    code: u8,
    value: Balance,
    input_data: Vec<u8>,
) -> Result<(AccountId, ExecReturnValue), ExecError> {
    let mut gas_meter = GasMeter::new(GAS_LIMIT);
    let executable = MockExecutable::from_storage(hash(code), &SCHEDULE, &mut gas_meter).unwrap();
    MockStack::run_instantiate(
        host,
        ALICE,
        executable,
        &mut gas_meter,
        value,
        input_data,
        &[],
        None,
        &mut extension(RunMode::Pre),
    )
}

#[test]
fn it_works() {
    let mut test_data: Vec<u8> = vec![0];
    let mut gas_meter = GasMeter::new(GAS_LIMIT);
    let mut host = Host::new(1);
    host.place_contract(&BOB, hash(APPENDS_ONE));

    assert!(matches!(
        MockStack::run_call(
            &mut host,
            ALICE,
            BOB,
            &mut gas_meter,
            0,
            vec![],
            Some(&mut test_data),
            &mut extension(RunMode::Pre),
        ),
        Ok(_)
    ));

    assert_eq!(test_data, vec![0, 1]);
}

#[test]
fn transfer_works() {
    // This test verifies that a contract is able to transfer
    // some funds to another account.
    let origin = ALICE;
    let dest = BOB;

    let mut host = Host::new(1);
    host.set_balance(&origin, 100);
    host.set_balance(&dest, 0);

    let request = Stack::transfer(true, false, &origin, &dest, 55, host.funds(&origin))
        .unwrap()
        .unwrap();
    let made = host.transfer(&request);
    Stack::transferred(made).unwrap();

    assert_eq!(host.get_balance(&origin), 45);
    assert_eq!(host.get_balance(&dest), 55);
}

#[test]
fn changes_are_reverted_on_failing_call() {
    // This test verifies that changes are reverted on a call which fails (or equally, returns
    // a non-zero status code).
    let origin = ALICE;
    let dest = BOB;

    let mut host = Host::new(1);
    host.place_contract(&BOB, hash(REVERTS));
    host.set_balance(&origin, 100);
    let balance = host.get_balance(&dest);

    let output = call_bob(&mut host, 55, vec![]).unwrap();

    assert!(!output.is_success());
    assert_eq!(host.get_balance(&origin), 100);

    // the rent is still charged
    assert!(host.get_balance(&dest) < balance);
    assert!(host.transactions.is_empty());
}

#[test]
fn balance_too_low() {
    // This test verifies that a contract can't send value if it's
    // balance is too low.
    let origin = ALICE;
    let dest = BOB;

    let mut host = Host::new(1);
    host.set_balance(&origin, 0);

    let request = Stack::transfer(false, false, &origin, &dest, 100, host.funds(&origin))
        .unwrap()
        .unwrap();
    let made = host.transfer(&request);
    let result = Stack::transferred(made);

    assert_eq!(result, Err(DispatchError::Module(Error::TransferFailed)));
    assert_eq!(host.get_balance(&origin), 0);
    assert_eq!(host.get_balance(&dest), 0);
}

#[test]
fn output_is_returned_on_success() {
    // Verifies that if a contract returns data with a successful exit status, this data
    // is returned from the execution context.
    let mut host = Host::new(1);
    host.place_contract(&BOB, hash(RETURNS_DATA));

    let output = call_bob(&mut host, 0, vec![]).unwrap();
    assert!(output.is_success());
    assert_eq!(output.data, vec![1, 2, 3, 4]);
}

#[test]
fn output_is_returned_on_failure() {
    // Verifies that if a contract returns data with a failing exit status, this data
    // is returned from the execution context.
    let mut host = Host::new(1);
    host.place_contract(&BOB, hash(REVERTS_WITH_DATA));

    let output = call_bob(&mut host, 0, vec![]).unwrap();
    assert!(!output.is_success());
    assert_eq!(output.data, vec![1, 2, 3, 4]);
}

#[test]
fn input_data_to_call() {
    // This one tests passing the input data into a contract via call.
    let mut host = Host::new(1);
    host.place_contract(&BOB, hash(CHECKS_INPUT));

    let result = call_bob(&mut host, 0, vec![1, 2, 3, 4]);
    assert!(matches!(result, Ok(_)));
}

#[test]
fn input_data_to_instantiate() {
    // This one tests passing the input data into a contract via instantiate.
    let mut host = Host::new(1);
    let subsistence = host.subsistence_threshold();
    host.set_balance(&ALICE, subsistence * 10);

    let result = instantiate(
        &mut host,
        CHECKS_CONSTRUCTOR_INPUT,
        subsistence * 3,
        vec![1, 2, 3, 4],
    );
    assert!(matches!(result, Ok(_)));
}

#[test]
fn max_depth() {
    // This test verifies that when we reach the maximal depth creation of an
    // yet another context fails.
    let mut host = Host::new(1);
    host.set_balance(&BOB, 1);
    host.place_contract(&BOB, hash(RECURSES));

    let result = call_bob(&mut host, 0, vec![]);
    assert!(matches!(result, Ok(_)));
    assert!(host.storage.contains_key(&(trie_id(&BOB, 0), KEY)));
}

#[test]
fn caller_returns_proper_values() {
    let origin = ALICE;
    let dest = BOB;

    let mut witnessed: Vec<u8> = vec![];
    let mut host = Host::new(1);
    host.place_contract(&dest, hash(CALLER_BOB));
    host.place_contract(&CHARLIE, hash(CALLER_CHARLIE));

    let result = MockStack::run_call(
        &mut host,
        origin,
        dest,
        &mut GasMeter::new(GAS_LIMIT),
        0,
        vec![],
        Some(&mut witnessed),
        &mut extension(RunMode::Pre),
    );

    assert!(matches!(result, Ok(_)));
    assert_eq!(witnessed.len(), 64);
    assert_eq!(witnessed[..32], origin);
    assert_eq!(witnessed[32..], dest);
}

#[test]
fn address_returns_proper_values() {
    let mut host = Host::new(1);
    host.place_contract(&BOB, hash(ADDRESS_BOB));
    host.place_contract(&CHARLIE, hash(ADDRESS_CHARLIE));

    let result = call_bob(&mut host, 0, vec![]);
    assert!(matches!(result, Ok(_)));
}

#[test]
fn refuse_instantiate_with_value_below_existential_deposit() {
    let mut host = Host::new(15);

    // Zero endowment.
    let result = instantiate(&mut host, CONSTRUCTS, 0, vec![]);
    assert!(matches!(result, Err(_)));
    assert_eq!(result, Err(refused(Error::NewContractNotFunded)));
}

#[test]
fn instantiation_work_with_success_output() {
    let mut host = Host::new(15);
    host.set_balance(&ALICE, 1000);

    let (instantiated_contract_address, output) =
        instantiate(&mut host, CONSTRUCTS_WITH_DATA, 100, vec![]).unwrap();
    assert_eq!(output.data, vec![80, 65, 83, 83]);

    // Check that the newly created account has the expected code hash and
    // there are instantiation event.
    assert_eq!(
        host.code_hash(&instantiated_contract_address).unwrap(),
        hash(CONSTRUCTS_WITH_DATA)
    );
    assert_eq!(&host.events, &[Event::Instantiated(ALICE, instantiated_contract_address)]);
}

#[test]
fn instantiation_fails_with_failing_output() {
    let mut host = Host::new(15);
    host.set_balance(&ALICE, 1000);

    let (instantiated_contract_address, output) =
        instantiate(&mut host, FAILS_TO_CONSTRUCT, 100, vec![]).unwrap();
    assert_eq!(output.data, vec![70, 65, 73, 76]);

    // Check that the account has not been created.
    assert!(host.code_hash(&instantiated_contract_address).is_none());
    assert!(host.events.is_empty());
}

#[test]
fn instantiation_from_contract() {
    let mut host = Host::new(15);
    let subsistence = host.subsistence_threshold();
    host.set_balance(&ALICE, subsistence * 100);
    host.place_contract(&BOB, hash(INSTANTIATES));

    let output = call_bob(&mut host, 20, vec![]).unwrap();
    let mut instantiated_contract_address = [0; 32];
    instantiated_contract_address.copy_from_slice(&output.data);

    // Check that the newly created account has the expected code hash and
    // there are instantiation event.
    assert_eq!(host.code_hash(&instantiated_contract_address).unwrap(), hash(SUCCESS));
    assert_eq!(&host.events, &[Event::Instantiated(BOB, instantiated_contract_address)]);
}

#[test]
fn instantiation_traps() {
    let mut host = Host::new(15);
    host.set_balance(&ALICE, 1000);
    host.set_balance(&BOB, 100);
    host.place_contract(&BOB, hash(INSTANTIATES_TRAP));

    assert!(matches!(call_bob(&mut host, 20, vec![]), Ok(_)));

    // The contract wasn't instantiated so we don't expect to see an instantiation
    // event here.
    assert_eq!(&host.events, &[]);
}

#[test]
fn termination_from_instantiate_fails() {
    let mut host = Host::new(15);
    host.set_balance(&ALICE, 1000);

    assert_eq!(
        instantiate(&mut host, TERMINATES_IN_CONSTRUCTOR, 100, vec![]),
        Err(refused(Error::TerminatedInConstructor))
    );

    assert_eq!(&host.events, &[]);
}

#[test]
fn rent_allowance() {
    let mut host = Host::new(1);
    let subsistence = host.subsistence_threshold();
    host.set_balance(&ALICE, subsistence * 10);

    let result = instantiate(&mut host, RENT_ALLOWANCE, subsistence * 5, vec![]);
    assert!(matches!(result, Ok(_)));
}

#[test]
fn in_memory_changes_not_discarded() {
    // Call stack: BOB -> CHARLIE (trap) -> BOB' (success)
    // This tests verfies some edge case of the contract info cache:
    // We change some value in our contract info before calling into a contract
    // that calls into ourself. This triggers a case where BOBs contract info
    // is written to storage and invalidated by the successful execution of BOB'.
    // The trap of CHARLIE reverts the storage changes to BOB. When the root BOB regains
    // control it reloads its contract info from storage. We check that changes that
    // are made before calling into CHARLIE are not discarded.
    let mut host = Host::new(1);
    host.place_contract(&BOB, hash(MEMORY_BOB));
    host.place_contract(&CHARLIE, hash(MEMORY_CHARLIE));

    let result = call_bob(&mut host, 0, vec![0]);
    assert!(matches!(result, Ok(_)));
}

#[test]
fn recursive_call_during_constructor_fails() {
    let mut host = Host::new(1);
    let subsistence = host.subsistence_threshold();
    host.set_balance(&ALICE, subsistence * 10);

    let result = instantiate(&mut host, CALLS_ITSELF_IN_CONSTRUCTOR, subsistence * 3, vec![]);
    assert!(matches!(result, Ok(_)));
}

#[test]
fn printing_works() {
    let mut debug_buffer = Vec::new();
    let mut host = Host::new(1);
    let subsistence = host.subsistence_threshold();
    host.set_balance(&ALICE, subsistence * 10);
    host.place_contract(&BOB, hash(PRINTS));
    MockStack::run_call(
        &mut host,
        ALICE,
        BOB,
        &mut GasMeter::new(GAS_LIMIT),
        0,
        vec![],
        Some(&mut debug_buffer),
        &mut extension(RunMode::Pre),
    )
    .unwrap();

    assert_eq!(&String::from_utf8(debug_buffer).unwrap(), "This is a testMore text");
}

#[test]
fn printing_works_on_fail() {
    let mut debug_buffer = Vec::new();
    let mut host = Host::new(1);
    let subsistence = host.subsistence_threshold();
    host.set_balance(&ALICE, subsistence * 10);
    host.place_contract(&BOB, hash(PRINTS_AND_TRAPS));
    let result = MockStack::run_call(
        &mut host,
        ALICE,
        BOB,
        &mut GasMeter::new(GAS_LIMIT),
        0,
        vec![],
        Some(&mut debug_buffer),
        &mut extension(RunMode::Pre),
    );
    assert!(result.is_err());

    assert_eq!(&String::from_utf8(debug_buffer).unwrap(), "This is a testMore text");
}

#[test]
fn call_reentry_direct_recursion() {
    let mut host = Host::new(1);
    host.place_contract(&BOB, hash(CALLS_WITHOUT_REENTRY));
    host.place_contract(&CHARLIE, hash(SUCCESS));

    // Calling another contract should succeed
    assert!(call_bob(&mut host, 0, CHARLIE.to_vec()).is_ok());

    // Calling into oneself fails
    assert_eq!(
        call_bob(&mut host, 0, BOB.to_vec()).map_err(|e| e.error),
        Err(DispatchError::Module(Error::ReentranceDenied))
    );
}

#[test]
fn call_deny_reentry() {
    let mut host = Host::new(1);
    host.place_contract(&BOB, hash(DENIES_REENTRY));
    host.place_contract(&CHARLIE, hash(CALLS_BOB));

    // BOB -> CHARLIE -> BOB fails as BOB denies reentry.
    assert_eq!(
        call_bob(&mut host, 0, vec![0]).map_err(|e| e.error),
        Err(DispatchError::Module(Error::ReentranceDenied))
    );
}

#[test]
fn all_stale_caches_are_reloaded() {
    let mut host = Host::new(1);
    host.place_contract(&BOB, hash(STALE_BOB));
    host.place_contract(&CHARLIE, hash(STALE_CHARLIE));
    host.place_contract(&DJANGO, hash(STALE_DJANGO));

    assert_eq!(call_bob(&mut host, 0, vec![0]), exec_success());
    assert_eq!(host.stored(&BOB).unwrap().get_alive().unwrap().rent_allowance, 42);
}

#[test]
fn direct_recursion_is_taken_over() {
    let mut host = Host::new(1);
    host.place_contract(&BOB, hash(DIRECT_RECURSION));

    assert_eq!(call_bob(&mut host, 0, vec![0]), exec_success());
    assert_eq!(host.stored(&BOB).unwrap().get_alive().unwrap().rent_allowance, 8);
}

#[test]
fn termination_moves_funds_and_removes_the_contract() {
    let mut host = Host::new(1);
    host.place_contract(&BOB, hash(TERMINATES));

    assert_eq!(call_bob(&mut host, 0, vec![]), exec_success());
    assert_eq!(host.stored(&BOB), None);
    assert_eq!(host.get_balance(&BOB), 0);
    assert_eq!(host.get_balance(&DJANGO), 170 - RENT);
    assert_eq!(&host.events, &[Event::Terminated(BOB, DJANGO)]);

    assert_eq!(call_bob(&mut host, 0, vec![]), Err(refused(Error::ContractNotFound)));
}

#[test]
fn termination_while_reentrant_fails() {
    let mut host = Host::new(1);
    host.place_contract(&BOB, hash(CALLS_BOB_TO_TERMINATE));
    host.place_contract(&CHARLIE, hash(CALLS_BOB_TO_TERMINATE));

    assert_eq!(call_bob(&mut host, 0, vec![]), exec_success());
    assert!(host.stored(&BOB).is_some());
}

#[test]
fn terminated_contract_cannot_be_called() {
    let mut host = Host::new(1);
    host.place_contract(&BOB, hash(CALLS_AFTER_TERMINATION));
    host.place_contract(&CHARLIE, hash(TERMINATES));

    assert_eq!(
        call_bob(&mut host, 0, vec![]),
        Err(ExecError {
            error: DispatchError::Module(Error::ContractNotFound),
            origin: ErrorOrigin::Callee,
        })
    );
    // The failure brings the contract back.
    assert!(host.stored(&CHARLIE).is_some());
    assert_eq!(host.get_balance(&CHARLIE), 170);
    assert!(host.events.is_empty());
}

#[test]
fn termination_that_cannot_be_queued_leaves_the_contract() {
    let mut host = Host::new(1);
    host.deletion_queue_is_full = true;
    host.place_contract(&BOB, hash(GIVES_UP));

    assert_eq!(call_bob(&mut host, 0, vec![]), exec_success());
    assert!(host.stored(&BOB).is_some());
    assert_eq!(host.get_balance(&BOB), 170 - RENT);
    assert!(host.events.is_empty());
}

#[test]
fn calls_that_cannot_be_entered_fail_on_the_caller_side() {
    let mut host = Host::new(1);
    host.place_contract(&BOB, hash(FAILS_TO_CALL));
    host.place_contract(&CHARLIE, hash(SUCCESS));
    host.contracts.insert(DJANGO, ContractInfo::Tombstone([0; 32]));

    assert_eq!(
        call_bob(&mut host, 0, vec![]),
        Err(ExecError {
            error: DispatchError::Module(Error::ContractNotFound),
            origin: ErrorOrigin::Callee,
        })
    );
}

#[test]
fn contract_keeps_what_it_needs_to_subsist() {
    let mut host = Host::new(1);
    host.place_contract(&BOB, hash(DRAINS_ITSELF));
    host.place_contract(&CHARLIE, hash(SUCCESS));

    assert_eq!(call_bob(&mut host, 0, vec![]), exec_success());
    // Both calls were entered, so rent was due for both.
    assert_eq!(host.get_balance(&CHARLIE), 170 - 2 * RENT + 170 - RENT - 17);
}

#[test]
fn call_fails_where_its_value_cannot_be_transferred() {
    let mut host = Host::new(1);
    host.place_contract(&BOB, hash(SUCCESS));
    host.set_balance(&ALICE, 10);

    assert_eq!(call_bob(&mut host, 55, vec![]), Err(refused(Error::TransferFailed)));
    assert_eq!(host.get_balance(&ALICE), 10);
    assert!(host.transactions.is_empty());
}

#[test]
fn duplicate_contract_is_refused() {
    let mut host = Host::new(15);
    host.set_balance(&ALICE, 1000);
    assert!(instantiate(&mut host, CONSTRUCTS, 100, vec![]).is_ok());
    assert_eq!(
        instantiate(&mut host, CONSTRUCTS, 100, vec![]),
        Err(ExecError {
            error: DispatchError::Runtime(b"DuplicateContract".to_vec()),
            origin: ErrorOrigin::Caller,
        })
    );
}

#[test]
fn missing_code_is_refused() {
    let mut host = Host::new(1);
    host.place_contract(&BOB, hash(255));
    assert_eq!(
        call_bob(&mut host, 0, vec![]),
        Err(ExecError {
            error: DispatchError::Runtime(b"CodeNotFound".to_vec()),
            origin: ErrorOrigin::Caller,
        })
    );
}

#[test]
fn dry_run_notes_where_calls_go() {
    let mut host = Host::new(1);
    host.place_contract(&BOB, hash(ROUTES));
    host.place_contract(&CHARLIE, hash(RETURNS_DATA));
    host.declared_targets.insert(CHARLIE, TARGET);
    let mut extension = extension(RunMode::Dry);

    let output = MockStack::run_call(
        &mut host,
        ALICE,
        BOB,
        &mut GasMeter::new(GAS_LIMIT),
        0,
        vec![],
        None,
        &mut extension,
    );
    assert_eq!(output, Ok(ExecReturnValue { flags: foreign(), data: vec![6, 7] }));
    let action_id = call_id(&config(), &CHARLIE, 3, &vec![6, 7]);
    assert_eq!(
        extension.preloaded_action_descriptions,
        vec![ContractActionDesc { action_id, target_id: Some(TARGET), to: Some(CHARLIE) }]
    );
    assert!(extension.constructed_outbound_messages.is_empty());

    // The run that follows finds what was noted, and sends a message.
    extension.run_mode = RunMode::Pre;
    host.declared_targets.clear();
    let output = MockStack::run_call(
        &mut host,
        ALICE,
        BOB,
        &mut GasMeter::new(GAS_LIMIT),
        0,
        vec![],
        None,
        &mut extension,
    );
    assert_eq!(output, Ok(ExecReturnValue { flags: foreign(), data: vec![6, 7] }));
    assert_eq!(extension.constructed_outbound_messages.len(), 1);
    let message = String::from_utf8(extension.constructed_outbound_messages[0].clone()).unwrap();
    assert!(message.contains("module_name: []"));
    assert!(message.contains("input_data: [6, 7]"));
    assert!(message.contains("gas_limit: [244, 1, 0, 0, 0, 0, 0, 0]"));
    assert!(message.contains("gateway_type: [5]"));
    assert!(message.contains("result: None"));
    assert!(extension.round_breakpoints.is_empty());
}

#[test]
fn call_of_unknown_action_is_refused() {
    let mut host = Host::new(1);
    host.place_contract(&BOB, hash(ROUTES));
    host.place_contract(&CHARLIE, hash(RETURNS_DATA));

    assert_eq!(
        call_bob(&mut host, 0, vec![]),
        Err(ExecError {
            error: DispatchError::Module(Error::TargetActionDescNotFound),
            origin: ErrorOrigin::Callee,
        })
    );
}

#[test]
fn call_without_target_stays_local() {
    let mut host = Host::new(1);
    host.place_contract(&BOB, hash(ROUTES));
    host.place_contract(&CHARLIE, hash(RETURNS_DATA));
    let mut extension = extension(RunMode::Pre);
    extension.preloaded_action_descriptions.push(ContractActionDesc {
        action_id: [0; 32],
        target_id: Some(TARGET),
        to: None,
    });
    extension.preloaded_action_descriptions.push(ContractActionDesc {
        action_id: call_id(&config(), &CHARLIE, 3, &vec![6, 7]),
        target_id: None,
        to: None,
    });

    let output = MockStack::run_call(
        &mut host,
        ALICE,
        BOB,
        &mut GasMeter::new(GAS_LIMIT),
        0,
        vec![],
        None,
        &mut extension,
    )
    .unwrap();
    assert_eq!(output.data, vec![1, 2, 3, 4]);
    assert_eq!(host.get_balance(&CHARLIE), 173 - RENT);
    assert!(extension.constructed_outbound_messages.is_empty());
}

#[test]
fn code_for_another_chain_is_not_executed() {
    let mut host = Host::new(1);
    host.place_contract(&BOB, hash(FOREIGN));
    host.set_balance(&ALICE, 100);

    let output = call_bob(&mut host, 55, vec![]);
    assert_eq!(output, Ok(ExecReturnValue { flags: foreign(), data: b"eth1".to_vec() }));
    assert_eq!(host.get_balance(&ALICE), 100);
    assert!(host.transactions.is_empty());
}

#[test]
fn storage_is_read_and_written_with_messages() {
    let mut host = Host::new(1);
    host.place_contract(&BOB, hash(USES_STORAGE));
    let mut extension = extension(RunMode::Pre);

    let output = MockStack::run_call(
        &mut host,
        ALICE,
        BOB,
        &mut GasMeter::new(GAS_LIMIT),
        0,
        vec![],
        None,
        &mut extension,
    );
    assert_eq!(output, exec_success());
    assert_eq!(extension.constructed_outbound_messages.len(), 6);
    let read = String::from_utf8(extension.constructed_outbound_messages[0].clone()).unwrap();
    assert!(read.starts_with("GatewayRead { key: [7, 7, 7"));
    let write = String::from_utf8(extension.constructed_outbound_messages[1].clone()).unwrap();
    assert!(write.contains("value: Some([1, 2, 3]), gateway_type: [5]"));
    assert_eq!(host.storage.get(&(trie_id(&BOB, 0), KEY)), Some(&vec![4, 5]));
    assert_eq!(host.stored(&BOB).unwrap().get_alive().unwrap().storage_size, 5);
}

#[test]
fn storage_is_out_of_reach_without_a_gateway() {
    let mut host = Host::new(1);
    host.gateway_is_down = true;
    host.place_contract(&BOB, hash(SUCCESS));
    let mut gas_meter = GasMeter::new(GAS_LIMIT);
    let mut extension = extension(RunMode::Pre);
    let mut stack = first_stack(&mut host, &mut gas_meter, &mut extension);

    assert_eq!(stack.get_storage(&KEY), None);
    assert_eq!(
        stack.set_storage(KEY, Some(vec![1])),
        Err(DispatchError::Other("The gateway is down"))
    );
    assert_eq!(
        Ext::transfer(&mut stack, &CHARLIE, 1),
        Err(DispatchError::Other("The gateway is down"))
    );
    let flags = CallFlags { module_dispatch: false };
    assert_eq!(
        stack.call_produce_messages_instead(0, CHARLIE, 0, vec![], flags, TARGET),
        Err(ExecError {
            error: DispatchError::Other("The gateway is down"),
            origin: ErrorOrigin::Caller,
        })
    );
    assert!(stack.host.storage.is_empty());
    assert!(extension.constructed_outbound_messages.is_empty());
}

#[test]
fn transfer_is_turned_into_a_message() {
    let mut host = Host::new(1);
    host.place_contract(&BOB, hash(TRANSFERS));
    let mut extension = extension(RunMode::Pre);

    let output = MockStack::run_call(
        &mut host,
        ALICE,
        BOB,
        &mut GasMeter::new(GAS_LIMIT),
        0,
        vec![],
        None,
        &mut extension,
    );
    assert_eq!(output, exec_success());
    assert_eq!(extension.constructed_outbound_messages.len(), 1);
    let message = String::from_utf8(extension.constructed_outbound_messages[0].clone()).unwrap();
    assert!(message.starts_with("GatewayTransfer { escrow_account: [97, 20, 8, 8"));
    assert!(message.contains("requester_account: [97, 20, 9, 9"));
    assert!(message.contains("dest_account: [97, 20, 3, 3"));
    assert!(message.contains("value: [117, 32, 5, 0"));
    assert_eq!(host.get_balance(&BOB), 170 - RENT);

    host.abi_is_unknown = true;
    assert_eq!(
        call_bob(&mut host, 0, vec![]).map_err(|e| e.error),
        Err(DispatchError::Other("The type is unknown"))
    );
}

#[test]
fn events_of_failed_calls_are_dropped() {
    let mut host = Host::new(1);
    host.place_contract(&BOB, hash(CALLS_EMITTERS));
    host.place_contract(&CHARLIE, hash(EMITS));
    host.place_contract(&DJANGO, hash(EMITS_AND_TRAPS));

    assert_eq!(call_bob(&mut host, 0, vec![]), exec_success());
    assert_eq!(
        &host.events,
        &[Event::VolatileVMEmitted([8; 32], [9; 32], vec![3, 4])]
    );
    assert_eq!(host.topics, vec![vec![[1; 32], [2; 32]]]);
}

#[test]
fn failed_instantiation_does_not_use_up_a_number() {
    let mut host = Host::new(1);
    host.account_counter = 5;
    host.place_contract(&BOB, hash(COUNTS));

    assert_eq!(call_bob(&mut host, 0, vec![]), exec_success());
    assert_eq!(host.account_counter, 7);
    let first = contract_address(&BOB, &hash(CONSTRUCTS), &[1]);
    let second = contract_address(&BOB, &hash(CONSTRUCTS), &[3]);
    let trie_of = |host: &Host, address: &AccountId| {
        host.stored(address).unwrap().get_alive().unwrap().trie_id
    };
    assert_eq!(trie_of(&host, &first), trie_id(&first, 6));
    assert_eq!(trie_of(&host, &second), trie_id(&second, 7));
    assert_eq!(
        &host.events,
        &[Event::Instantiated(BOB, first), Event::Instantiated(BOB, second)]
    );
}

#[test]
fn gas_is_returned_on_success_and_on_failure() {
    let mut host = Host::new(1);
    host.place_contract(&BOB, hash(BURNS_GAS_TWICE));
    host.place_contract(&CHARLIE, hash(BURNS_GAS));
    host.place_contract(&DJANGO, hash(EMITS_AND_TRAPS));
    let mut gas_meter = GasMeter::new(GAS_LIMIT);

    let output = MockStack::run_call(
        &mut host,
        ALICE,
        BOB,
        &mut gas_meter,
        0,
        vec![],
        None,
        &mut extension(RunMode::Pre),
    );
    assert_eq!(output, exec_trapped());
    assert_eq!(gas_meter, GasMeter { gas_limit: GAS_LIMIT, gas_left: GAS_LIMIT - 1010 });
}

#[test]
fn loading_is_paid_from_the_meter() {
    let mut host = Host::new(1);
    let mut code_hash = hash(SUCCESS);
    code_hash[0] = 7;
    host.place_contract(&BOB, code_hash);
    let mut gas_meter = GasMeter::new(20);

    for left in [13, 6] {
        let output = MockStack::run_call(
            &mut host,
            ALICE,
            BOB,
            &mut gas_meter,
            0,
            vec![],
            None,
            &mut extension(RunMode::Pre),
        );
        assert_eq!(output, exec_success());
        assert_eq!(gas_meter.gas_left, left);
    }
    let output = MockStack::run_call(
        &mut host,
        ALICE,
        BOB,
        &mut gas_meter,
        0,
        vec![],
        None,
        &mut extension(RunMode::Pre),
    );
    assert_eq!(output, Err(refused(Error::OutOfGas)));
    assert_eq!(gas_meter.gas_left, 6);
}

#[test]
fn contract_sees_its_surroundings() {
    let mut host = Host::new(1);
    host.set_balance(&ALICE, 100);
    host.place_contract(&BOB, hash(LOOKS_AROUND));
    assert_eq!(call_bob(&mut host, 25, vec![]), exec_success());
    assert_eq!(host.get_balance(&ALICE), 75);
}

#[test]
fn module_dispatch_takes_names_from_the_input() {
    let mut host = Host::new(1);
    host.place_contract(&BOB, hash(DISPATCHES));
    assert_eq!(
        call_bob(&mut host, 0, vec![1; 63]).map_err(|e| e.error),
        Err(DispatchError::Other(
            "Input < 64 doesn't allow to extract function and method names"
        ))
    );
    assert_eq!(
        call_bob(&mut host, 0, vec![255; 64]).map_err(|e| e.error),
        Err(DispatchError::Other("Can't decode argument to &str"))
    );

    let mut input_data = vec![0; 64];
    input_data[..3].copy_from_slice(b"Mod");
    input_data[32..36].copy_from_slice(b"meth");
    let mut extension = extension(RunMode::Pre);
    let output = MockStack::run_call(
        &mut host,
        ALICE,
        BOB,
        &mut GasMeter::new(GAS_LIMIT),
        0,
        input_data.clone(),
        None,
        &mut extension,
    );
    assert_eq!(output, Ok(ExecReturnValue { flags: foreign(), data: input_data }));
    let message = String::from_utf8(extension.constructed_outbound_messages[0].clone()).unwrap();
    assert!(message.contains("module_name: [12, 77, 111, 100]"));
    assert!(message.contains("method_name: [16, 109, 101, 116, 104]"));
}

#[test]
fn defense_is_up_for_one_call_only() {
    let mut host = Host::new(1);
    host.place_contract(&BOB, hash(LOWERS_ITS_DEFENSE));
    host.place_contract(&CHARLIE, hash(SUCCESS));
    assert_eq!(call_bob(&mut host, 0, vec![]), exec_success());
}

#[test]
fn restoring_changes_nothing() {
    let mut host = Host::new(1);
    host.place_contract(&BOB, hash(RESTORES));
    assert_eq!(call_bob(&mut host, 0, vec![]), exec_success());
    assert!(host.stored(&BOB).is_some());
    assert!(host.stored(&CHARLIE).is_none());
}

/// A call stack whose first frame is a call of BOB.
fn first_stack<'s, 'a>(
    host: &'s mut Host,
    gas_meter: &'a mut GasMeter,
    extension: &'a mut StackExtension,
) -> MockStack<'s, 'a> {
    let args = FrameArgs::Call { dest: BOB, cached_info: None, stored: host.stored(&BOB) };
    let (stack, _): (Stack<'a>, MockExecutable) =
        Stack::new(args, ALICE, gas_meter, &SCHEDULE, config(), 0, 1234, 99, None, extension)
            .unwrap();
    MockStack { stack, host }
}

/// Pushes the frame of a call.
fn push(stack: &mut MockStack, dest: AccountId) -> Result<(), ExecError> {
    let stored = stack.host.stored(&dest);
    let args = FrameArgs::Call { dest, cached_info: None, stored };
    let _: MockExecutable = stack.stack.push_frame(args, 0, 0)?;
    Ok(())
}

fn info_of(host: &Host, account_id: &AccountId) -> AliveContractInfo {
    host.stored(account_id).unwrap().get_alive().unwrap()
}

#[test]
fn stack_is_bounded() {
    let mut host = Host::new(1);
    host.place_contract(&BOB, hash(SUCCESS));
    let mut gas_meter = GasMeter::new(GAS_LIMIT);
    let mut extension = extension(RunMode::Pre);
    let mut stack = first_stack(&mut host, &mut gas_meter, &mut extension);

    assert!(stack.stack.caller_is_origin());
    for _ in 0..31 {
        assert_eq!(push(&mut stack, BOB), Ok(()));
        assert!(!stack.stack.caller_is_origin());
    }
    assert_eq!(stack.stack.frames().len(), 32);
    assert_eq!(push(&mut stack, BOB), Err(refused(Error::MaxCallDepthReached)));
    assert_eq!(stack.stack.prepare_push(), Err(refused(Error::MaxCallDepthReached)));
    assert_eq!(stack.stack.frames().len(), 32);
}

#[test]
fn pop_tells_all_frames_of_the_contract() {
    let mut host = Host::new(1);
    host.place_contract(&BOB, hash(SUCCESS));
    host.place_contract(&CHARLIE, hash(SUCCESS));
    let bob = info_of(&host, &BOB);
    let charlie = info_of(&host, &CHARLIE);
    let mut gas_meter = GasMeter::new(GAS_LIMIT);
    let mut extension = extension(RunMode::Pre);
    let mut stack = first_stack(&mut host, &mut gas_meter, &mut extension);
    for dest in [CHARLIE, BOB, CHARLIE, BOB] {
        push(&mut stack, dest).unwrap();
    }
    assert!(stack.stack.is_recursive());
    assert_eq!(*stack.stack.caller(), CHARLIE);

    // A frame whose changes are not kept tells nobody.
    assert_eq!(stack.stack.pop_frame(false), vec![]);
    let infos = |stack: &MockStack| -> Vec<CachedContract> {
        stack.stack.frames().into_iter().map(|frame| frame.contract_info).collect()
    };
    assert_eq!(
        infos(&stack),
        vec![
            CachedContract::Cached(charlie),
            CachedContract::Cached(bob),
            CachedContract::Cached(charlie),
            CachedContract::Cached(bob),
        ]
    );

    // One whose changes are kept is stored, and the others are stale.
    push(&mut stack, BOB).unwrap();
    assert_eq!(stack.stack.pop_frame(true), vec![Effect::InsertContract(BOB, bob)]);
    assert_eq!(
        infos(&stack),
        vec![
            CachedContract::Cached(charlie),
            CachedContract::Invalidated,
            CachedContract::Cached(charlie),
            CachedContract::Invalidated,
        ]
    );
    assert_eq!(stack.stack.frames_mut(1).account_id, BOB);
    assert_eq!(stack.stack.frames_mut(3).account_id, BOB);

    // The next one of the same contract takes the contract over, and nothing is stored.
    push(&mut stack, CHARLIE).unwrap();
    assert_eq!(stack.stack.prepare_push(), Ok(vec![Effect::InsertContract(CHARLIE, charlie)]));
    assert_eq!(stack.stack.pop_frame(true), vec![]);
    assert_eq!(stack.stack.top_frame().contract_info, CachedContract::Cached(charlie));
}

#[test]
fn first_frame_stays_and_stores_the_counter() {
    let mut host = Host::new(1);
    host.place_contract(&BOB, hash(SUCCESS));
    let bob = info_of(&host, &BOB);
    let mut gas_meter = GasMeter::new(GAS_LIMIT);
    let mut extension = extension(RunMode::Pre);
    let mut stack = first_stack(&mut host, &mut gas_meter, &mut extension);

    assert_eq!(Stack::initial_trie_seed(41), 42);
    assert_eq!(Stack::initial_trie_seed(u64::MAX), 0);
    assert_eq!(stack.stack.next_trie_seed(41), 42);
    assert_eq!(stack.stack.next_trie_seed(0), 43);
    assert_eq!(
        stack.stack.pop_frame(true),
        vec![Effect::InsertContract(BOB, bob), Effect::SetAccountCounter(43)]
    );
    assert_eq!(stack.stack.frames().len(), 1);
    assert_eq!(stack.stack.top_frame().nested_meter, GasMeter::new(0));
    assert_eq!(gas_meter.gas_left, GAS_LIMIT);
}

#[test]
fn reentry_is_allowed_unless_a_frame_denies_it() {
    let mut host = Host::new(1);
    host.place_contract(&BOB, hash(SUCCESS));
    host.place_contract(&CHARLIE, hash(SUCCESS));
    let mut gas_meter = GasMeter::new(GAS_LIMIT);
    let mut extension = extension(RunMode::Pre);
    let mut stack = first_stack(&mut host, &mut gas_meter, &mut extension);
    push(&mut stack, CHARLIE).unwrap();

    assert!(stack.stack.allows_reentry(&BOB));
    assert!(stack.stack.allows_reentry(&DJANGO));
    stack.stack.frames_mut(1).allows_reentry = false;
    assert!(!stack.stack.allows_reentry(&BOB));
    assert!(stack.stack.allows_reentry(&CHARLIE));
    stack.stack.top_frame_mut().allows_reentry = false;
    assert!(!stack.stack.allows_reentry(&CHARLIE));
}

#[test]
fn cached_contract_of_a_constructor_is_not_offered() {
    let mut host = Host::new(1);
    host.place_contract(&BOB, hash(SUCCESS));
    let bob = info_of(&host, &BOB);
    let mut gas_meter = GasMeter::new(GAS_LIMIT);
    let mut extension = extension(RunMode::Pre);
    let mut stack = first_stack(&mut host, &mut gas_meter, &mut extension);
    let executable = MockExecutable::from_storage_noinstr(hash(CONSTRUCTS)).unwrap();
    let args = FrameArgs::Instantiate { account_id: CHARLIE, created: Ok(bob), executable };
    let _: MockExecutable = stack.stack.push_frame(args, 0, 100).unwrap();

    assert_eq!(stack.stack.cached_info(&BOB), Some(bob));
    assert_eq!(stack.stack.cached_info(&CHARLIE), None);
    assert_eq!(stack.stack.cached_info(&DJANGO), None);
    assert_eq!(stack.stack.gas_meter().gas_left, 100);
    assert_eq!(stack.stack.frames_mut(1).nested_meter.gas_left, GAS_LIMIT - 100);
}

#[test]
fn message_for_another_target_breaks_the_round() {
    let mut host = Host::new(1);
    host.place_contract(&BOB, hash(FOREIGN));
    let mut gas_meter = GasMeter::new(GAS_LIMIT);
    let mut extension = extension(RunMode::Pre);
    let mut stack = first_stack(&mut host, &mut gas_meter, &mut extension);

    let reply = Ok(ExecReturnValue { flags: foreign(), data: vec![1] });
    assert_eq!(stack.stack.message_produced(Ok(vec![10]), vec![1], TARGET), reply);
    assert_eq!(stack.stack.message_produced(Ok(vec![11]), vec![1], OTHER_TARGET), reply);
    assert_eq!(
        stack.stack.message_produced(Err("The gateway is down"), vec![1], OTHER_TARGET),
        Err(ExecError {
            error: DispatchError::Other("The gateway is down"),
            origin: ErrorOrigin::Caller,
        })
    );
    assert_eq!(extension.constructed_outbound_messages, vec![vec![10], vec![11]]);
    assert_eq!(extension.round_breakpoints, vec![2]);
}

#[test]
fn decisions_on_transfers() {
    let funds = Funds { total_balance: 100, subsistence_threshold: 17 };
    let request = |value, existence| {
        Ok(Some(TransferRequest { from: ALICE, to: BOB, value, existence }))
    };
    assert_eq!(Stack::transfer(true, false, &ALICE, &BOB, 0, funds), Ok(None));
    assert_eq!(
        Stack::transfer(true, false, &ALICE, &BOB, 83, funds),
        request(83, ExistenceRequirement::KeepAlive)
    );
    assert_eq!(
        Stack::transfer(true, false, &ALICE, &BOB, 84, funds),
        Err(DispatchError::Module(Error::BelowSubsistenceThreshold))
    );
    assert_eq!(
        Stack::transfer(false, false, &ALICE, &BOB, 84, funds),
        request(84, ExistenceRequirement::KeepAlive)
    );
    assert_eq!(
        Stack::transfer(true, true, &ALICE, &BOB, 200, funds),
        request(200, ExistenceRequirement::AllowDeath)
    );
    assert_eq!(
        Stack::transfer(true, false, &ALICE, &BOB, 200, funds),
        Err(DispatchError::Module(Error::BelowSubsistenceThreshold))
    );
}

#[test]
fn unused_frame_leaves_no_trace() {
    let mut host = Host::new(1);
    host.place_contract(&BOB, hash(SUCCESS));
    host.place_contract(&CHARLIE, hash(SUCCESS));
    let bob = info_of(&host, &BOB);
    let mut gas_meter = GasMeter::new(GAS_LIMIT);
    let mut extension = extension(RunMode::Pre);
    let mut stack = first_stack(&mut host, &mut gas_meter, &mut extension);
    push(&mut stack, CHARLIE).unwrap();
    let before = format!("{:?}", stack.stack.frames());

    for gas_limit in [0, 1, 500] {
        let executable = MockExecutable::from_storage_noinstr(hash(CONSTRUCTS)).unwrap();
        let args = FrameArgs::Instantiate { account_id: DJANGO, created: Ok(bob), executable };
        let _: MockExecutable = stack.stack.push_frame(args, 0, gas_limit).unwrap();
        assert_eq!(stack.stack.frames().len(), 3);
        assert_eq!(stack.stack.pop_frame(false), vec![]);
        assert_eq!(format!("{:?}", stack.stack.frames()), before);
    }
}

#[test]
fn restoring_while_reentrant_fails() {
    let mut host = Host::new(1);
    host.place_contract(&BOB, hash(RESTORES_WHILE_REENTRANT));
    assert_eq!(call_bob(&mut host, 0, vec![]), exec_success());
    assert!(host.stored(&BOB).is_some());
    assert!(host.stored(&CHARLIE).is_none());

    let mut gas_meter = GasMeter::new(GAS_LIMIT);
    let mut extension = extension(RunMode::Pre);
    let mut stack = first_stack(&mut host, &mut gas_meter, &mut extension);
    assert_eq!(stack.restore_to(CHARLIE, hash(SUCCESS), 1, vec![]), Ok(()));
    push(&mut stack, BOB).unwrap();
    let before = format!("{:?}", stack.stack);
    assert_eq!(
        stack.restore_to(CHARLIE, hash(SUCCESS), 1, vec![]),
        Err(DispatchError::Module(Error::TerminatedWhileReentrant))
    );
    assert_eq!(format!("{:?}", stack.stack), before);
}

#[test]
fn failed_call_comes_back_to_its_caller() {
    let mut host = Host::new(1);
    host.set_balance(&ALICE, 100);
    host.place_contract(&BOB, hash(SURVIVES_FAILURE));
    host.place_contract(&CHARLIE, hash(WRITES_AND_TRAPS));
    let mut debug_buffer = vec![];

    let output = MockStack::run_call(
        &mut host,
        ALICE,
        BOB,
        &mut GasMeter::new(GAS_LIMIT),
        25,
        vec![],
        Some(&mut debug_buffer),
        &mut extension(RunMode::Pre),
    );
    assert_eq!(output, exec_success());
    assert!(host.storage.is_empty());
    assert_eq!(host.get_balance(&BOB), 170 + 25 - RENT);
    assert_eq!(host.get_balance(&CHARLIE), 170 - RENT);
    // The text stays.
    assert_eq!(debug_buffer, b"w".to_vec());
}

#[test]
fn called_contract_pays_rent_before_its_run() {
    let mut code_hash = hash(SUCCESS);
    code_hash[2] = 60;
    let mut host = Host::new(1);
    host.place_contract(&BOB, code_hash);
    let mut gas_meter = GasMeter::new(GAS_LIMIT);
    let mut extension = extension(RunMode::Pre);
    let (_, _, step): (Stack, MockExecutable, RunStep) = Stack::run_call(
        ALICE,
        BOB,
        host.stored(&BOB),
        &mut gas_meter,
        &SCHEDULE,
        config(),
        0,
        1234,
        99,
        None,
        &mut extension,
        host.funds(&ALICE),
    )
    .unwrap();
    assert_eq!(step.effects, vec![Effect::ChargeRent(BOB, 60), Effect::BeginTransaction]);
    assert_eq!(step.action, RunAction::Execute(ExportedFunction::Call));

    let mut stack = first_stack(&mut host, &mut gas_meter, &mut extension);
    let executable = MockExecutable::from_storage_noinstr(code_hash).unwrap();
    assert_eq!(stack.stack.charge_rent(&executable), vec![Effect::ChargeRent(BOB, 60)]);
    let (effects, pending) = stack.stack.regular_call(&BOB, true).unwrap();
    stack.host.perform(effects);
    let (effects, executable): (Vec<Effect>, MockExecutable) =
        stack.stack.enter_call(pending, None, 0, 0).unwrap();
    assert_eq!(effects, vec![Effect::ChargeRent(BOB, 60)]);

    // A constructor does not.
    let args = FrameArgs::Instantiate {
        account_id: CHARLIE,
        created: Ok(info_of(stack.host, &BOB)),
        executable,
    };
    let executable: MockExecutable = stack.stack.push_frame(args, 0, 0).unwrap();
    assert_eq!(stack.stack.charge_rent(&executable), vec![]);
}

#[test]
fn failure_to_make_the_first_frame_leaves_the_debug_buffer() {
    let mut host = Host::new(1);
    let mut debug_buffer = vec![1];
    let output = MockStack::run_call(
        &mut host,
        ALICE,
        BOB,
        &mut GasMeter::new(GAS_LIMIT),
        0,
        vec![],
        Some(&mut debug_buffer),
        &mut extension(RunMode::Pre),
    );
    assert_eq!(output, Err(refused(Error::ContractNotFound)));
    assert_eq!(debug_buffer, vec![1]);
}

#[test]
fn depth_is_for_the_runtime_to_choose() {
    assert_eq!(CallDepth::default(), CallDepth::new(31).unwrap());
    assert_eq!(CallDepth::default().frames(), 31);
    assert!(CallDepth::new(0x10_0000).is_some());
    assert!(CallDepth::new(0x10_0001).is_none());

    let mut host = Host::new(1);
    host.place_contract(&BOB, hash(SUCCESS));
    let mut gas_meter = GasMeter::new(GAS_LIMIT);
    let mut extension = extension(RunMode::Pre);
    for depth in [0, 2, 100] {
        let mut stack = first_stack(&mut host, &mut gas_meter, &mut extension);
        stack.stack.config.call_depth = CallDepth::new(depth).unwrap();
        for _ in 0..depth {
            assert_eq!(push(&mut stack, BOB), Ok(()));
        }
        assert_eq!(push(&mut stack, BOB), Err(refused(Error::MaxCallDepthReached)));
        assert_eq!(
            stack.stack.regular_call(&BOB, true),
            Err(refused(Error::MaxCallDepthReached))
        );
        assert_eq!(stack.stack.frames().len(), depth as usize + 1);
        for _ in 0..=depth {
            stack.stack.pop_frame(false);
        }
    }
}
