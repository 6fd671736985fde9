//! What the call stack knows of other chains: the gateway to them and the messages for them.
use vstd::prelude::*;
use vstd::utf8::*;
use crate::codec::{
    encode_array, encode_balance, encode_str, encode_u64, encoded_balance, encoded_bytes, le_bytes,
    text_of,
};
use crate::config::BalanceWidth;
use crate::types::{
    same_bytes, AccountId, Balance, ChainId, Digest, ExecError, RunMode, StorageKey, Weight,
};

verus! {

/// A type of the interface of another chain.
#[derive(Clone, Copy, Debug, PartialEq, Eq)]
pub enum AbiType {
    /// An address of the given length.
    Address(u32),
    /// An unsigned number of the given size.
    Uint(u32),
}

/// A value that has to be translated into the form that another chain uses.
#[derive(Debug, PartialEq, Eq)]
pub struct AbiValue {
    /// The type that the value has there.
    pub ty: AbiType,
    /// The encoding that the value has here.
    pub bytes: Vec<u8>,
}

/// The values of a message that have to be translated.
#[derive(Debug, PartialEq, Eq)]
pub struct AbiValues {
    /// The escrow account.
    pub escrow: AbiValue,
    /// The account that asked for the execution.
    pub requester: AbiValue,
    /// The account that the message is for.
    pub dest: AbiValue,
    /// The amount that goes with the message.
    pub value: AbiValue,
}

/// The translations of the values of a message, or why there is none.
#[derive(Debug, PartialEq, Eq)]
pub struct AbiReplies {
    /// The escrow account.
    pub escrow: Result<Vec<u8>, &'static str>,
    /// The account that asked for the execution.
    pub requester: Result<Vec<u8>, &'static str>,
    /// The account that the message is for.
    pub dest: Result<Vec<u8>, &'static str>,
    /// The amount that goes with the message.
    pub value: Result<Vec<u8>, &'static str>,
}

/// Where the first translation fails, in the order in which they are asked for.
pub open spec fn abi_failure(abi: AbiReplies) -> Option<&'static str> {
    if abi.escrow is Err {
        Some(abi.escrow->Err_0)
    } else if abi.requester is Err {
        Some(abi.requester->Err_0)
    } else if abi.dest is Err {
        Some(abi.dest->Err_0)
    } else if abi.value is Err {
        Some(abi.value->Err_0)
    } else {
        None
    }
}

/// A call that the gateway is asked to turn into a message.
#[derive(Debug, PartialEq, Eq)]
pub struct GatewayCall {
    /// The encoded name of the module, if the call is dispatched by name.
    pub module_name: Vec<u8>,
    /// The encoded name of the method, if the call is dispatched by name.
    pub method_name: Vec<u8>,
    /// The input of the call.
    pub input_data: Vec<u8>,
    /// The escrow account, as the other chain writes it.
    pub escrow_account: Vec<u8>,
    /// The account that asked for the execution, as the other chain writes it.
    pub requester_account: Vec<u8>,
    /// The account that is called, as the other chain writes it.
    pub dest_account: Vec<u8>,
    /// The amount that goes with the call, as the other chain writes it.
    pub value: Vec<u8>,
    /// The encoded gas limit.
    pub gas_limit: Vec<u8>,
    /// The type of the gateway.
    pub gateway_type: Vec<u8>,
    /// The encoded outcome of the call, if it is already known and a success.
    pub result: Option<Vec<u8>>,
}

/// A transfer that the gateway is asked to turn into a message.
#[derive(Debug, PartialEq, Eq)]
pub struct GatewayTransfer {
    /// The escrow account, as the other chain writes it.
    pub escrow_account: Vec<u8>,
    /// The account that asked for the execution, as the other chain writes it.
    pub requester_account: Vec<u8>,
    /// The account that is credited, as the other chain writes it.
    pub dest_account: Vec<u8>,
    /// The amount, as the other chain writes it.
    pub value: Vec<u8>,
    /// The type of the gateway.
    pub gateway_type: Vec<u8>,
}

/// A read of storage that the gateway is asked to turn into a message.
#[derive(Debug, PartialEq, Eq)]
pub struct GatewayRead {
    /// The encoded key.
    pub key: Vec<u8>,
    /// The type of the gateway.
    pub gateway_type: Vec<u8>,
}

/// A write to storage that the gateway is asked to turn into a message.
#[derive(Debug, PartialEq, Eq)]
pub struct GatewayWrite {
    /// The encoded key.
    pub key: Vec<u8>,
    /// The new entry, or `None` to delete it.
    pub value: Option<Vec<u8>>,
    /// The type of the gateway.
    pub gateway_type: Vec<u8>,
}

/// The gateway that messages go through.
#[derive(Debug, PartialEq, Eq)]
pub struct GatewayPointer {
    /// The chain behind the gateway.
    pub id: ChainId,
    /// The type of the gateway, in the encoding of the registry.
    pub gateway_type: Vec<u8>,
}

/// How the chain behind the gateway writes its values.
#[derive(Clone, Copy, Debug, PartialEq, Eq)]
pub struct GatewayABIConfig {
    /// The length of an address.
    pub address_length: u32,
    /// The size of an amount.
    pub value_type_size: u32,
}

/// Where an action of a contract takes place.
#[derive(Clone, Copy, Debug, PartialEq, Eq)]
pub struct ContractActionDesc {
    /// The action.
    pub action_id: Digest,
    /// The chain on which it takes place, if it is not this one.
    pub target_id: Option<ChainId>,
    /// The account that is acted upon.
    pub to: Option<AccountId>,
}

/// What a call stack holds beside its frames.
#[derive(Debug, PartialEq, Eq)]
pub struct StackExtension {
    /// The account that holds the funds of the execution.
    pub escrow_account: AccountId,
    /// The account that asked for the execution.
    pub requester: AccountId,
    /// The child trie of the execution.
    pub storage_trie_id: Vec<u8>,
    /// The first input, as the requester submitted it.
    pub input_data: Option<Vec<u8>>,
    /// The encoded transfers that were deferred. The gateway fills them in.
    pub inner_exec_transfers: Vec<Vec<u8>>,
    /// The encoded messages for other chains, in the order in which they came up.
    pub constructed_outbound_messages: Vec<Vec<u8>>,
    /// The numbers of messages after which the execution changed its target.
    pub round_breakpoints: Vec<u32>,
    /// The chain that the execution is for.
    pub target_id: Option<ChainId>,
    /// The gateway that messages go through.
    pub gateway_pointer: GatewayPointer,
    /// How the chain behind the gateway writes its values.
    pub gateway_abi: GatewayABIConfig,
    /// Where the actions of the contracts take place.
    pub preloaded_action_descriptions: Vec<ContractActionDesc>,
    /// What the execution is for.
    pub run_mode: RunMode,
}

/// What a [`StackExtension`] stands for.
#[verifier::ext_equal]
pub struct ExtensionView {
    /// The account that holds the funds of the execution.
    pub escrow_account: AccountId,
    /// The account that asked for the execution.
    pub requester: AccountId,
    /// The child trie of the execution.
    pub storage_trie_id: Vec<u8>,
    /// The first input.
    pub input_data: Option<Vec<u8>>,
    /// The deferred transfers.
    pub inner_exec_transfers: Vec<Vec<u8>>,
    /// The messages for other chains.
    pub messages: Seq<Vec<u8>>,
    /// The numbers of messages after which the execution changed its target.
    pub breakpoints: Seq<u32>,
    /// The chain that the execution is for.
    pub target_id: Option<ChainId>,
    /// The gateway that messages go through.
    pub gateway_pointer: GatewayPointer,
    /// How the chain behind the gateway writes its values.
    pub gateway_abi: GatewayABIConfig,
    /// Where the actions of the contracts take place.
    pub descriptions: Seq<ContractActionDesc>,
    /// What the execution is for.
    pub run_mode: RunMode,
}

impl View for StackExtension {
    type V = ExtensionView;

    open spec fn view(&self) -> ExtensionView {
        ExtensionView {
            escrow_account: self.escrow_account,
            requester: self.requester,
            storage_trie_id: self.storage_trie_id,
            input_data: self.input_data,
            inner_exec_transfers: self.inner_exec_transfers,
            messages: self.constructed_outbound_messages@,
            breakpoints: self.round_breakpoints@,
            target_id: self.target_id,
            gateway_pointer: self.gateway_pointer,
            gateway_abi: self.gateway_abi,
            descriptions: self.preloaded_action_descriptions@,
            run_mode: self.run_mode,
        }
    }
}

/// The bytes of a range that are not zero, in their order.
pub open spec fn name_bytes(input: Seq<u8>, from: int, to: int) -> Seq<u8> {
    input.subrange(from, to).filter(|b: u8| b > 0)
}

/// The name of the module that the input asks for.
pub open spec fn module_name_bytes(input: Seq<u8>) -> Seq<u8> {
    name_bytes(input, 0, 31)
}

/// The name of the method that the input asks for.
pub open spec fn method_name_bytes(input: Seq<u8>) -> Seq<u8> {
    name_bytes(input, 32, 63)
}

/// Why the names cannot be taken from the input, if they cannot.
pub open spec fn names_failure(input: Seq<u8>) -> Option<Seq<char>> {
    if input.len() < 64 {
        Some("Input < 64 doesn't allow to extract function and method names"@)
    } else if !valid_utf8(module_name_bytes(input)) || !valid_utf8(method_name_bytes(input)) {
        Some("Can't decode argument to &str"@)
    } else {
        None
    }
}

/// The bytes of a range that are not zero, in their order.
fn non_zero_bytes(input: &Vec<u8>, from: usize, to: usize) -> (name: Vec<u8>)
    requires
        from <= to <= input@.len(),
    ensures
        name@ == name_bytes(input@, from as int, to as int),
        name@.len() <= to - from,
{
    let ghost keep = |b: u8| b > 0;
    let ghost range = input@.subrange(from as int, to as int);
    let mut name: Vec<u8> = Vec::new();
    let mut i: usize = from;
    assert(range.take(0).filter(keep) =~= Seq::<u8>::empty()) by {
        reveal(Seq::filter);
    }
    while i < to
        invariant
            from <= i <= to <= input@.len(),
            range == input@.subrange(from as int, to as int),
            keep == (|b: u8| b > 0),
            name@ == range.take(i - from).filter(keep),
            name@.len() <= i - from,
        decreases to - i,
    {
        let byte: u8 = input[i];
        proof {
            let before = range.take(i - from);
            assert(range.take(i - from + 1) =~= before.push(byte));
            reveal(Seq::filter);
            assert(before.push(byte).drop_last() =~= before);
        }
        if byte > 0 {
            name.push(byte);
        }
        i = i + 1;
    }
    assert(range.take(to - from) =~= range);
    name
}

/// The encoded text that bytes stand for.
fn encoded_text(bytes: &Vec<u8>) -> (encoded: Result<Vec<u8>, &'static str>)
    requires
        bytes@.len() <= u32::MAX,
    ensures
        valid_utf8(bytes@) ==> (encoded matches Ok(e) && e@ == encoded_bytes(bytes@)),
        !valid_utf8(bytes@) ==> (encoded matches Err(e) && e@
            == "Can't decode argument to &str"@),
{
    match text_of(bytes.as_slice()) {
        Some(text) => Ok(encode_str(text)),
        None => Err("Can't decode argument to &str"),
    }
}

/// The encoded names of the module and the method that the input asks for.
///
/// They stand in the first 64 bytes, each padded with zeros.
pub fn take_method_names_from_input(input: &Vec<u8>) -> (names: Result<
    (Vec<u8>, Vec<u8>),
    &'static str,
>)
    ensures
        names_taken(input@, names),
{
    if input.len() < 64 {
        return Err("Input < 64 doesn't allow to extract function and method names");
    }
    let module_bytes: Vec<u8> = non_zero_bytes(input, 0, 31);
    let method_bytes: Vec<u8> = non_zero_bytes(input, 32, 63);
    let module_name: Vec<u8> = match encoded_text(&module_bytes) {
        Ok(name) => name,
        Err(text) => return Err(text),
    };
    let method_name: Vec<u8> = match encoded_text(&method_bytes) {
        Ok(name) => name,
        Err(text) => return Err(text),
    };
    Ok((module_name, method_name))
}

/// What is told of the outcome of a call: its encoding, if it is known and a success.
pub open spec fn known_success(output_data: Option<&Result<Vec<u8>, ExecError>>) -> Option<
    Seq<u8>,
> {
    match output_data {
        Some(Ok(data)) => Some(data@),
        _ => None,
    }
}

/// The call that the gateway is asked for.
pub open spec fn is_gateway_call(
    extension: ExtensionView,
    call: GatewayCall,
    gas_limit: Weight,
    abi: AbiReplies,
    input_data: Vec<u8>,
    module_name: Seq<u8>,
    method_name: Seq<u8>,
    result: Option<Seq<u8>>,
) -> bool {
    &&& call.module_name@ == module_name
    &&& call.method_name@ == method_name
    &&& call.input_data == input_data
    &&& abi.escrow == Ok::<Vec<u8>, &'static str>(call.escrow_account)
    &&& abi.requester == Ok::<Vec<u8>, &'static str>(call.requester_account)
    &&& abi.dest == Ok::<Vec<u8>, &'static str>(call.dest_account)
    &&& abi.value == Ok::<Vec<u8>, &'static str>(call.value)
    &&& call.gas_limit@ == le_bytes(gas_limit as nat, 8)
    &&& call.gateway_type@ == extension.gateway_pointer.gateway_type@
    &&& match result {
        Some(data) => call.result matches Some(r) && r@ == data,
        None => call.result is None,
    }
}

/// The transfer that the gateway is asked for.
pub open spec fn is_gateway_transfer(
    extension: ExtensionView,
    transfer: GatewayTransfer,
    abi: AbiReplies,
) -> bool {
    &&& abi.escrow == Ok::<Vec<u8>, &'static str>(transfer.escrow_account)
    &&& abi.requester == Ok::<Vec<u8>, &'static str>(transfer.requester_account)
    &&& abi.dest == Ok::<Vec<u8>, &'static str>(transfer.dest_account)
    &&& abi.value == Ok::<Vec<u8>, &'static str>(transfer.value)
    &&& transfer.gateway_type@ == extension.gateway_pointer.gateway_type@
}

/// The call that is made for the gateway, or why there is none.
pub open spec fn call_message_made(
    extension: ExtensionView,
    gas_limit: Weight,
    abi: AbiReplies,
    input_data: Vec<u8>,
    module_name: Seq<u8>,
    method_name: Seq<u8>,
    output_data: Option<&Result<Vec<u8>, ExecError>>,
    message: Result<GatewayCall, &'static str>,
) -> bool {
    match abi_failure(abi) {
        Some(text) => message == Err::<GatewayCall, &'static str>(text),
        None => message matches Ok(call) && is_gateway_call(
            extension,
            call,
            gas_limit,
            abi,
            input_data,
            module_name,
            method_name,
            known_success(output_data),
        ),
    }
}

/// The call that is made for the gateway with the names that the input starts with, or why there is
/// none.
pub open spec fn named_call_message_made(
    extension: ExtensionView,
    gas_limit: Weight,
    abi: AbiReplies,
    input_data: Vec<u8>,
    output_data: Option<&Result<Vec<u8>, ExecError>>,
    message: Result<GatewayCall, &'static str>,
) -> bool {
    match names_failure(input_data@) {
        Some(text) => message matches Err(e) && e@ == text,
        None => call_message_made(
            extension,
            gas_limit,
            abi,
            input_data,
            encoded_bytes(module_name_bytes(input_data@)),
            encoded_bytes(method_name_bytes(input_data@)),
            output_data,
            message,
        ),
    }
}

/// The read of storage that the gateway is asked for.
pub open spec fn is_gateway_read(
    extension: ExtensionView,
    key: StorageKey,
    message: GatewayRead,
) -> bool {
    &&& message.key@ == key@
    &&& message.gateway_type@ == extension.gateway_pointer.gateway_type@
}

/// The write to storage that the gateway is asked for.
pub open spec fn is_gateway_write(
    extension: ExtensionView,
    key: StorageKey,
    value: Option<Vec<u8>>,
    message: GatewayWrite,
) -> bool {
    &&& message.key@ == key@
    &&& message.value == value
    &&& message.gateway_type@ == extension.gateway_pointer.gateway_type@
}

/// The values of a message that have to be translated: three accounts and an amount.
pub open spec fn are_abi_values(
    extension: ExtensionView,
    width: BalanceWidth,
    to: AccountId,
    value: Balance,
    values: AbiValues,
) -> bool {
    &&& values.escrow.ty == AbiType::Address(extension.gateway_abi.address_length)
    &&& values.escrow.bytes@ == extension.escrow_account@
    &&& values.requester.ty == AbiType::Address(extension.gateway_abi.address_length)
    &&& values.requester.bytes@ == extension.requester@
    &&& values.dest.ty == AbiType::Address(extension.gateway_abi.address_length)
    &&& values.dest.bytes@ == to@
    &&& values.value.ty == AbiType::Uint(extension.gateway_abi.value_type_size)
    &&& values.value.bytes@ == encoded_balance(width, value)
}

/// The names that an input asks for, encoded, or why there are none.
pub open spec fn names_taken(
    input: Seq<u8>,
    names: Result<(Vec<u8>, Vec<u8>), &'static str>,
) -> bool {
    match names_failure(input) {
        Some(text) => names matches Err(e) && e@ == text,
        None => names matches Ok((module_name, method_name)) && {
            &&& module_name@ == encoded_bytes(module_name_bytes(input))
            &&& method_name@ == encoded_bytes(method_name_bytes(input))
        },
    }
}

impl StackExtension {
    /// The values of a message that have to be translated before the message can be made.
    ///
    /// `width` is that of the balances of the runtime.
    pub fn abi_values(&self, width: BalanceWidth, to: &AccountId, value: Balance) -> (values:
        AbiValues)
        ensures
            are_abi_values(self@, width, *to, value, values),
    {
        let address: AbiType = AbiType::Address(self.gateway_abi.address_length);
        AbiValues {
            escrow: AbiValue { ty: address, bytes: encode_array(&self.escrow_account) },
            requester: AbiValue { ty: address, bytes: encode_array(&self.requester) },
            dest: AbiValue { ty: address, bytes: encode_array(to) },
            value: AbiValue {
                ty: AbiType::Uint(self.gateway_abi.value_type_size),
                bytes: encode_balance(width, value),
            },
        }
    }

    /// Makes the call that the gateway is asked to turn into a message.
    ///
    /// `abi` holds the translations of the values that [`StackExtension::abi_values`] names, and
    /// `output_data` the encoded outcome of the call, if it is already known.
    pub fn produce_call_message(
        &self,
        gas_limit: Weight,
        abi: AbiReplies,
        input_data: Vec<u8>,
        module_name: Vec<u8>,
        method_name: Vec<u8>,
        output_data: Option<&Result<Vec<u8>, ExecError>>,
    ) -> (message: Result<GatewayCall, &'static str>)
        ensures
            call_message_made(
                self@,
                gas_limit,
                abi,
                input_data,
                module_name@,
                method_name@,
                output_data,
                message,
            ),
    {
        let escrow_account: Vec<u8> = match abi.escrow {
            Ok(bytes) => bytes,
            Err(text) => return Err(text),
        };
        let requester_account: Vec<u8> = match abi.requester {
            Ok(bytes) => bytes,
            Err(text) => return Err(text),
        };
        let dest_account: Vec<u8> = match abi.dest {
            Ok(bytes) => bytes,
            Err(text) => return Err(text),
        };
        let value: Vec<u8> = match abi.value {
            Ok(bytes) => bytes,
            Err(text) => return Err(text),
        };
        let result: Option<Vec<u8>> = match output_data {
            Some(Ok(data)) => Some(data.clone()),
            _ => None,
        };
        Ok(
            GatewayCall {
                module_name,
                method_name,
                input_data,
                escrow_account,
                requester_account,
                dest_account,
                value,
                gas_limit: encode_u64(gas_limit),
                gateway_type: self.gateway_pointer.gateway_type.clone(),
                result,
            },
        )
    }
}

/// The operations of a contract that concern other chains.
pub trait ExposedExt {
    /// A call without names.
    fn call(
        &self,
        gas_limit: Weight,
        abi: AbiReplies,
        input_data: Vec<u8>,
        output_data: Option<&Result<Vec<u8>, ExecError>>,
    ) -> Result<GatewayCall, &'static str>;

    /// A call that is dispatched by the names that its input starts with.
    fn call_module(
        &self,
        gas_limit: Weight,
        abi: AbiReplies,
        input_data: Vec<u8>,
        output_data: Option<&Result<Vec<u8>, ExecError>>,
    ) -> Result<GatewayCall, &'static str>;

    /// A transfer.
    fn transfer(&self, abi: AbiReplies) -> Result<GatewayTransfer, &'static str>;

    /// A read of storage.
    fn get_storage(&self, key: &StorageKey) -> GatewayRead;

    /// A write to storage.
    fn set_storage(&self, key: &StorageKey, value: Option<Vec<u8>>) -> GatewayWrite;

    /// Keeps a message for another chain.
    fn add_message(&mut self, message: Vec<u8>);

    /// Notes that the execution changes its target, if it does.
    fn maybe_round_breakpoint(
        &mut self,
        maybe_prev_target_id: Option<ChainId>,
        maybe_new_target_id: Option<ChainId>,
    );

    /// The account that holds the funds of the execution.
    fn get_escrow_account(&self) -> AccountId;

    /// The account that asked for the execution.
    fn get_requester(&self) -> AccountId;

    /// The chain behind the gateway.
    fn get_target_id(&self) -> ChainId;
}

/// Whether the execution has to be broken between two targets: both are known and they differ.
pub open spec fn breaks_round(prev: Option<ChainId>, next: Option<ChainId>) -> bool {
    prev is Some && next is Some && prev != next
}

/// The extension after a message was kept.
pub open spec fn with_message(extension: ExtensionView, message: Vec<u8>) -> ExtensionView {
    ExtensionView { messages: extension.messages.push(message), ..extension }
}

/// The extension after a possible change of the target was noted.
pub open spec fn with_breakpoint(
    extension: ExtensionView,
    prev: Option<ChainId>,
    next: Option<ChainId>,
) -> ExtensionView {
    if breaks_round(prev, next) {
        ExtensionView {
            breakpoints: extension.breakpoints.push(extension.messages.len() as u32),
            ..extension
        }
    } else {
        extension
    }
}

impl ExposedExt for StackExtension {
    fn call(
        &self,
        gas_limit: Weight,
        abi: AbiReplies,
        input_data: Vec<u8>,
        output_data: Option<&Result<Vec<u8>, ExecError>>,
    ) -> (message: Result<GatewayCall, &'static str>)
        ensures
            call_message_made(
                self@,
                gas_limit,
                abi,
                input_data,
                seq![],
                seq![],
                output_data,
                message,
            ),
    {
        self.produce_call_message(
            gas_limit,
            abi,
            input_data,
            Vec::new(),
            Vec::new(),
            output_data,
        )
    }

    fn call_module(
        &self,
        gas_limit: Weight,
        abi: AbiReplies,
        input_data: Vec<u8>,
        output_data: Option<&Result<Vec<u8>, ExecError>>,
    ) -> (message: Result<GatewayCall, &'static str>)
        ensures
            named_call_message_made(self@, gas_limit, abi, input_data, output_data, message),
    {
        let (module_name, method_name) = match take_method_names_from_input(&input_data) {
            Ok(names) => names,
            Err(text) => return Err(text),
        };
        self.produce_call_message(
            gas_limit,
            abi,
            input_data,
            module_name,
            method_name,
            output_data,
        )
    }

    fn transfer(&self, abi: AbiReplies) -> (message: Result<GatewayTransfer, &'static str>)
        ensures
            match abi_failure(abi) {
                Some(text) => message == Err::<GatewayTransfer, &'static str>(text),
                None => message matches Ok(transfer) && is_gateway_transfer(self@, transfer, abi),
            },
    {
        let escrow_account: Vec<u8> = match abi.escrow {
            Ok(bytes) => bytes,
            Err(text) => return Err(text),
        };
        let requester_account: Vec<u8> = match abi.requester {
            Ok(bytes) => bytes,
            Err(text) => return Err(text),
        };
        let dest_account: Vec<u8> = match abi.dest {
            Ok(bytes) => bytes,
            Err(text) => return Err(text),
        };
        let value: Vec<u8> = match abi.value {
            Ok(bytes) => bytes,
            Err(text) => return Err(text),
        };
        Ok(
            GatewayTransfer {
                escrow_account,
                requester_account,
                dest_account,
                value,
                gateway_type: self.gateway_pointer.gateway_type.clone(),
            },
        )
    }

    fn get_storage(&self, key: &StorageKey) -> (message: GatewayRead)
        ensures
            is_gateway_read(self@, *key, message),
    {
        GatewayRead {
            key: encode_array(key),
            gateway_type: self.gateway_pointer.gateway_type.clone(),
        }
    }

    fn set_storage(&self, key: &StorageKey, value: Option<Vec<u8>>) -> (message: GatewayWrite)
        ensures
            is_gateway_write(self@, *key, value, message),
    {
        GatewayWrite {
            key: encode_array(key),
            value,
            gateway_type: self.gateway_pointer.gateway_type.clone(),
        }
    }

    fn add_message(&mut self, message: Vec<u8>)
        ensures
            final(self)@ == with_message(old(self)@, message),
    {
        self.constructed_outbound_messages.push(message);
    }

    /// The execution is broken where the next target is another one than the previous. It is not
    /// where one of them is this chain: that can still be evaluated here.
    fn maybe_round_breakpoint(
        &mut self,
        maybe_prev_target_id: Option<ChainId>,
        maybe_new_target_id: Option<ChainId>,
    )
        ensures
            final(self)@ == with_breakpoint(
                old(self)@,
                maybe_prev_target_id,
                maybe_new_target_id,
            ),
    {
        match (maybe_prev_target_id, maybe_new_target_id) {
            (Some(prev_target_id), Some(new_target_id)) => {
                if !same_bytes(&prev_target_id, &new_target_id) {
                    let current_message_no: usize = self.constructed_outbound_messages.len();
                    self.round_breakpoints.push(current_message_no as u32);
                }
            },
            (_, _) => {},
        }
    }

    fn get_escrow_account(&self) -> (account: AccountId)
        ensures
            account == self.escrow_account,
    {
        self.escrow_account
    }

    fn get_requester(&self) -> (account: AccountId)
        ensures
            account == self.requester,
    {
        self.requester
    }

    fn get_target_id(&self) -> (id: ChainId)
        ensures
            id == self.gateway_pointer.id,
    {
        self.gateway_pointer.id
    }
}

} // verus!
