//! The plain values that the call stack works on.
use vstd::prelude::*;

verus! {

/// An account of the runtime, in its raw form.
pub type AccountId = [u8; 32];

/// The identifier of a chain that can be reached through a gateway.
pub type ChainId = [u8; 4];

/// The output of the runtime's hash function.
pub type Digest = [u8; 32];

/// The hash under which a contract's code is stored.
pub type CodeHash = [u8; 32];

/// A key into the storage of one contract.
pub type StorageKey = [u8; 32];

/// The identifier of the child trie that holds a contract's storage.
pub type TrieId = [u8; 32];

/// An amount of the runtime's currency.
pub type Balance = u128;

/// An amount of execution resources.
pub type Weight = u64;

/// A point in time, as the runtime counts it.
pub type Moment = u64;

/// The number of a block.
pub type BlockNumber = u64;

/// Whether two byte arrays hold the same bytes.
pub fn same_bytes<const N: usize>(a: &[u8; N], b: &[u8; N]) -> (same: bool)
    ensures
        same == (*a == *b),
{
    let mut i: usize = 0;
    while i < N
        invariant
            i <= N,
            forall|j: int| 0 <= j < i ==> a[j] == b[j],
        decreases N - i,
    {
        if a[i] != b[i] {
            return false;
        }
        i = i + 1;
    }
    assert(*a =~= *b);
    true
}

/// The ways in which the execution layer refuses an operation.
#[derive(Clone, Copy, Debug, PartialEq, Eq)]
pub enum Error {
    /// Storage holds nothing for the account that was called.
    ContractNotFound,
    /// The account that was called holds only the tombstone of an evicted contract.
    ContractIsTombstone,
    /// The call stack already holds as many frames as it may.
    MaxCallDepthReached,
    /// A contract removed itself while its constructor was running.
    TerminatedInConstructor,
    /// A contract that is on the call stack more than once can neither remove itself nor be given
    /// up for another one.
    TerminatedWhileReentrant,
    /// The transfer would leave a contract with less than it needs to subsist.
    BelowSubsistenceThreshold,
    /// The currency refused the transfer.
    TransferFailed,
    /// The endowment of a new contract is below the subsistence threshold.
    NewContractNotFunded,
    /// The contract does not allow to be entered again right now.
    ReentranceDenied,
    /// No description was loaded for the action that a contract performs.
    TargetActionDescNotFound,
    /// The gas meter holds less than was asked for.
    OutOfGas,
}

/// An error as it is handed to whoever started the execution.
#[derive(Debug, PartialEq, Eq)]
pub enum DispatchError {
    /// An error of this library.
    Module(Error),
    /// An error that is described by a text alone.
    Other(&'static str),
    /// An error of the surrounding runtime, in the runtime's own encoding.
    Runtime(Vec<u8>),
}

/// The outcome of an operation that returns nothing but its success.
pub type DispatchResult = Result<(), DispatchError>;

/// Where an error came up, as seen from the contract that receives it.
#[derive(Clone, Copy, Debug, PartialEq, Eq)]
pub enum ErrorOrigin {
    /// The operation failed before the called code was run.
    Caller,
    /// The called code itself failed.
    Callee,
}

/// An error together with the place where it came up.
#[derive(Debug, PartialEq, Eq)]
pub struct ExecError {
    /// What went wrong.
    pub error: DispatchError,
    /// Where it went wrong.
    pub origin: ErrorOrigin,
}

/// The error of an operation that failed on the caller's side.
pub open spec fn caller_error(error: DispatchError) -> ExecError {
    ExecError { error, origin: ErrorOrigin::Caller }
}

/// The error of an operation that this library refused on the caller's side.
pub open spec fn refusal(error: Error) -> ExecError {
    caller_error(DispatchError::Module(error))
}

impl ExecError {
    /// An error that came up on the caller's side.
    pub fn caller(error: DispatchError) -> (e: ExecError)
        ensures
            e == caller_error(error),
    {
        ExecError { error, origin: ErrorOrigin::Caller }
    }

    /// A refusal of this library, on the caller's side.
    pub fn refused(error: Error) -> (e: ExecError)
        ensures
            e == refusal(error),
    {
        ExecError { error: DispatchError::Module(error), origin: ErrorOrigin::Caller }
    }
}

/// What a contract says about the data that it returns.
#[derive(Clone, Copy, Debug, PartialEq, Eq)]
pub struct ReturnFlags {
    /// All changes that the execution made are to be rolled back.
    pub revert: bool,
    /// The call is for another chain and was not executed here.
    pub foreign_target: bool,
}

impl ReturnFlags {
    /// No flag at all.
    pub fn empty() -> (flags: ReturnFlags)
        ensures
            flags == (ReturnFlags { revert: false, foreign_target: false }),
    {
        ReturnFlags { revert: false, foreign_target: false }
    }
}

/// The data that a contract returned.
#[derive(Debug, PartialEq, Eq)]
pub struct ExecReturnValue {
    /// What the contract says about the data.
    pub flags: ReturnFlags,
    /// The data itself.
    pub data: Vec<u8>,
}

impl ExecReturnValue {
    /// Whether the changes that the execution made are to be kept.
    pub fn is_success(&self) -> (success: bool)
        ensures
            success == !self.flags.revert,
    {
        !self.flags.revert
    }
}

/// The outcome of an execution.
pub type ExecResult = Result<ExecReturnValue, ExecError>;

/// Whether an execution keeps its changes.
pub open spec fn keeps_changes(output: ExecResult) -> bool {
    output matches Ok(value) && !value.flags.revert
}

/// The value by which a call for another chain is answered.
pub open spec fn is_foreign_reply(output: ExecResult, data: Seq<u8>) -> bool {
    &&& output matches Ok(value)
    &&& value.flags == (ReturnFlags { revert: false, foreign_target: true })
    &&& value.data@ == data
}

/// Answers a call that is meant for another chain.
pub fn foreign_reply(data: Vec<u8>) -> (output: ExecResult)
    ensures
        is_foreign_reply(output, data@),
{
    Ok(ExecReturnValue { flags: ReturnFlags { revert: false, foreign_target: true }, data })
}

/// What a contract asks of the call that it makes.
#[derive(Clone, Copy, Debug, PartialEq, Eq)]
pub struct CallFlags {
    /// The input starts with the names of the module and the method to dispatch to.
    pub module_dispatch: bool,
}

/// What the execution is for.
#[derive(Clone, Copy, Debug, PartialEq, Eq)]
pub enum RunMode {
    /// Calls are collected, not made.
    Dry,
    /// Calls are made, locally or by messages to other chains.
    Pre,
    /// The replies of other chains are worked in. There are no calls in this mode.
    Post,
}

/// The limits of a schedule.
#[derive(Clone, Copy, Debug, PartialEq, Eq)]
pub struct Limits {
    /// The greatest length of a storage item.
    pub payload_len: u32,
}

/// The cost schedule of an execution.
#[derive(Clone, Copy, Debug, PartialEq, Eq)]
pub struct Schedule {
    /// The limits that hold for the execution.
    pub limits: Limits,
}

/// What is known of a contract that can be called.
#[derive(Clone, Copy, Debug, PartialEq, Eq)]
pub struct AliveContractInfo {
    /// The child trie that holds the contract's storage.
    pub trie_id: TrieId,
    /// The number of bytes that the contract's storage takes.
    pub storage_size: u32,
    /// The code of the contract.
    pub code_hash: CodeHash,
    /// The greatest amount that the contract is willing to pay as rent.
    pub rent_allowance: Balance,
}

/// What storage holds for the account of a contract.
#[derive(Clone, Copy, Debug, PartialEq, Eq)]
pub enum ContractInfo {
    /// A contract that can be called.
    Alive(AliveContractInfo),
    /// What is left of an evicted contract.
    Tombstone(Digest),
}

impl ContractInfo {
    /// The contract, if it can be called.
    pub open spec fn alive(self) -> Option<AliveContractInfo> {
        match self {
            ContractInfo::Alive(info) => Some(info),
            ContractInfo::Tombstone(_) => None,
        }
    }

    /// The contract, if it can be called.
    pub fn get_alive(self) -> (info: Option<AliveContractInfo>)
        ensures
            info == self.alive(),
    {
        match self {
            ContractInfo::Alive(info) => Some(info),
            ContractInfo::Tombstone(_) => None,
        }
    }
}

/// What the execution layer reports to the outside.
#[derive(Debug, PartialEq, Eq)]
pub enum Event {
    /// The first account created the contract at the second.
    Instantiated(AccountId, AccountId),
    /// The contract at the first account was removed in favour of the second.
    Terminated(AccountId, AccountId),
    /// A contract emitted data, for an escrow account and a requester.
    VolatileVMEmitted(AccountId, AccountId, Vec<u8>),
}

/// A change of the runtime's state that the call stack asks for.
///
/// A list of effects is to be performed in its order.
#[derive(Debug, PartialEq, Eq)]
pub enum Effect {
    /// Open a storage transaction inside of those that are open.
    BeginTransaction,
    /// Close the innermost transaction and keep what was done in it.
    CommitTransaction,
    /// Close the innermost transaction and undo what was done in it.
    RollbackTransaction,
    /// Charge the account of a contract with the rent that is due for its storage. The number says
    /// how many bytes of code the contract pays for.
    ChargeRent(AccountId, u32),
    /// Store the contract under its account.
    InsertContract(AccountId, AliveContractInfo),
    /// Remove what is stored for the account.
    RemoveContract(AccountId),
    /// Store the number of the last account that was created.
    SetAccountCounter(u64),
    /// Report an event.
    DepositEvent(Event),
    /// Report an event under the given topics.
    DepositIndexedEvent(Vec<Digest>, Event),
}

/// Whether an account may disappear when it is debited.
#[derive(Clone, Copy, Debug, PartialEq, Eq)]
pub enum ExistenceRequirement {
    /// The account must stay.
    KeepAlive,
    /// The account may disappear.
    AllowDeath,
}

/// A transfer that the currency is asked to make.
#[derive(Clone, Copy, Debug, PartialEq, Eq)]
pub struct TransferRequest {
    /// The account to debit.
    pub from: AccountId,
    /// The account to credit.
    pub to: AccountId,
    /// The amount.
    pub value: Balance,
    /// Whether the debited account may disappear.
    pub existence: ExistenceRequirement,
}

/// What has to be known of the sender's funds to decide on a transfer.
#[derive(Clone, Copy, Debug, PartialEq, Eq)]
pub struct Funds {
    /// The total balance of the sender.
    pub total_balance: Balance,
    /// What a contract needs to subsist.
    pub subsistence_threshold: Balance,
}

} // verus!
