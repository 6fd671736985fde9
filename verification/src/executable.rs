//! The code that is executed, and the environment that it is executed in.
use vstd::prelude::*;
use crate::gas::GasMeter;
use crate::types::{
    AccountId, Balance, BlockNumber, CallFlags, ChainId, CodeHash, Digest, DispatchError,
    DispatchResult, ExecError, ExecResult, ExecReturnValue, Moment, Schedule, StorageKey, Weight,
};

verus! {

/// The functions that an [`Executable`] can export.
#[derive(Clone, Copy, Debug, PartialEq, Eq, Structural)]
pub enum ExportedFunction {
    /// The constructor function which is executed on deployment of a contract.
    Constructor,
    /// The function which is executed when a contract is called.
    Call,
}

/// The environment of a contract that is being executed.
///
/// All operations are performed on behalf of the account of the executing code.
pub trait Ext {
    /// Calls into the given account, locally or by a message to another chain.
    fn call(
        &mut self,
        gas_limit: Weight,
        to: AccountId,
        value: Balance,
        input_data: Vec<u8>,
        flags: CallFlags,
        allows_reentry: bool,
    ) -> ExecResult;

    /// Calls into the given account of this chain.
    fn regular_call(
        &mut self,
        gas_limit: Weight,
        to: AccountId,
        value: Balance,
        input_data: Vec<u8>,
        allows_reentry: bool,
    ) -> ExecResult;

    /// Calls into an account of another chain, by a message.
    fn call_produce_messages_instead(
        &mut self,
        gas_limit: Weight,
        to: AccountId,
        value: Balance,
        input_data: Vec<u8>,
        flags: CallFlags,
        target_id: ChainId,
    ) -> ExecResult;

    /// Instantiates a contract from the given code.
    ///
    /// `value` is what the new account is endowed with.
    fn instantiate(
        &mut self,
        gas_limit: Weight,
        code: CodeHash,
        value: Balance,
        input_data: Vec<u8>,
        salt: &[u8],
    ) -> Result<(AccountId, ExecReturnValue), ExecError>;

    /// Transfers all funds to `beneficiary` and deletes the contract.
    ///
    /// This fails if the contract is on the call stack more than once.
    fn terminate(&mut self, beneficiary: &AccountId) -> DispatchResult;

    /// Restores the given destination contract sacrificing the current one.
    ///
    /// This fails if the contract is on the call stack more than once.
    fn restore_to(
        &mut self,
        dest: AccountId,
        code_hash: CodeHash,
        rent_allowance: Balance,
        delta: Vec<StorageKey>,
    ) -> DispatchResult;

    /// Transfers some amount of funds into the specified account.
    fn transfer(&mut self, to: &AccountId, value: Balance) -> DispatchResult;

    /// The storage entry of the executing account under the given key.
    fn get_storage(&mut self, key: &StorageKey) -> Option<Vec<u8>>;

    /// Sets the storage entry under the given key, or deletes it.
    fn set_storage(&mut self, key: StorageKey, value: Option<Vec<u8>>) -> DispatchResult;

    /// The account of the caller.
    fn caller(&self) -> &AccountId;

    /// The account of the executing contract.
    fn address(&self) -> &AccountId;

    /// The balance of the executing contract.
    fn balance(&self) -> Balance;

    /// The value transferred along with this call or as endowment.
    fn value_transferred(&self) -> Balance;

    /// The timestamp of the current block.
    fn now(&self) -> &Moment;

    /// The balance that an account needs to exist.
    fn minimum_balance(&self) -> Balance;

    /// The deposit required to create a tombstone upon contract eviction.
    fn tombstone_deposit(&self) -> Balance;

    /// A random number for the current block with the given subject.
    fn random(&self, subject: &[u8]) -> (Digest, BlockNumber);

    /// Deposits an event with the given topics.
    fn deposit_event(&mut self, topics: Vec<Digest>, data: Vec<u8>);

    /// Sets the rent allowance of the contract.
    fn set_rent_allowance(&mut self, rent_allowance: Balance);

    /// The rent allowance of the contract.
    fn rent_allowance(&mut self) -> Balance;

    /// The current block number.
    fn block_number(&self) -> BlockNumber;

    /// The maximum allowed size of a storage item.
    fn max_value_size(&self) -> u32;

    /// The price for the specified amount of weight.
    fn get_weight_price(&self, weight: Weight) -> Balance;

    /// The schedule used by the current call.
    fn schedule(&self) -> &Schedule;

    /// The nested gas meter.
    fn gas_meter(&mut self) -> &mut GasMeter;

    /// Appends a string to the debug buffer.
    ///
    /// Returns whether debug message recording is enabled.
    fn append_debug_buffer(&mut self, msg: &str) -> bool;
}

/// Something that can be executed.
///
/// The specification functions are for an implementation to choose. They give a name to what its
/// methods do, so that the contracts of the call stack can speak of it. What an implementation does
/// not choose stays open.
pub trait Executable: Sized {
    /// What loading may do: from the hash, the schedule and the meter before, to the meter after
    /// and the outcome.
    open spec fn loads(
        code_hash: CodeHash,
        schedule: Schedule,
        before: GasMeter,
        after: GasMeter,
        outcome: Result<Self, DispatchError>,
    ) -> bool {
        true
    }

    /// What the removal of a user may do: from the hash and the meter before, to the meter after
    /// and the outcome.
    open spec fn loses_user(
        code_hash: CodeHash,
        before: GasMeter,
        after: GasMeter,
        outcome: DispatchResult,
    ) -> bool {
        true
    }

    /// The sum of instrumented and pristine code length.
    open spec fn aggregate_len(&self) -> u32 {
        arbitrary()
    }

    /// The number of contracts that use the executable.
    open spec fn users(&self) -> u32 {
        arbitrary()
    }

    /// The chain on which the executable has to run, if it is not this one.
    open spec fn target(&self) -> Option<ChainId> {
        arbitrary()
    }

    /// Loads the executable from storage.
    ///
    /// Charges size base load and instrumentation weight from the gas meter.
    fn from_storage(
        code_hash: CodeHash,
        schedule: &Schedule,
        gas_meter: &mut GasMeter,
    ) -> (outcome: Result<Self, DispatchError>)
        ensures
            Self::loads(code_hash, *schedule, *old(gas_meter), *final(gas_meter), outcome),
    ;

    /// Loads the executable from storage without instrumenting it again.
    fn from_storage_noinstr(code_hash: CodeHash) -> Result<Self, DispatchError>;

    /// Decrements the number of users by one and deletes the code if it drops to zero.
    fn drop_from_storage(self);

    /// Increments the number of users by one. Fails if the code does not exist.
    fn add_user(code_hash: CodeHash, gas_meter: &mut GasMeter) -> DispatchResult;

    /// Decrements the number of users by one and removes the code when it drops to zero.
    fn remove_user(code_hash: CodeHash, gas_meter: &mut GasMeter) -> (outcome: DispatchResult)
        ensures
            Self::loses_user(code_hash, *old(gas_meter), *final(gas_meter), outcome),
    ;

    /// Executes the specified exported function and returns the result.
    fn execute<E: Ext>(
        self,
        ext: &mut E,
        function: &ExportedFunction,
        input_data: Vec<u8>,
    ) -> ExecResult;

    /// The hash of the code.
    fn code_hash(&self) -> &CodeHash;

    /// The size of the instrumented code in bytes.
    fn code_len(&self) -> u32;

    /// The sum of instrumented and pristine code length.
    fn aggregate_code_len(&self) -> (len: u32)
        ensures
            len == self.aggregate_len(),
    ;

    /// The number of contracts that use the executable.
    fn refcount(&self) -> (count: u32)
        ensures
            count == self.users(),
    ;

    /// The storage that is occupied by the instrumented code and its pristine source, divided
    /// among the contracts that share it.
    fn occupied_storage(&self) -> (size: u32)
        ensures
            size == shared_size(self.aggregate_len(), self.users()),
    {
        // The size of the struct itself is disregarded: the code dominates it.
        share_of(self.aggregate_code_len(), self.refcount())
    }

    /// The chain on which the executable has to run, if it is not this one.
    fn get_current_target(&self) -> (target: Option<ChainId>)
        ensures
            target == self.target(),
    ;
}

/// One user's share of a size: all of it where there is no user.
pub open spec fn shared_size(len: u32, users: u32) -> u32 {
    if users == 0 {
        len
    } else {
        len / users
    }
}

/// One user's share of a size: all of it where there is no user.
pub fn share_of(len: u32, users: u32) -> (size: u32)
    ensures
        size == shared_size(len, users),
{
    if users == 0 {
        len
    } else {
        len / users
    }
}

} // verus!
