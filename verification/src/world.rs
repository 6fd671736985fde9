//! The state of the runtime, as far as executions change it.
use vstd::prelude::*;
use crate::types::{
    AccountId, AliveContractInfo, Balance, ContractInfo, Effect, Event, StorageKey, TrieId,
};

verus! {

/// What the runtime holds.
#[verifier::ext_equal]
pub struct State {
    /// What is stored for the accounts of contracts.
    pub contracts: Map<AccountId, ContractInfo>,
    /// The number of the last account that was created.
    pub account_counter: u64,
    /// The events that were reported.
    pub events: Seq<Event>,
    /// The balances of accounts.
    pub balances: Map<AccountId, Balance>,
    /// The entries in the storage of contracts, by child trie and key.
    pub entries: Map<(TrieId, StorageKey), Seq<u8>>,
}

/// What the runtime holds, and what it held when the open transactions were opened.
#[verifier::ext_equal]
pub struct World {
    /// What the runtime holds.
    pub state: State,
    /// What it goes back to where a transaction is rolled back, the innermost one last.
    pub saved: Seq<State>,
}

impl State {
    /// What is stored for an account.
    pub open spec fn stored(self, account_id: AccountId) -> Option<ContractInfo> {
        if self.contracts.contains_key(account_id) {
            Some(self.contracts[account_id])
        } else {
            None
        }
    }

    /// The entry in a child trie under a key.
    pub open spec fn entry(self, trie_id: TrieId, key: StorageKey) -> Option<Seq<u8>> {
        if self.entries.contains_key((trie_id, key)) {
            Some(self.entries[(trie_id, key)])
        } else {
            None
        }
    }

    /// The state after an entry was set, or deleted.
    pub open spec fn with_entry(
        self,
        trie_id: TrieId,
        key: StorageKey,
        value: Option<Seq<u8>>,
    ) -> State {
        State {
            entries: match value {
                Some(bytes) => self.entries.insert((trie_id, key), bytes),
                None => self.entries.remove((trie_id, key)),
            },
            ..self
        }
    }

    /// The contract that is stored for an account and can be called.
    pub open spec fn alive(self, account_id: AccountId) -> Option<AliveContractInfo> {
        match self.stored(account_id) {
            Some(contract) => contract.alive(),
            None => None,
        }
    }
}

/// The world after an effect was performed.
///
/// How much rent is due, the runtime alone knows. So the change of balances that comes with it is
/// not part of this.
pub open spec fn performed(world: World, effect: Effect) -> World {
    let state = world.state;
    match effect {
        Effect::BeginTransaction => World { saved: world.saved.push(state), ..world },
        Effect::CommitTransaction => World { saved: world.saved.drop_last(), ..world },
        Effect::RollbackTransaction => World {
            state: world.saved.last(),
            saved: world.saved.drop_last(),
        },
        Effect::ChargeRent(_, _) => world,
        Effect::InsertContract(account_id, info) => World {
            state: State {
                contracts: state.contracts.insert(account_id, ContractInfo::Alive(info)),
                ..state
            },
            ..world
        },
        Effect::RemoveContract(account_id) => World {
            state: State { contracts: state.contracts.remove(account_id), ..state },
            ..world
        },
        Effect::SetAccountCounter(account_counter) => World {
            state: State { account_counter, ..state },
            ..world
        },
        Effect::DepositEvent(event) => World {
            state: State { events: state.events.push(event), ..state },
            ..world
        },
        Effect::DepositIndexedEvent(_, event) => World {
            state: State { events: state.events.push(event), ..state },
            ..world
        },
    }
}

/// The world after a list of effects was performed in its order.
pub open spec fn performed_all(world: World, effects: Seq<Effect>) -> World
    decreases effects.len(),
{
    if effects.len() == 0 {
        world
    } else {
        performed_all(performed(world, effects[0]), effects.drop_first())
    }
}

/// Nothing is done where there is no effect.
pub proof fn lemma_performed_none(world: World)
    ensures
        performed_all(world, Seq::<Effect>::empty()) == world,
{
}

/// A single effect is performed as such.
pub proof fn lemma_performed_one(world: World, effect: Effect)
    ensures
        performed_all(world, seq![effect]) == performed(world, effect),
{
    assert(seq![effect].drop_first() =~= Seq::<Effect>::empty());
    lemma_performed_none(performed(world, effect));
}

/// Two lists of effects can be performed one after the other.
pub proof fn lemma_performed_append(world: World, first: Seq<Effect>, rest: Seq<Effect>)
    ensures
        performed_all(world, first + rest) == performed_all(performed_all(world, first), rest),
    decreases first.len(),
{
    if first.len() == 0 {
        assert(first + rest =~= rest);
    } else {
        assert((first + rest).drop_first() =~= first.drop_first() + rest);
        lemma_performed_append(performed(world, first[0]), first.drop_first(), rest);
    }
}

} // verus!
