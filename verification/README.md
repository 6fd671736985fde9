# volatile_vm

The call stack of a virtual machine for smart contracts that can call each other, instantiate each
other and send messages to other chains. The library decides what happens on every operation of a
contract, and proves what it decides with [Verus](https://github.com/verus-lang/verus).

It does not touch the runtime. What an operation has to know of storage, of balances or of a gateway
is handed in. What it changes there is handed out as a list of effects. An operation in the middle
of which code has to be executed, funds have to be transferred or a message has to be produced has
several steps.

## Layout

- `src/types.rs`: the plain values that everything else works on.
- `src/config.rs`: what depends on the configuration of the runtime.
- `src/gas.rs`: the meter from which executions are paid.
- `src/codec.rs`: encodings, and the identifier of an action.
- `src/executable.rs`: the code that is executed, and its environment.
- `src/frame.rs`: the entries of the call stack.
- `src/stack.rs`: the call stack: frames are made, pushed and popped, transfers are decided on.
- `src/run.rs`: how a frame is run.
- `src/ext.rs`: the operations of a contract.
- `src/extension.rs`: messages for other chains.
- `src/rent.rs`: what a contract can learn of its rent.
- `src/world.rs`: the state of the runtime, as far as effects change it.
- `src/coherence.rs`: what holds between the call stack and that state.
- `src/execution.rs`: what holds of whole executions.
- `src/laws.rs`: what holds of the call stack over several operations.
- `app/`: the machine on a runtime, built with `frame_support`.
- `tests/`: executions on a runtime that lives in memory, and tests of the parts.

## What is fixed

The depth of the call stack, the width of balances and the hash function are for the runtime to
choose, see `src/config.rs`. Balances of up to 128 bits are held in 128 bits and encoded in their own
width. The rest is fixed: accounts, storage keys, trie ids and digests have 32 bytes, identifiers of
chains have four, and weights, moments and block numbers are held in 64 bits. The hash function is
one of the two that `sp_runtime` has. A runtime with other accounts or another hash function cannot
use this library.

## What is proved

- Whatever is executed, every frame finds its contract, in its cache or in storage. This is proved
  where a new contract gets an account that is in use neither in storage nor on the call stack. Left
  out are a contract that goes on after it removed itself, and one that is made a second time while
  its own constructor runs.
- A run that fails leaves the runtime as it was when the run started: balances, entries of storage,
  contracts, the account counter and events. Every contract is what it was. Rent that was charged
  before, gas that was used and debug text stay.
- A call comes back to the frame that made it, with the defense of that contract down.
- A contract reads from its storage what it wrote there.
- A run that succeeds is seen by all frames of the same contract.
- Gas only moves between meters, except for what the loading of code costs.
- A contract with its defense up cannot be entered, and one under construction cannot be called.
