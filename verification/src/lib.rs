//! The call stack of a virtual machine for smart contracts.
pub mod call_guarantees;
pub mod codec;
pub mod coherence;
pub mod config;
pub mod executable;
pub mod execution;
pub mod ext;
pub mod extension;
pub mod frame;
pub mod gas;
pub mod guarantees;
pub mod laws;
pub mod message_guarantees;
pub mod rent;
pub mod run;
pub mod stack;
pub mod types;
pub mod world;
