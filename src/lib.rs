//! Compaction of a batch of instructions into one compiled transaction: a
//! deduplicated account table ordered by privilege class, instructions that
//! refer to accounts by table index, and the trailing account list that a
//! dispatcher attaches when the transaction is replayed.

pub mod account;
pub mod compile;
pub mod discriminator;
pub mod error;
pub mod index;
pub mod laws;
pub mod merge;
pub mod order;
pub mod storage;
pub mod task;

pub use account::{AccountMeta, Instruction, PriorityClass, Pubkey};
pub use compile::{compile_transaction, CompiledInstructionV0, CompiledTransactionV0};
pub use error::CompileError;
pub use storage::{CodecError, Serializer, Storage, StorageError};
pub use task::{QueueTaskArgsV0, TransactionSourceV0, TriggerV0};
