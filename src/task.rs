use vstd::prelude::*;

use crate::account::{AccountMeta, Instruction, Pubkey};
use crate::compile::{
    compile_failure, compile_transaction, compiled_transaction, remaining_from,
    CompiledTransactionV0,
};
use crate::error::CompileError;

verus! {

/// When a queued task becomes runnable.
#[derive(Clone, Copy, Debug, PartialEq, Eq, Structural)]
pub enum TriggerV0 {
    Now,
    Timestamp(i64),
}

/// Where the executor finds the transaction a task runs.
#[derive(Clone, Debug, PartialEq, Eq)]
pub enum TransactionSourceV0 {
    CompiledV0(CompiledTransactionV0),
    RemoteV0 { url: String, signer: Pubkey },
}

/// The arguments of a request to queue a task.
#[derive(Clone, Debug, PartialEq, Eq)]
pub struct QueueTaskArgsV0 {
    pub id: u16,
    pub trigger: TriggerV0,
    pub transaction: TransactionSourceV0,
    pub crank_reward: Option<u64>,
    pub free_tasks: u8,
    pub description: String,
}

/// Compiles `instructions` and wraps the result in a request to queue it as
/// task `task_id`, with no crank reward and no free tasks. Also returns the
/// trailing account list the request must carry.
pub fn queue_compiled_task(
    task_id: u16,
    trigger: TriggerV0,
    instructions: Vec<Instruction>,
    signer_seeds: Vec<Vec<Vec<u8>>>,
    description: String,
) -> (r: Result<(QueueTaskArgsV0, Vec<AccountMeta>), CompileError>)
    ensures
        match r {
            Ok((args, remaining)) => {
                &&& compile_failure(instructions@) is None
                &&& args.id == task_id
                &&& args.trigger == trigger
                &&& args.crank_reward is None
                &&& args.free_tasks == 0
                &&& args.description == description
                &&& args.transaction is CompiledV0
                &&& compiled_transaction(instructions@, signer_seeds, args.transaction->CompiledV0_0)
                &&& remaining@ == remaining_from(
                    args.transaction->CompiledV0_0.accounts@,
                    args.transaction->CompiledV0_0.num_rw_signers as int,
                    args.transaction->CompiledV0_0.num_ro_signers as int,
                    args.transaction->CompiledV0_0.num_rw as int,
                )
            },
            Err(e) => compile_failure(instructions@) == Some(e),
        },
{
    match compile_transaction(instructions, signer_seeds) {
        Ok((tx, remaining)) => {
            let args = QueueTaskArgsV0 {
                id: task_id,
                trigger,
                transaction: TransactionSourceV0::CompiledV0(tx),
                crank_reward: None,
                free_tasks: 0,
                description,
            };
            Ok((args, remaining))
        },
        Err(e) => Err(e),
    }
}

} // verus!
