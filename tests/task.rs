use tx_compiler::discriminator::{discriminator_from_digest, instruction_discriminator};
use tx_compiler::task::queue_compiled_task;
use tx_compiler::{
    AccountMeta, CompileError, Instruction, Pubkey, TransactionSourceV0, TriggerV0,
};

#[test]
fn queued_task_carries_the_compiled_transaction() {
    let program = Pubkey::new([1; 32]);
    let payer = Pubkey::new([2; 32]);
    let ask = Instruction {
        program_id: program,
        accounts: vec![AccountMeta { pubkey: payer, is_signer: true, is_writable: true }],
        data: vec![3, 4],
    };
    let seeds = vec![vec![b"payer".to_vec(), vec![255]]];
    let (args, remaining) = queue_compiled_task(
        7,
        TriggerV0::Timestamp(1_700_000_000),
        vec![ask],
        seeds.clone(),
        "ask_gpt".to_string(),
    )
    .unwrap();
    assert_eq!(args.id, 7);
    assert_eq!(args.trigger, TriggerV0::Timestamp(1_700_000_000));
    assert_eq!(args.crank_reward, None);
    assert_eq!(args.free_tasks, 0);
    assert_eq!(args.description, "ask_gpt");
    match args.transaction {
        TransactionSourceV0::CompiledV0(tx) => {
            assert_eq!(tx.accounts, vec![payer, program]);
            assert_eq!(tx.num_rw_signers, 1);
            assert_eq!(tx.signer_seeds, seeds);
            assert_eq!(tx.instructions[0].data, vec![3, 4]);
        }
        TransactionSourceV0::RemoteV0 { .. } => panic!("expected a compiled transaction"),
    }
    assert_eq!(remaining.len(), 2);
    assert!(remaining[0].is_writable && !remaining[0].is_signer);
}

#[test]
fn queueing_nothing_is_refused() {
    let r = queue_compiled_task(1, TriggerV0::Now, vec![], vec![], "none".to_string());
    assert_eq!(r, Err(CompileError::EmptyInput));
}

#[test]
fn discriminators_of_known_instructions() {
    assert_eq!(instruction_discriminator(b"initialize"), [175, 175, 109, 31, 13, 152, 155, 237]);
    assert_eq!(instruction_discriminator(b"interact_with_llm"), [2, 54, 5, 16, 87, 123, 219, 132]);
    assert_eq!(instruction_discriminator(b"receive_response"), [112, 194, 55, 173, 6, 32, 61, 73]);
}

#[test]
fn discriminator_is_the_digest_prefix() {
    let mut digest = [0u8; 32];
    for (i, b) in digest.iter_mut().enumerate() {
        *b = i as u8 + 10;
    }
    assert_eq!(discriminator_from_digest(&digest), [10, 11, 12, 13, 14, 15, 16, 17]);
}
