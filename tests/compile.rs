use tx_compiler::account::get_priority;
use tx_compiler::compile::{compile_instruction, remaining_accounts};
use tx_compiler::index::AccountIndex;
use tx_compiler::merge::merge_accounts;
use tx_compiler::order::sort_by_priority;
use tx_compiler::{
    compile_transaction, AccountMeta, CompileError, CompiledTransactionV0, Instruction,
    PriorityClass, Pubkey,
};

fn key(n: u8) -> Pubkey {
    Pubkey::new([n; 32])
}

fn key2(a: u8, b: u8) -> Pubkey {
    let mut bytes = [0u8; 32];
    bytes[0] = a;
    bytes[1] = b;
    Pubkey::new(bytes)
}

fn meta(pubkey: Pubkey, is_signer: bool, is_writable: bool) -> AccountMeta {
    AccountMeta { pubkey, is_signer, is_writable }
}

fn ix(program_id: Pubkey, accounts: Vec<AccountMeta>, data: Vec<u8>) -> Instruction {
    Instruction { program_id, accounts, data }
}

fn compile(ixs: Vec<Instruction>) -> (CompiledTransactionV0, Vec<AccountMeta>) {
    compile_transaction(ixs, vec![]).expect("compiles")
}

fn assert_indices_valid(tx: &CompiledTransactionV0) {
    let n = tx.accounts.len();
    for cix in &tx.instructions {
        assert!((cix.program_id_index as usize) < n);
        for &a in &cix.accounts {
            assert!((a as usize) < n);
        }
    }
}

#[test]
fn shared_accounts_in_different_orders() {
    let p = key(1);
    let x = key(2);
    let y = key(3);
    let ixs = vec![
        ix(p, vec![meta(x, true, true), meta(y, false, false)], vec![1]),
        ix(p, vec![meta(y, false, false), meta(x, true, true)], vec![2]),
    ];
    let (tx, remaining) = compile(ixs);
    assert_eq!(tx.accounts, vec![x, p, y]);
    assert_eq!(tx.num_rw_signers, 1);
    assert_eq!(tx.num_ro_signers, 0);
    assert_eq!(tx.num_rw, 0);
    let y_pos = tx.accounts.iter().position(|k| *k == y).unwrap();
    assert!(y_pos >= 1);
    assert_eq!(tx.instructions[0].program_id_index, 1);
    assert_eq!(tx.instructions[0].accounts, vec![0, 2]);
    assert_eq!(tx.instructions[1].accounts, vec![2, 0]);
    assert_eq!(tx.instructions[1].data, vec![2]);
    assert_eq!(
        remaining,
        vec![meta(x, false, true), meta(p, false, false), meta(y, false, false)]
    );
}

#[test]
fn repeated_reference_merges_writable() {
    let p = key(1);
    let z = key(9);
    let ixs = vec![ix(p, vec![meta(z, false, true), meta(z, false, false)], vec![])];
    let merged = merge_accounts(&ixs);
    assert_eq!(merged, vec![meta(p, false, false), meta(z, false, true)]);
    let (tx, remaining) = compile(ixs);
    assert_eq!(tx.accounts, vec![z, p]);
    assert_eq!(tx.num_rw, 1);
    assert_eq!(tx.instructions[0].accounts, vec![0, 0]);
    assert!(remaining[0].is_writable);
}

#[test]
fn empty_batch_is_refused() {
    let r = compile_transaction(vec![], vec![vec![vec![1, 2]]]);
    assert_eq!(r, Err(CompileError::EmptyInput));
}

#[test]
fn forty_writable_accounts() {
    let p = key(200);
    let ixs: Vec<Instruction> =
        (0..40u8).map(|i| ix(p, vec![meta(key(i), false, true)], vec![i])).collect();
    let (tx, remaining) = compile(ixs);
    assert_eq!(tx.num_rw, 40);
    assert_eq!(tx.num_rw_signers, 0);
    assert_eq!(tx.num_ro_signers, 0);
    assert_eq!(tx.accounts.len(), 41);
    assert_eq!(tx.instructions.len(), 40);
    assert_indices_valid(&tx);
    for i in 0..40usize {
        assert_eq!(tx.accounts[i], key(i as u8));
        assert_eq!(tx.instructions[i].accounts, vec![i as u8]);
        assert_eq!(tx.instructions[i].program_id_index, 40);
        assert!(remaining[i].is_writable);
    }
    assert_eq!(tx.accounts[40], p);
    assert!(!remaining[40].is_writable);
}

#[test]
fn table_holds_each_address_once() {
    let p = key(1);
    let q = key(2);
    let a = key(3);
    let ixs = vec![
        ix(p, vec![meta(a, false, false), meta(q, false, false)], vec![]),
        ix(q, vec![meta(p, false, false), meta(a, false, false)], vec![]),
    ];
    let (tx, _) = compile(ixs);
    assert_eq!(tx.accounts, vec![p, a, q]);
}

#[test]
fn classes_are_contiguous_and_ordered() {
    let p = key(1);
    let ro = key(2);
    let rw = key(3);
    let ros = key(4);
    let rws = key(5);
    let ixs = vec![ix(
        p,
        vec![
            meta(ro, false, false),
            meta(rw, false, true),
            meta(ros, true, false),
            meta(rws, true, true),
        ],
        vec![],
    )];
    let (tx, remaining) = compile(ixs);
    assert_eq!(tx.accounts, vec![rws, ros, rw, p, ro]);
    assert_eq!((tx.num_rw_signers, tx.num_ro_signers, tx.num_rw), (1, 1, 1));
    let writable: Vec<bool> = remaining.iter().map(|m| m.is_writable).collect();
    assert_eq!(writable, vec![true, false, true, false, false]);
    assert!(remaining.iter().all(|m| !m.is_signer));
    assert_eq!(tx.instructions[0].accounts, vec![4, 2, 1, 0]);
    assert_eq!(tx.instructions[0].program_id_index, 3);
}

#[test]
fn flags_merge_across_instructions() {
    let p = key(1);
    let a = key(2);
    let ixs = vec![
        ix(p, vec![meta(a, true, false)], vec![]),
        ix(p, vec![meta(a, false, true)], vec![]),
    ];
    let (tx, _) = compile(ixs);
    assert_eq!(tx.accounts, vec![a, p]);
    assert_eq!(tx.num_rw_signers, 1);
}

#[test]
fn target_referenced_as_account_keeps_its_flags() {
    let p = key(1);
    let ixs = vec![ix(p, vec![meta(p, true, true)], vec![])];
    let (tx, _) = compile(ixs);
    assert_eq!(tx.accounts, vec![p]);
    assert_eq!(tx.num_rw_signers, 1);
    assert_eq!(tx.instructions[0].program_id_index, 0);
    assert_eq!(tx.instructions[0].accounts, vec![0]);
}

#[test]
fn compiling_twice_gives_the_same_result() {
    let build = || {
        vec![
            ix(key(7), vec![meta(key(3), true, false), meta(key(4), false, true)], vec![5, 6]),
            ix(key(8), vec![meta(key(4), true, true), meta(key(9), false, false)], vec![7]),
        ]
    };
    let seeds = vec![vec![b"payer".to_vec(), vec![254]]];
    let first = compile_transaction(build(), seeds.clone());
    let second = compile_transaction(build(), seeds.clone());
    assert_eq!(first, second);
    assert_eq!(first.unwrap().0.signer_seeds, seeds);
}

#[test]
fn too_many_writable_signers_overflow() {
    let p = key2(0, 1);
    let accounts: Vec<AccountMeta> = (0..=255u8).map(|i| meta(key2(i, 0), true, true)).collect();
    let r = compile_transaction(vec![ix(p, accounts, vec![])], vec![]);
    assert_eq!(r, Err(CompileError::Overflow));
}

#[test]
fn too_many_accounts_overflow() {
    let p = key2(0, 1);
    let mut accounts: Vec<AccountMeta> =
        (0..=255u8).map(|i| meta(key2(i, 0), false, false)).collect();
    accounts.push(meta(key2(0, 2), false, false));
    let r = compile_transaction(vec![ix(p, accounts, vec![])], vec![]);
    assert_eq!(r, Err(CompileError::Overflow));
}

#[test]
fn largest_table_compiles() {
    let p = key2(0, 1);
    let accounts: Vec<AccountMeta> =
        (0..255u8).map(|i| meta(key2(i, 0), false, false)).collect();
    let (tx, remaining) = compile(vec![ix(p, accounts, vec![])]);
    assert_eq!(tx.accounts.len(), 256);
    assert_eq!(remaining.len(), 256);
    assert_eq!(tx.instructions[0].program_id_index, 0);
    assert_eq!(tx.instructions[0].accounts[254], 255);
    assert_indices_valid(&tx);
}

#[test]
fn sorting_is_stable_within_a_class() {
    let entries = vec![
        meta(key(1), false, false),
        meta(key(2), false, true),
        meta(key(3), false, false),
        meta(key(4), false, true),
        meta(key(5), true, false),
    ];
    let (table, n0, n1, n2) = sort_by_priority(&entries);
    assert_eq!(table, vec![key(5), key(2), key(4), key(1), key(3)]);
    assert_eq!((n0, n1, n2), (0, 1, 2));
}

#[test]
fn priority_of_each_flag_pair() {
    assert_eq!(get_priority(&meta(key(1), true, true)), PriorityClass::RwSigner);
    assert_eq!(get_priority(&meta(key(1), true, false)), PriorityClass::RoSigner);
    assert_eq!(get_priority(&meta(key(1), false, true)), PriorityClass::Rw);
    assert_eq!(get_priority(&meta(key(1), false, false)), PriorityClass::RoOrNone);
}

#[test]
fn duplicate_table_entry_is_refused() {
    let r = AccountIndex::new(vec![key(1), key(2), key(1)]);
    assert!(matches!(r, Err(CompileError::DuplicateIdentity)));
}

#[test]
fn oversized_table_is_refused() {
    let table: Vec<Pubkey> = (0..=256u16).map(|i| key2((i % 256) as u8, (i / 256) as u8)).collect();
    let r = AccountIndex::new(table);
    assert!(matches!(r, Err(CompileError::Overflow)));
}

#[test]
fn missing_address_is_an_invalid_reference() {
    let index = AccountIndex::new(vec![key(1), key(2)]).ok().unwrap();
    assert_eq!(index.index_of(&key(2)), Ok(1));
    assert_eq!(index.index_of(&key(3)), Err(CompileError::InvalidReference));
    let r = compile_instruction(&index, &ix(key(1), vec![meta(key(3), false, false)], vec![]));
    assert_eq!(r, Err(CompileError::InvalidReference));
    let c = compile_instruction(&index, &ix(key(2), vec![meta(key(1), false, false)], vec![9]))
        .unwrap();
    assert_eq!(c.program_id_index, 1);
    assert_eq!(c.accounts, vec![0]);
    assert_eq!(c.data, vec![9]);
}

#[test]
fn remaining_accounts_follow_class_boundaries() {
    let table = vec![key(1), key(2), key(3), key(4), key(5), key(6)];
    let r = remaining_accounts(&table, 2, 1, 2, );
    let writable: Vec<bool> = r.iter().map(|m| m.is_writable).collect();
    assert_eq!(writable, vec![true, true, false, true, true, false]);
    assert!(r.iter().all(|m| !m.is_signer));
    let keys: Vec<Pubkey> = r.iter().map(|m| m.pubkey).collect();
    assert_eq!(keys, table);
}

#[test]
fn addresses_compare_by_bytes() {
    assert!(key(4).same_as(&key(4)));
    assert!(!key2(4, 0).same_as(&key2(4, 1)));
}
