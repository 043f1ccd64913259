use vstd::prelude::*;

use crate::account::{AccountMeta, Instruction, PriorityClass, Pubkey};
use crate::error::CompileError;
use crate::index::{AccountIndex, MAX_ACCOUNTS};
use crate::merge::{
    all_refs, first_seen, instruction_refs, lemma_first_seen, mentions, merge_accounts, merged,
};
use crate::order::{
    class_keys, distinct_keys, has_key, lemma_sorted_table, sort_by_priority, sorted_table,
};

verus! {

/// One instruction rewritten against the account table.
#[derive(Clone, Debug, PartialEq, Eq, Default)]
pub struct CompiledInstructionV0 {
    pub program_id_index: u8,
    pub accounts: Vec<u8>,
    pub data: Vec<u8>,
}

/// A batch of instructions sharing one account table. The table holds the
/// read-write signers first, then the read-only signers, then the read-write
/// non-signers, then the rest; the three counts mark those boundaries.
#[derive(Clone, Debug, PartialEq, Eq, Default)]
pub struct CompiledTransactionV0 {
    pub num_rw_signers: u8,
    pub num_ro_signers: u8,
    pub num_rw: u8,
    pub accounts: Vec<Pubkey>,
    pub instructions: Vec<CompiledInstructionV0>,
    pub signer_seeds: Vec<Vec<Vec<u8>>>,
}

/// The account table of a batch: its merged entries sorted by class.
pub open spec fn table_of(ixs: Seq<Instruction>) -> Seq<Pubkey> {
    sorted_table(merged(all_refs(ixs)))
}

/// How many distinct accounts of the batch fall in class `c`.
pub open spec fn class_count(ixs: Seq<Instruction>, c: PriorityClass) -> nat {
    class_keys(merged(all_refs(ixs)), c).len()
}

/// The three stored class counts fit in a byte, and so does every position.
pub open spec fn fits_in_bytes(ixs: Seq<Instruction>) -> bool {
    &&& class_count(ixs, PriorityClass::RwSigner) <= u8::MAX
    &&& class_count(ixs, PriorityClass::RoSigner) <= u8::MAX
    &&& class_count(ixs, PriorityClass::Rw) <= u8::MAX
    &&& table_of(ixs).len() <= MAX_ACCOUNTS
}

/// The error that compiling `ixs` ends in, if any.
pub open spec fn compile_failure(ixs: Seq<Instruction>) -> Option<CompileError> {
    if ixs.len() == 0 {
        Some(CompileError::EmptyInput)
    } else if !fits_in_bytes(ixs) {
        Some(CompileError::Overflow)
    } else {
        None
    }
}

/// Every address `ix` refers to is in `table`.
pub open spec fn refs_resolved(table: Seq<Pubkey>, ix: Instruction) -> bool {
    &&& table.contains(ix.program_id)
    &&& forall|j: int| 0 <= j < ix.accounts@.len() ==> table.contains(#[trigger] ix.accounts@[j].pubkey)
}

/// `cix` is `ix` with each address replaced by its position in `table`, and
/// its payload copied unchanged.
pub open spec fn compiled_from(table: Seq<Pubkey>, ix: Instruction, cix: CompiledInstructionV0) -> bool {
    &&& (cix.program_id_index as int) < table.len()
    &&& table[cix.program_id_index as int] == ix.program_id
    &&& cix.accounts@.len() == ix.accounts@.len()
    &&& forall|j: int|
        0 <= j < ix.accounts@.len() ==> (#[trigger] cix.accounts@[j] as int) < table.len()
            && table[cix.accounts@[j] as int] == ix.accounts@[j].pubkey
    &&& cix.data@ == ix.data@
}

/// Position `i` of a table whose class boundaries are `n0`, `n1`, `n2` is
/// writable: it lies among the read-write signers or the read-write
/// non-signers.
pub open spec fn writable_at(i: int, n0: int, n1: int, n2: int) -> bool {
    i < n0 || (n0 + n1 <= i && i < n0 + n1 + n2)
}

/// The trailing account list for a table: each address in table order, never
/// a signer, writable by its position alone.
pub open spec fn remaining_from(table: Seq<Pubkey>, n0: int, n1: int, n2: int) -> Seq<AccountMeta> {
    Seq::new(
        table.len(),
        |i: int|
            AccountMeta { pubkey: table[i], is_signer: false, is_writable: writable_at(i, n0, n1, n2) },
    )
}

/// `tx` is the compilation of `ixs` carrying `seeds`.
pub open spec fn compiled_transaction(
    ixs: Seq<Instruction>,
    seeds: Vec<Vec<Vec<u8>>>,
    tx: CompiledTransactionV0,
) -> bool {
    &&& tx.accounts@ == table_of(ixs)
    &&& tx.num_rw_signers as nat == class_count(ixs, PriorityClass::RwSigner)
    &&& tx.num_ro_signers as nat == class_count(ixs, PriorityClass::RoSigner)
    &&& tx.num_rw as nat == class_count(ixs, PriorityClass::Rw)
    &&& tx.instructions@.len() == ixs.len()
    &&& forall|i: int|
        0 <= i < ixs.len() ==> compiled_from(tx.accounts@, ixs[i], #[trigger] tx.instructions@[i])
    &&& tx.signer_seeds == seeds
}

/// What `compile_transaction(ixs, seeds)` returns.
pub open spec fn compile_post(
    ixs: Seq<Instruction>,
    seeds: Vec<Vec<Vec<u8>>>,
    r: Result<(CompiledTransactionV0, Vec<AccountMeta>), CompileError>,
) -> bool {
    match r {
        Ok((tx, remaining)) => {
            &&& compile_failure(ixs) is None
            &&& compiled_transaction(ixs, seeds, tx)
            &&& remaining@ == remaining_from(
                tx.accounts@,
                tx.num_rw_signers as int,
                tx.num_ro_signers as int,
                tx.num_rw as int,
            )
        },
        Err(e) => compile_failure(ixs) == Some(e),
    }
}

/// The merged entries hold each mentioned address once, and nothing else.
pub proof fn lemma_merged_keys(refs: Seq<AccountMeta>)
    ensures
        distinct_keys(merged(refs)),
        merged(refs).len() == first_seen(refs).len(),
        forall|k: Pubkey| #[trigger] has_key(merged(refs), k) <==> mentions(refs, k),
{
    lemma_first_seen(refs);
    let fs = first_seen(refs);
    let m = merged(refs);
    assert forall|k: Pubkey| #[trigger] has_key(m, k) <==> mentions(refs, k) by {
        if has_key(m, k) {
            let i = choose|i: int| 0 <= i < m.len() && m[i].pubkey == k;
            assert(fs[i] == k);
            assert(fs.contains(k));
        }
        if mentions(refs, k) {
            assert(fs.contains(k));
            let i = choose|i: int| 0 <= i < fs.len() && fs[i] == k;
            assert(m[i].pubkey == k);
        }
    }
}

/// Every reference an instruction makes is among the batch's references.
pub proof fn lemma_ref_mentioned(ixs: Seq<Instruction>, i: int, j: int)
    requires
        0 <= i < ixs.len(),
        0 <= j < instruction_refs(ixs[i]).len(),
    ensures
        mentions(all_refs(ixs), instruction_refs(ixs[i])[j].pubkey),
    decreases ixs.len(),
{
    let rest = ixs.drop_last();
    let prior = all_refs(rest);
    let tail = instruction_refs(ixs.last());
    if i == ixs.len() - 1 {
        assert((prior + tail)[prior.len() + j] == tail[j]);
    } else {
        lemma_ref_mentioned(rest, i, j);
        assert(rest[i] == ixs[i]);
        let p = choose|p: int|
            0 <= p < prior.len() && prior[p].pubkey == instruction_refs(ixs[i])[j].pubkey;
        assert((prior + tail)[p] == prior[p]);
    }
}

/// The table of a batch holds each of its addresses once, and every address
/// any of its instructions refers to.
pub proof fn lemma_table_of(ixs: Seq<Instruction>)
    ensures
        table_of(ixs).no_duplicates(),
        table_of(ixs).len() == first_seen(all_refs(ixs)).len(),
        forall|k: Pubkey| #[trigger] table_of(ixs).contains(k) <==> mentions(all_refs(ixs), k),
        forall|i: int| 0 <= i < ixs.len() ==> refs_resolved(table_of(ixs), #[trigger] ixs[i]),
{
    let refs = all_refs(ixs);
    lemma_merged_keys(refs);
    lemma_sorted_table(merged(refs));
    assert forall|k: Pubkey| #[trigger] table_of(ixs).contains(k) <==> mentions(refs, k) by {
        assert(has_key(merged(refs), k) <==> mentions(refs, k));
    }
    assert forall|i: int| 0 <= i < ixs.len() implies refs_resolved(table_of(ixs), #[trigger] ixs[i]) by {
        let ix = ixs[i];
        lemma_ref_mentioned(ixs, i, 0);
        assert(table_of(ixs).contains(ix.program_id));
        assert forall|j: int| 0 <= j < ix.accounts@.len() implies table_of(ixs).contains(
            #[trigger] ix.accounts@[j].pubkey,
        ) by {
            lemma_ref_mentioned(ixs, i, j + 1);
            assert(instruction_refs(ix)[j + 1] == ix.accounts@[j]);
        }
    }
}

/// Rewrites one instruction against the account table.
pub fn compile_instruction(index: &AccountIndex, ix: &Instruction) -> (r: Result<
    CompiledInstructionV0,
    CompileError,
>)
    requires
        index.wf(),
    ensures
        match r {
            Ok(cix) => compiled_from(index@, *ix, cix),
            Err(e) => e == CompileError::InvalidReference && !refs_resolved(index@, *ix),
        },
        r is Ok <==> refs_resolved(index@, *ix),
{
    let program_id_index = match index.index_of(&ix.program_id) {
        Ok(i) => i,
        Err(e) => return Err(e),
    };
    let mut accounts: Vec<u8> = Vec::new();
    let mut j: usize = 0;
    while j < ix.accounts.len()
        invariant
            index.wf(),
            j <= ix.accounts@.len(),
            accounts@.len() == j,
            forall|q: int|
                0 <= q < j ==> (#[trigger] accounts@[q] as int) < index@.len() && index@[accounts@[q] as int]
                    == ix.accounts@[q].pubkey,
        decreases ix.accounts@.len() - j,
    {
        match index.index_of(&ix.accounts[j].pubkey) {
            Ok(p) => accounts.push(p),
            Err(e) => {
                assert(!refs_resolved(index@, *ix));
                return Err(e);
            },
        }
        j = j + 1;
    }
    let data = ix.data.clone();
    assert(data@ =~= ix.data@);
    let cix = CompiledInstructionV0 { program_id_index, accounts, data };
    assert(refs_resolved(index@, *ix)) by {
        assert forall|q: int| 0 <= q < ix.accounts@.len() implies index@.contains(
            #[trigger] ix.accounts@[q].pubkey,
        ) by {
            assert(index@[cix.accounts@[q] as int] == ix.accounts@[q].pubkey);
        }
    }
    Ok(cix)
}

/// The trailing account list a dispatcher attaches when it replays a
/// compiled transaction: every table address, never a signer, writable when
/// its position lies among the read-write signers or read-write non-signers.
pub fn remaining_accounts(table: &Vec<Pubkey>, num_rw_signers: u8, num_ro_signers: u8, num_rw: u8) -> (r:
    Vec<AccountMeta>)
    ensures
        r@ == remaining_from(table@, num_rw_signers as int, num_ro_signers as int, num_rw as int),
{
    let rw_signers_end = num_rw_signers as usize;
    let ro_signers_end = rw_signers_end + num_ro_signers as usize;
    let rw_end = ro_signers_end + num_rw as usize;
    let mut out: Vec<AccountMeta> = Vec::new();
    let mut i: usize = 0;
    while i < table.len()
        invariant
            i <= table@.len(),
            rw_signers_end == num_rw_signers as int,
            ro_signers_end == num_rw_signers as int + num_ro_signers as int,
            rw_end == num_rw_signers as int + num_ro_signers as int + num_rw as int,
            out@ =~= remaining_from(table@, num_rw_signers as int, num_ro_signers as int, num_rw as int).take(
                i as int,
            ),
        decreases table@.len() - i,
    {
        let meta = AccountMeta {
            pubkey: table[i],
            is_signer: false,
            is_writable: i < rw_signers_end || (i >= ro_signers_end && i < rw_end),
        };
        out.push(meta);
        i = i + 1;
    }
    out
}

/// Compiles a batch of instructions into one transaction over a shared,
/// deduplicated account table, together with the trailing account list that
/// replaying it needs. `signer_seeds` is carried through unchanged.
pub fn compile_transaction(instructions: Vec<Instruction>, signer_seeds: Vec<Vec<Vec<u8>>>) -> (r:
    Result<(CompiledTransactionV0, Vec<AccountMeta>), CompileError>)
    ensures
        compile_post(instructions@, signer_seeds, r),
{
    if instructions.len() == 0 {
        return Err(CompileError::EmptyInput);
    }
    let entries = merge_accounts(&instructions);
    let (table, n_rw_signers, n_ro_signers, n_rw) = sort_by_priority(&entries);
    proof {
        lemma_table_of(instructions@);
    }
    if n_rw_signers > u8::MAX as usize || n_ro_signers > u8::MAX as usize || n_rw > u8::MAX as usize {
        return Err(CompileError::Overflow);
    }
    let index = match AccountIndex::new(table) {
        Ok(index) => index,
        Err(e) => return Err(e),
    };
    let mut compiled: Vec<CompiledInstructionV0> = Vec::new();
    let mut i: usize = 0;
    while i < instructions.len()
        invariant
            index.wf(),
            index@ == table_of(instructions@),
            i <= instructions@.len(),
            compiled@.len() == i,
            forall|q: int| 0 <= q < instructions@.len() ==> refs_resolved(index@, #[trigger] instructions@[q]),
            forall|q: int| 0 <= q < i ==> compiled_from(index@, instructions@[q], #[trigger] compiled@[q]),
        decreases instructions@.len() - i,
    {
        match compile_instruction(&index, &instructions[i]) {
            Ok(cix) => compiled.push(cix),
            Err(e) => return Err(e),
        }
        i = i + 1;
    }
    let num_rw_signers = n_rw_signers as u8;
    let num_ro_signers = n_ro_signers as u8;
    let num_rw = n_rw as u8;
    let remaining = remaining_accounts(index.keys(), num_rw_signers, num_ro_signers, num_rw);
    let tx = CompiledTransactionV0 {
        num_rw_signers,
        num_ro_signers,
        num_rw,
        accounts: index.into_keys(),
        instructions: compiled,
        signer_seeds,
    };
    Ok((tx, remaining))
}

} // verus!
