use vstd::prelude::*;

use crate::account::{class_of, class_of_flags, AccountMeta, Instruction, PriorityClass, Pubkey};
use crate::compile::{
    compile_post, compiled_from, lemma_table_of, table_of, writable_at,
    CompiledInstructionV0, CompiledTransactionV0,
};
use crate::error::CompileError;
use crate::merge::{all_refs, any_signer, any_writable, mentions, merged};
use crate::order::{class_keys, has_entry, lemma_class_keys};

verus! {

/// The distinct addresses a batch refers to, targets included.
pub open spec fn distinct_addresses(ixs: Seq<Instruction>) -> Set<Pubkey> {
    Set::new(|k: Pubkey| mentions(all_refs(ixs), k))
}

/// The class that position `i` lies in, for class boundaries `n0`, `n1`, `n2`.
pub open spec fn class_at(i: int, n0: int, n1: int, n2: int) -> PriorityClass {
    if i < n0 {
        PriorityClass::RwSigner
    } else if i < n0 + n1 {
        PriorityClass::RoSigner
    } else if i < n0 + n1 + n2 {
        PriorityClass::Rw
    } else {
        PriorityClass::RoOrNone
    }
}

/// Two compiled instructions have the same table indices and payload.
pub open spec fn same_compiled(a: CompiledInstructionV0, b: CompiledInstructionV0) -> bool {
    &&& a.program_id_index == b.program_id_index
    &&& a.accounts@ == b.accounts@
    &&& a.data@ == b.data@
}

/// Two outcomes of compiling are structurally identical.
pub open spec fn same_outcome(
    r1: Result<(CompiledTransactionV0, Vec<AccountMeta>), CompileError>,
    r2: Result<(CompiledTransactionV0, Vec<AccountMeta>), CompileError>,
) -> bool {
    match (r1, r2) {
        (Err(e1), Err(e2)) => e1 == e2,
        (Ok((t1, m1)), Ok((t2, m2))) => {
            &&& t1.num_rw_signers == t2.num_rw_signers
            &&& t1.num_ro_signers == t2.num_ro_signers
            &&& t1.num_rw == t2.num_rw
            &&& t1.accounts@ == t2.accounts@
            &&& t1.instructions@.len() == t2.instructions@.len()
            &&& forall|i: int|
                0 <= i < t1.instructions@.len() ==> same_compiled(
                    #[trigger] t1.instructions@[i],
                    t2.instructions@[i],
                )
            &&& t1.signer_seeds == t2.signer_seeds
            &&& m1@ == m2@
        },
        _ => false,
    }
}

/// The account table has one position for each distinct address the batch
/// refers to.
pub proof fn lemma_table_size(
    ixs: Seq<Instruction>,
    seeds: Vec<Vec<Vec<u8>>>,
    r: Result<(CompiledTransactionV0, Vec<AccountMeta>), CompileError>,
)
    requires
        compile_post(ixs, seeds, r),
        r is Ok,
    ensures
        r->Ok_0.0.accounts@.len() == distinct_addresses(ixs).len(),
{
    let table = table_of(ixs);
    lemma_table_of(ixs);
    assert(table.to_set() =~= distinct_addresses(ixs));
    table.unique_seq_to_set();
}

/// The class of each table position, read off the stored counts, is the
/// class of the OR of the flags of every reference to the address there.
pub proof fn lemma_class_partition(
    ixs: Seq<Instruction>,
    seeds: Vec<Vec<Vec<u8>>>,
    r: Result<(CompiledTransactionV0, Vec<AccountMeta>), CompileError>,
    i: int,
)
    requires
        compile_post(ixs, seeds, r),
        r is Ok,
        0 <= i < r->Ok_0.0.accounts@.len(),
    ensures
        ({
            let tx = r->Ok_0.0;
            let k = tx.accounts@[i];
            class_of_flags(any_signer(all_refs(ixs), k), any_writable(all_refs(ixs), k))
                == class_at(i, tx.num_rw_signers as int, tx.num_ro_signers as int, tx.num_rw as int)
        }),
{
    let tx = r->Ok_0.0;
    let refs = all_refs(ixs);
    let entries = merged(refs);
    let k = tx.accounts@[i];
    let a = class_keys(entries, PriorityClass::RwSigner);
    let b = class_keys(entries, PriorityClass::RoSigner);
    let c = class_keys(entries, PriorityClass::Rw);
    let d = class_keys(entries, PriorityClass::RoOrNone);
    let cls = class_at(i, tx.num_rw_signers as int, tx.num_ro_signers as int, tx.num_rw as int);
    lemma_class_keys(entries, cls);
    assert(tx.accounts@ == a + b + c + d);
    if i < a.len() {
        assert(a[i] == k);
        assert(a.contains(k));
    } else if i < a.len() + b.len() {
        assert(b[i - a.len()] == k);
        assert(b.contains(k));
    } else if i < a.len() + b.len() + c.len() {
        assert(c[i - a.len() - b.len()] == k);
        assert(c.contains(k));
    } else {
        assert(d[i - a.len() - b.len() - c.len()] == k);
        assert(d.contains(k));
    }
    assert(has_entry(entries, k, cls));
    let p = choose|p: int| 0 <= p < entries.len() && entries[p].pubkey == k && class_of(entries[p]) == cls;
    assert(entries[p].is_signer == any_signer(refs, k));
    assert(entries[p].is_writable == any_writable(refs, k));
}

/// The flags a table position stands for are the OR of the flags of every
/// reference to its address: it is a signer exactly when it lies among the
/// signers, and writable exactly when the trailing account list marks it so.
pub proof fn lemma_merged_flags(
    ixs: Seq<Instruction>,
    seeds: Vec<Vec<Vec<u8>>>,
    r: Result<(CompiledTransactionV0, Vec<AccountMeta>), CompileError>,
    i: int,
)
    requires
        compile_post(ixs, seeds, r),
        r is Ok,
        0 <= i < r->Ok_0.0.accounts@.len(),
    ensures
        ({
            let tx = r->Ok_0.0;
            let k = tx.accounts@[i];
            let n0 = tx.num_rw_signers as int;
            let n1 = tx.num_ro_signers as int;
            &&& any_signer(all_refs(ixs), k) == (i < n0 + n1)
            &&& any_writable(all_refs(ixs), k) == writable_at(i, n0, n1, tx.num_rw as int)
            &&& r->Ok_0.1@[i].pubkey == k
            &&& r->Ok_0.1@[i].is_writable == any_writable(all_refs(ixs), k)
        }),
{
    lemma_class_partition(ixs, seeds, r, i);
}

/// Every index of every compiled instruction is a position of the table.
pub proof fn lemma_indices_in_bounds(
    ixs: Seq<Instruction>,
    seeds: Vec<Vec<Vec<u8>>>,
    r: Result<(CompiledTransactionV0, Vec<AccountMeta>), CompileError>,
)
    requires
        compile_post(ixs, seeds, r),
        r is Ok,
    ensures
        ({
            let tx = r->Ok_0.0;
            forall|i: int|
                0 <= i < tx.instructions@.len() ==> {
                    &&& (#[trigger] tx.instructions@[i]).program_id_index < tx.accounts@.len()
                    &&& forall|j: int|
                        0 <= j < tx.instructions@[i].accounts@.len() ==> (
                        #[trigger] tx.instructions@[i].accounts@[j]) < tx.accounts@.len()
                }
        }),
{
    let tx = r->Ok_0.0;
    assert forall|i: int| 0 <= i < tx.instructions@.len() implies {
        &&& (#[trigger] tx.instructions@[i]).program_id_index < tx.accounts@.len()
        &&& forall|j: int|
            0 <= j < tx.instructions@[i].accounts@.len() ==> (
            #[trigger] tx.instructions@[i].accounts@[j]) < tx.accounts@.len()
    } by {
        assert(compiled_from(tx.accounts@, ixs[i], tx.instructions@[i]));
    }
}

proof fn lemma_position_unique(table: Seq<Pubkey>, a: u8, b: u8)
    requires
        table.no_duplicates(),
        (a as int) < table.len(),
        (b as int) < table.len(),
        table[a as int] == table[b as int],
    ensures
        a == b,
{
}

/// Compiling the same batch twice gives structurally identical results.
pub proof fn lemma_compile_deterministic(
    ixs: Seq<Instruction>,
    seeds: Vec<Vec<Vec<u8>>>,
    r1: Result<(CompiledTransactionV0, Vec<AccountMeta>), CompileError>,
    r2: Result<(CompiledTransactionV0, Vec<AccountMeta>), CompileError>,
)
    requires
        compile_post(ixs, seeds, r1),
        compile_post(ixs, seeds, r2),
    ensures
        same_outcome(r1, r2),
{
    if r1 is Ok && r2 is Ok {
        let t1 = r1->Ok_0.0;
        let t2 = r2->Ok_0.0;
        let table = table_of(ixs);
        lemma_table_of(ixs);
        assert forall|i: int| 0 <= i < t1.instructions@.len() implies same_compiled(
            #[trigger] t1.instructions@[i],
            t2.instructions@[i],
        ) by {
            let c1 = t1.instructions@[i];
            let c2 = t2.instructions@[i];
            assert(compiled_from(table, ixs[i], c1));
            assert(compiled_from(table, ixs[i], c2));
            lemma_position_unique(table, c1.program_id_index, c2.program_id_index);
            assert forall|j: int| 0 <= j < c1.accounts@.len() implies c1.accounts@[j]
                == c2.accounts@[j] by {
                lemma_position_unique(table, c1.accounts@[j], c2.accounts@[j]);
            }
            assert(c1.accounts@ =~= c2.accounts@);
        }
        assert(r1->Ok_0.1@ =~= r2->Ok_0.1@);
    }
}

} // verus!
