use vstd::prelude::*;

use crate::account::{AccountMeta, Instruction, Pubkey};

verus! {

/// The account references an instruction contributes, in order: its target
/// program first, as a read-only non-signer, then its own account list.
pub open spec fn instruction_refs(ix: Instruction) -> Seq<AccountMeta> {
    seq![AccountMeta { pubkey: ix.program_id, is_signer: false, is_writable: false }]
        + ix.accounts@
}

/// Every account reference made by a batch of instructions, in input order.
pub open spec fn all_refs(ixs: Seq<Instruction>) -> Seq<AccountMeta>
    decreases ixs.len(),
{
    if ixs.len() == 0 {
        seq![]
    } else {
        all_refs(ixs.drop_last()) + instruction_refs(ixs.last())
    }
}

pub open spec fn mentions(refs: Seq<AccountMeta>, k: Pubkey) -> bool {
    exists|i: int| 0 <= i < refs.len() && refs[i].pubkey == k
}

/// Some reference to `k` is a signer.
pub open spec fn any_signer(refs: Seq<AccountMeta>, k: Pubkey) -> bool {
    exists|i: int| 0 <= i < refs.len() && refs[i].pubkey == k && refs[i].is_signer
}

/// Some reference to `k` is writable.
pub open spec fn any_writable(refs: Seq<AccountMeta>, k: Pubkey) -> bool {
    exists|i: int| 0 <= i < refs.len() && refs[i].pubkey == k && refs[i].is_writable
}

/// The distinct addresses of `refs`, in the order of their first occurrence.
pub open spec fn first_seen(refs: Seq<AccountMeta>) -> Seq<Pubkey>
    decreases refs.len(),
{
    if refs.len() == 0 {
        seq![]
    } else {
        let prior = first_seen(refs.drop_last());
        if prior.contains(refs.last().pubkey) {
            prior
        } else {
            prior.push(refs.last().pubkey)
        }
    }
}

/// One entry per distinct address, in first-seen order, whose flags are the
/// OR of the flags of every reference to that address.
pub open spec fn merged(refs: Seq<AccountMeta>) -> Seq<AccountMeta> {
    first_seen(refs).map_values(
        |k: Pubkey|
            AccountMeta {
                pubkey: k,
                is_signer: any_signer(refs, k),
                is_writable: any_writable(refs, k),
            },
    )
}

/// The first-seen order lists each mentioned address once, and nothing else.
pub proof fn lemma_first_seen(refs: Seq<AccountMeta>)
    ensures
        first_seen(refs).no_duplicates(),
        forall|k: Pubkey| #[trigger] first_seen(refs).contains(k) <==> mentions(refs, k),
    decreases refs.len(),
{
    if refs.len() > 0 {
        let rest = refs.drop_last();
        lemma_first_seen(rest);
        assert forall|k: Pubkey| mentions(refs, k) <==> (mentions(rest, k) || refs.last().pubkey
            == k) by {
            if mentions(refs, k) {
                let i = choose|i: int| 0 <= i < refs.len() && refs[i].pubkey == k;
                if i < rest.len() {
                    assert(rest[i] == refs[i]);
                }
            }
            if mentions(rest, k) {
                let i = choose|i: int| 0 <= i < rest.len() && rest[i].pubkey == k;
                assert(refs[i] == rest[i]);
            }
        }
        let prior = first_seen(rest);
        let last = refs.last().pubkey;
        if !prior.contains(last) {
            assert forall|k: Pubkey| prior.push(last).contains(k) <==> (prior.contains(k) || k
                == last) by {
                if prior.push(last).contains(k) {
                    let i = choose|i: int| 0 <= i < prior.len() + 1 && prior.push(last)[i] == k;
                    if i < prior.len() {
                        assert(prior[i] == k);
                    }
                }
                if prior.contains(k) {
                    let i = choose|i: int| 0 <= i < prior.len() && prior[i] == k;
                    assert(prior.push(last)[i] == k);
                }
                assert(prior.push(last)[prior.len() as int] == last);
            }
        }
        assert forall|k: Pubkey| #[trigger] first_seen(refs).contains(k) <==> mentions(refs, k) by {
            assert(prior.contains(k) <==> mentions(rest, k));
            if k == last && prior.contains(last) {
                assert(mentions(rest, k));
            }
        }
    }
}

proof fn lemma_flags_push(refs: Seq<AccountMeta>, m: AccountMeta, k: Pubkey)
    ensures
        any_signer(refs.push(m), k) == (any_signer(refs, k) || (m.pubkey == k && m.is_signer)),
        any_writable(refs.push(m), k) == (any_writable(refs, k) || (m.pubkey == k
            && m.is_writable)),
{
    let s = refs.push(m);
    if any_signer(s, k) {
        let i = choose|i: int| 0 <= i < s.len() && s[i].pubkey == k && s[i].is_signer;
        if i < refs.len() {
            assert(refs[i] == s[i]);
        }
    }
    if any_signer(refs, k) {
        let i = choose|i: int| 0 <= i < refs.len() && refs[i].pubkey == k && refs[i].is_signer;
        assert(s[i] == refs[i]);
    }
    if any_writable(s, k) {
        let i = choose|i: int| 0 <= i < s.len() && s[i].pubkey == k && s[i].is_writable;
        if i < refs.len() {
            assert(refs[i] == s[i]);
        }
    }
    if any_writable(refs, k) {
        let i = choose|i: int|
            0 <= i < refs.len() && refs[i].pubkey == k && refs[i].is_writable;
        assert(s[i] == refs[i]);
    }
    assert(s[refs.len() as int] == m);
}

/// Position of the entry for `k`, if there is one.
fn find_entry(entries: &Vec<AccountMeta>, k: &Pubkey) -> (r: Option<usize>)
    ensures
        match r {
            Some(p) => p < entries@.len() && entries@[p as int].pubkey == *k,
            None => forall|i: int| 0 <= i < entries@.len() ==> entries@[i].pubkey != *k,
        },
{
    let mut i: usize = 0;
    while i < entries.len()
        invariant
            i <= entries@.len(),
            forall|j: int| 0 <= j < i ==> entries@[j].pubkey != *k,
        decreases entries@.len() - i,
    {
        if entries[i].pubkey.same_as(k) {
            return Some(i);
        }
        i = i + 1;
    }
    None
}

/// Folds one more reference into the merged entries.
fn fold_ref(entries: &mut Vec<AccountMeta>, m: &AccountMeta, Ghost(refs): Ghost<Seq<AccountMeta>>)
    requires
        old(entries)@ == merged(refs),
    ensures
        final(entries)@ == merged(refs.push(*m)),
{
    let ghost next = refs.push(*m);
    proof {
        lemma_first_seen(refs);
        assert(next.drop_last() =~= refs);
        assert forall|k: Pubkey| true implies any_signer(next, k) == (any_signer(refs, k) || (
        m.pubkey == k && m.is_signer)) && any_writable(next, k) == (any_writable(refs, k) || (
        m.pubkey == k && m.is_writable)) by {
            lemma_flags_push(refs, *m, k);
        }
    }
    match find_entry(entries, &m.pubkey) {
        Some(p) => {
            let old_entry = entries[p];
            let entry = AccountMeta {
                pubkey: old_entry.pubkey,
                is_signer: old_entry.is_signer || m.is_signer,
                is_writable: old_entry.is_writable || m.is_writable,
            };
            entries.set(p, entry);
            proof {
                let fs = first_seen(refs);
                assert(fs[p as int] == m.pubkey);
                assert(fs.contains(m.pubkey));
                assert(first_seen(next) == fs);
                assert forall|i: int| 0 <= i < fs.len() && i != p implies fs[i] != m.pubkey by {
                    assert(fs.no_duplicates());
                }
                assert(entries@ =~= merged(next));
            }
        },
        None => {
            entries.push(*m);
            proof {
                let fs = first_seen(refs);
                assert(!fs.contains(m.pubkey)) by {
                    if fs.contains(m.pubkey) {
                        let i = choose|i: int| 0 <= i < fs.len() && fs[i] == m.pubkey;
                        assert(old(entries)@[i].pubkey == fs[i]);
                    }
                }
                assert(!mentions(refs, m.pubkey));
                assert(!any_signer(refs, m.pubkey));
                assert(!any_writable(refs, m.pubkey));
                assert(first_seen(next) == fs.push(m.pubkey));
                assert(entries@ =~= merged(next));
            }
        },
    }
}

/// Merges every account reference of the batch, targets included, into one
/// entry per distinct address, in first-seen order, with the flags of all
/// references to that address combined by OR.
pub fn merge_accounts(instructions: &Vec<Instruction>) -> (r: Vec<AccountMeta>)
    ensures
        r@ == merged(all_refs(instructions@)),
{
    let mut entries: Vec<AccountMeta> = Vec::new();
    proof {
        assert(entries@ =~= merged(seq![]));
        assert(instructions@.take(0) =~= seq![]);
    }
    let mut i: usize = 0;
    while i < instructions.len()
        invariant
            i <= instructions@.len(),
            entries@ == merged(all_refs(instructions@.take(i as int))),
        decreases instructions@.len() - i,
    {
        let ix = &instructions[i];
        let ghost before = all_refs(instructions@.take(i as int));
        let target = AccountMeta { pubkey: ix.program_id, is_signer: false, is_writable: false };
        fold_ref(&mut entries, &target, Ghost(before));
        let ghost head = before.push(target);
        proof {
            assert(ix.accounts@.take(0) =~= seq![]);
            assert(head + ix.accounts@.take(0) =~= head);
        }
        let mut j: usize = 0;
        while j < ix.accounts.len()
            invariant
                j <= ix.accounts@.len(),
                entries@ == merged(head + ix.accounts@.take(j as int)),
            decreases ix.accounts@.len() - j,
        {
            let ghost so_far = head + ix.accounts@.take(j as int);
            fold_ref(&mut entries, &ix.accounts[j], Ghost(so_far));
            proof {
                assert(so_far.push(ix.accounts@[j as int]) =~= head + ix.accounts@.take(
                    j + 1,
                ));
            }
            j = j + 1;
        }
        proof {
            let upto = instructions@.take(i + 1);
            assert(upto.drop_last() =~= instructions@.take(i as int));
            assert(upto.last() == *ix);
            assert(ix.accounts@.take(j as int) =~= ix.accounts@);
            assert(head + ix.accounts@ =~= before + instruction_refs(*ix));
        }
        i = i + 1;
    }
    proof {
        assert(instructions@.take(i as int) =~= instructions@);
    }
    entries
}

} // verus!
