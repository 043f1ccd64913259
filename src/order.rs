use vstd::prelude::*;

use crate::account::{class_of, get_priority, AccountMeta, PriorityClass, Pubkey};

verus! {

/// The addresses of the entries of class `c`, in their order in `entries`.
pub open spec fn class_keys(entries: Seq<AccountMeta>, c: PriorityClass) -> Seq<Pubkey>
    decreases entries.len(),
{
    if entries.len() == 0 {
        seq![]
    } else {
        let prior = class_keys(entries.drop_last(), c);
        if class_of(entries.last()) == c {
            prior.push(entries.last().pubkey)
        } else {
            prior
        }
    }
}

/// The entries' addresses sorted stably by class: read-write signers, then
/// read-only signers, then read-write non-signers, then the rest.
pub open spec fn sorted_table(entries: Seq<AccountMeta>) -> Seq<Pubkey> {
    class_keys(entries, PriorityClass::RwSigner) + class_keys(entries, PriorityClass::RoSigner)
        + class_keys(entries, PriorityClass::Rw) + class_keys(entries, PriorityClass::RoOrNone)
}

/// No two entries share an address.
pub open spec fn distinct_keys(entries: Seq<AccountMeta>) -> bool {
    forall|i: int, j: int|
        0 <= i < entries.len() && 0 <= j < entries.len() && i != j ==> entries[i].pubkey
            != entries[j].pubkey
}

/// Some entry has address `k` and class `c`.
pub open spec fn has_entry(entries: Seq<AccountMeta>, k: Pubkey, c: PriorityClass) -> bool {
    exists|i: int| 0 <= i < entries.len() && entries[i].pubkey == k && class_of(entries[i]) == c
}

/// A class's addresses are exactly those of its entries, each once.
pub proof fn lemma_class_keys(entries: Seq<AccountMeta>, c: PriorityClass)
    ensures
        forall|k: Pubkey| #[trigger] class_keys(entries, c).contains(k) <==> has_entry(entries, k, c),
        distinct_keys(entries) ==> class_keys(entries, c).no_duplicates(),
    decreases entries.len(),
{
    if entries.len() > 0 {
        let rest = entries.drop_last();
        let last = entries.last();
        let n = rest.len() as int;
        lemma_class_keys(rest, c);
        let prior = class_keys(rest, c);
        assert forall|k: Pubkey| has_entry(entries, k, c) <==> (has_entry(rest, k, c) || (
        last.pubkey == k && class_of(last) == c)) by {
            if has_entry(entries, k, c) {
                let i = choose|i: int|
                    0 <= i < entries.len() && entries[i].pubkey == k && class_of(entries[i]) == c;
                if i < n {
                    assert(rest[i] == entries[i]);
                }
            }
            if has_entry(rest, k, c) {
                let i = choose|i: int|
                    0 <= i < rest.len() && rest[i].pubkey == k && class_of(rest[i]) == c;
                assert(entries[i] == rest[i]);
            }
            assert(entries[n] == last);
        }
        if class_of(last) == c {
            assert forall|k: Pubkey| prior.push(last.pubkey).contains(k) <==> (prior.contains(k)
                || k == last.pubkey) by {
                if prior.push(last.pubkey).contains(k) {
                    let i = choose|i: int|
                        0 <= i < prior.len() + 1 && prior.push(last.pubkey)[i] == k;
                    if i < prior.len() {
                        assert(prior[i] == k);
                    }
                }
                if prior.contains(k) {
                    let i = choose|i: int| 0 <= i < prior.len() && prior[i] == k;
                    assert(prior.push(last.pubkey)[i] == k);
                }
                assert(prior.push(last.pubkey)[prior.len() as int] == last.pubkey);
            }
            if distinct_keys(entries) {
                assert(distinct_keys(rest)) by {
                    assert forall|i: int, j: int|
                        0 <= i < rest.len() && 0 <= j < rest.len() && i != j implies rest[i].pubkey
                        != rest[j].pubkey by {
                        assert(rest[i] == entries[i] && rest[j] == entries[j]);
                    }
                }
                assert(!prior.contains(last.pubkey)) by {
                    if prior.contains(last.pubkey) {
                        assert(has_entry(rest, last.pubkey, c));
                        let i = choose|i: int|
                            0 <= i < rest.len() && rest[i].pubkey == last.pubkey && class_of(
                                rest[i],
                            ) == c;
                        assert(entries[i] == rest[i]);
                        assert(entries[n] == last);
                    }
                }
                assert forall|i: int, j: int|
                    0 <= i < prior.len() + 1 && 0 <= j < prior.len() + 1 && i != j implies prior.push(
                    last.pubkey)[i] != prior.push(last.pubkey)[j] by {
                    if i < prior.len() && j < prior.len() {
                    } else if i < prior.len() {
                        assert(prior.contains(prior[i]));
                    } else {
                        assert(prior.contains(prior[j]));
                    }
                }
            }
        } else {
            if distinct_keys(entries) {
                assert(distinct_keys(rest)) by {
                    assert forall|i: int, j: int|
                        0 <= i < rest.len() && 0 <= j < rest.len() && i != j implies rest[i].pubkey
                        != rest[j].pubkey by {
                        assert(rest[i] == entries[i] && rest[j] == entries[j]);
                    }
                }
            }
        }
        assert forall|k: Pubkey| #[trigger] class_keys(entries, c).contains(k) <==> has_entry(
            entries,
            k,
            c,
        ) by {
            assert(prior.contains(k) <==> has_entry(rest, k, c));
        }
    }
}

/// Every entry falls in exactly one class.
pub proof fn lemma_class_sizes(entries: Seq<AccountMeta>)
    ensures
        class_keys(entries, PriorityClass::RwSigner).len() + class_keys(
            entries,
            PriorityClass::RoSigner,
        ).len() + class_keys(entries, PriorityClass::Rw).len() + class_keys(
            entries,
            PriorityClass::RoOrNone,
        ).len() == entries.len(),
    decreases entries.len(),
{
    if entries.len() > 0 {
        lemma_class_sizes(entries.drop_last());
    }
}

/// Some entry has address `k`.
pub open spec fn has_key(entries: Seq<AccountMeta>, k: Pubkey) -> bool {
    exists|i: int| 0 <= i < entries.len() && entries[i].pubkey == k
}

proof fn lemma_disjoint_concat(a: Seq<Pubkey>, b: Seq<Pubkey>)
    requires
        a.no_duplicates(),
        b.no_duplicates(),
        forall|k: Pubkey| a.contains(k) ==> !b.contains(k),
    ensures
        (a + b).no_duplicates(),
{
    assert forall|i: int, j: int| 0 <= i < a.len() && 0 <= j < b.len() implies a[i] != b[j] by {
        assert(a.contains(a[i]));
        assert(b.contains(b[j]));
    }
    vstd::seq_lib::lemma_no_dup_in_concat(a, b);
}

proof fn lemma_classes_disjoint(entries: Seq<AccountMeta>, c1: PriorityClass, c2: PriorityClass)
    requires
        distinct_keys(entries),
        c1 != c2,
    ensures
        forall|k: Pubkey|
            class_keys(entries, c1).contains(k) ==> !class_keys(entries, c2).contains(k),
{
    lemma_class_keys(entries, c1);
    lemma_class_keys(entries, c2);
    assert forall|k: Pubkey| class_keys(entries, c1).contains(k) implies !class_keys(
        entries,
        c2,
    ).contains(k) by {
        if class_keys(entries, c2).contains(k) {
            assert(has_entry(entries, k, c1));
            assert(has_entry(entries, k, c2));
            let p = choose|p: int|
                0 <= p < entries.len() && entries[p].pubkey == k && class_of(entries[p]) == c1;
            let q = choose|q: int|
                0 <= q < entries.len() && entries[q].pubkey == k && class_of(entries[q]) == c2;
            assert(p == q);
        }
    }
}

/// Sorting by class neither drops, adds nor repeats an address.
pub proof fn lemma_sorted_table(entries: Seq<AccountMeta>)
    requires
        distinct_keys(entries),
    ensures
        sorted_table(entries).no_duplicates(),
        sorted_table(entries).len() == entries.len(),
        forall|k: Pubkey| #[trigger] sorted_table(entries).contains(k) <==> has_key(entries, k),
{
    broadcast use vstd::seq_lib::lemma_seq_concat_contains_all_elements;

    let a = class_keys(entries, PriorityClass::RwSigner);
    let b = class_keys(entries, PriorityClass::RoSigner);
    let c = class_keys(entries, PriorityClass::Rw);
    let d = class_keys(entries, PriorityClass::RoOrNone);
    lemma_class_keys(entries, PriorityClass::RwSigner);
    lemma_class_keys(entries, PriorityClass::RoSigner);
    lemma_class_keys(entries, PriorityClass::Rw);
    lemma_class_keys(entries, PriorityClass::RoOrNone);
    lemma_class_sizes(entries);
    lemma_classes_disjoint(entries, PriorityClass::RwSigner, PriorityClass::RoSigner);
    lemma_classes_disjoint(entries, PriorityClass::RwSigner, PriorityClass::Rw);
    lemma_classes_disjoint(entries, PriorityClass::RwSigner, PriorityClass::RoOrNone);
    lemma_classes_disjoint(entries, PriorityClass::RoSigner, PriorityClass::Rw);
    lemma_classes_disjoint(entries, PriorityClass::RoSigner, PriorityClass::RoOrNone);
    lemma_classes_disjoint(entries, PriorityClass::Rw, PriorityClass::RoOrNone);
    lemma_disjoint_concat(a, b);
    lemma_disjoint_concat(a + b, c);
    lemma_disjoint_concat(a + b + c, d);
    assert forall|k: Pubkey| #[trigger] sorted_table(entries).contains(k) <==> has_key(
        entries,
        k,
    ) by {
        if has_key(entries, k) {
            let i = choose|i: int| 0 <= i < entries.len() && entries[i].pubkey == k;
            assert(has_entry(entries, k, class_of(entries[i])));
        }
        if sorted_table(entries).contains(k) {
            if a.contains(k) {
                assert(has_entry(entries, k, PriorityClass::RwSigner));
            } else if b.contains(k) {
                assert(has_entry(entries, k, PriorityClass::RoSigner));
            } else if c.contains(k) {
                assert(has_entry(entries, k, PriorityClass::Rw));
            } else {
                assert(has_entry(entries, k, PriorityClass::RoOrNone));
            }
        }
    }
}

/// Appends the addresses of class `c` to `table`, in order; returns how many.
fn append_class(entries: &Vec<AccountMeta>, c: PriorityClass, table: &mut Vec<Pubkey>) -> (n:
    usize)
    ensures
        final(table)@ == old(table)@ + class_keys(entries@, c),
        n == class_keys(entries@, c).len(),
{
    let ghost start = old(table)@;
    proof {
        assert(entries@.take(0) =~= seq![]);
        assert(start + seq![] =~= start);
    }
    let mut n: usize = 0;
    let mut i: usize = 0;
    while i < entries.len()
        invariant
            i <= entries@.len(),
            table@ == start + class_keys(entries@.take(i as int), c),
            n == class_keys(entries@.take(i as int), c).len(),
            n <= i,
        decreases entries@.len() - i,
    {
        let ghost prefix = entries@.take(i as int);
        proof {
            assert(entries@.take(i + 1).drop_last() =~= prefix);
            assert(entries@.take(i + 1).last() == entries@[i as int]);
        }
        if get_priority(&entries[i]) == c {
            table.push(entries[i].pubkey);
            n = n + 1;
            proof {
                assert(table@ =~= start + class_keys(entries@.take(i + 1), c));
            }
        }
        i = i + 1;
    }
    proof {
        assert(entries@.take(i as int) =~= entries@);
    }
    n
}

/// Sorts merged entries into the account table, stably by privilege class.
/// Returns the table and the sizes of the first three classes.
pub fn sort_by_priority(entries: &Vec<AccountMeta>) -> (r: (Vec<Pubkey>, usize, usize, usize))
    ensures
        r.0@ == sorted_table(entries@),
        r.1 == class_keys(entries@, PriorityClass::RwSigner).len(),
        r.2 == class_keys(entries@, PriorityClass::RoSigner).len(),
        r.3 == class_keys(entries@, PriorityClass::Rw).len(),
{
    let mut table: Vec<Pubkey> = Vec::new();
    let n_rw_signers = append_class(entries, PriorityClass::RwSigner, &mut table);
    let n_ro_signers = append_class(entries, PriorityClass::RoSigner, &mut table);
    let n_rw = append_class(entries, PriorityClass::Rw, &mut table);
    append_class(entries, PriorityClass::RoOrNone, &mut table);
    proof {
        assert(table@ =~= sorted_table(entries@));
    }
    (table, n_rw_signers, n_ro_signers, n_rw)
}

} // verus!
