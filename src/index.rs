use vstd::prelude::*;

use crate::account::Pubkey;
use crate::error::CompileError;

verus! {

/// Largest number of accounts whose positions fit in a byte.
pub const MAX_ACCOUNTS: usize = 256;

/// The account table as a lookup from address to its position.
pub struct AccountIndex {
    keys: Vec<Pubkey>,
}

impl View for AccountIndex {
    type V = Seq<Pubkey>;

    closed spec fn view(&self) -> Seq<Pubkey> {
        self.keys@
    }
}

impl AccountIndex {
    /// Each address holds exactly one position, and every position fits in
    /// a byte.
    pub closed spec fn wf(&self) -> bool {
        self.keys@.no_duplicates() && self.keys@.len() <= MAX_ACCOUNTS
    }

    /// Assigns each address of `table` its position in it.
    pub fn new(table: Vec<Pubkey>) -> (r: Result<AccountIndex, CompileError>)
        ensures
            match r {
                Ok(index) => index.wf() && index@ == table@,
                Err(e) => if table@.len() > MAX_ACCOUNTS {
                    e == CompileError::Overflow
                } else {
                    e == CompileError::DuplicateIdentity && !table@.no_duplicates()
                },
            },
            r is Ok <==> (table@.len() <= MAX_ACCOUNTS && table@.no_duplicates()),
    {
        if table.len() > MAX_ACCOUNTS {
            return Err(CompileError::Overflow);
        }
        let mut i: usize = 0;
        while i < table.len()
            invariant
                i <= table@.len() <= MAX_ACCOUNTS,
                forall|a: int, b: int|
                    0 <= a < i && 0 <= b < i && a != b ==> table@[a] != table@[b],
            decreases table@.len() - i,
        {
            let mut j: usize = 0;
            while j < i
                invariant
                    j <= i < table@.len() <= MAX_ACCOUNTS,
                    forall|b: int| 0 <= b < j ==> table@[b] != table@[i as int],
                decreases i - j,
            {
                if table[j].same_as(&table[i]) {
                    assert(!table@.no_duplicates()) by {
                        assert(table@[j as int] == table@[i as int]);
                    }
                    return Err(CompileError::DuplicateIdentity);
                }
                j = j + 1;
            }
            i = i + 1;
        }
        assert(table@.no_duplicates());
        Ok(AccountIndex { keys: table })
    }

    /// The position of `k` in the table.
    pub fn index_of(&self, k: &Pubkey) -> (r: Result<u8, CompileError>)
        requires
            self.wf(),
        ensures
            match r {
                Ok(i) => (i as int) < self@.len() && self@[i as int] == *k,
                Err(e) => e == CompileError::InvalidReference && !self@.contains(*k),
            },
            r is Ok <==> self@.contains(*k),
    {
        let mut i: usize = 0;
        while i < self.keys.len()
            invariant
                i <= self.keys@.len() <= MAX_ACCOUNTS,
                forall|j: int| 0 <= j < i ==> self.keys@[j] != *k,
            decreases self.keys@.len() - i,
        {
            if self.keys[i].same_as(k) {
                return Ok(i as u8);
            }
            i = i + 1;
        }
        Err(CompileError::InvalidReference)
    }

    /// The addresses in table order.
    pub fn keys(&self) -> (r: &Vec<Pubkey>)
        ensures
            r@ == self@,
    {
        &self.keys
    }

    /// Hands the table back.
    pub fn into_keys(self) -> (r: Vec<Pubkey>)
        ensures
            r@ == self@,
    {
        self.keys
    }
}

} // verus!
