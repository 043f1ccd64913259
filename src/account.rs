use vstd::prelude::*;

verus! {

broadcast use vstd::array::group_array_axioms;

/// A 32-byte account address.
#[derive(Clone, Copy, Debug, PartialEq, Eq, Hash)]
pub struct Pubkey {
    pub bytes: [u8; 32],
}

impl Pubkey {
    pub fn new(bytes: [u8; 32]) -> (r: Pubkey)
        ensures
            r.bytes == bytes,
    {
        Pubkey { bytes }
    }

    /// Byte-wise comparison of two addresses.
    pub fn same_as(&self, other: &Pubkey) -> (r: bool)
        ensures
            r == (*self == *other),
    {
        let mut i: usize = 0;
        while i < 32
            invariant
                i <= 32,
                forall|j: int| 0 <= j < i ==> self.bytes[j] == other.bytes[j],
            decreases 32 - i,
        {
            if self.bytes[i] != other.bytes[i] {
                return false;
            }
            i = i + 1;
        }
        assert(self.bytes =~= other.bytes);
        true
    }
}

/// One reference to an account made by an instruction.
#[derive(Clone, Copy, Debug, PartialEq, Eq)]
pub struct AccountMeta {
    pub pubkey: Pubkey,
    pub is_signer: bool,
    pub is_writable: bool,
}

/// One operation: the program it targets, the accounts it references in
/// order, and its opaque payload.
#[derive(Clone, Debug, PartialEq, Eq)]
pub struct Instruction {
    pub program_id: Pubkey,
    pub accounts: Vec<AccountMeta>,
    pub data: Vec<u8>,
}

/// The four privilege classes, in table order.
#[derive(Clone, Copy, Debug, PartialEq, Eq, Structural)]
pub enum PriorityClass {
    RwSigner,
    RoSigner,
    Rw,
    RoOrNone,
}

pub open spec fn class_of_flags(is_signer: bool, is_writable: bool) -> PriorityClass {
    if is_signer && is_writable {
        PriorityClass::RwSigner
    } else if is_signer {
        PriorityClass::RoSigner
    } else if is_writable {
        PriorityClass::Rw
    } else {
        PriorityClass::RoOrNone
    }
}

pub open spec fn class_of(meta: AccountMeta) -> PriorityClass {
    class_of_flags(meta.is_signer, meta.is_writable)
}

/// The privilege class of a merged account entry.
pub fn get_priority(meta: &AccountMeta) -> (r: PriorityClass)
    ensures
        r == class_of(*meta),
{
    match (meta.is_signer, meta.is_writable) {
        (true, true) => PriorityClass::RwSigner,
        (true, false) => PriorityClass::RoSigner,
        (false, true) => PriorityClass::Rw,
        (false, false) => PriorityClass::RoOrNone,
    }
}

} // verus!
