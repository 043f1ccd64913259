use sha2::Digest;
use vstd::prelude::*;

verus! {

/// The SHA-256 digest of `data`.
pub uninterp spec fn sha256_of(data: Seq<u8>) -> Seq<u8>;

/// Relies on sha2::Sha256 (`new`, `update`, `finalize`): the SHA-256 digest
/// of the bytes given, 32 bytes long.
#[verifier::external_body]
fn sha256(data: &[u8]) -> (r: [u8; 32])
    ensures
        r@ == sha256_of(data@),
{
    let mut hasher = sha2::Sha256::new();
    hasher.update(data);
    hasher.finalize().into()
}

/// The bytes of `global:`, the namespace of instruction names.
pub open spec fn global_namespace() -> Seq<u8> {
    seq![103u8, 108u8, 111u8, 98u8, 97u8, 108u8, 58u8]
}

/// The first eight bytes of a digest.
pub fn discriminator_from_digest(digest: &[u8; 32]) -> (r: [u8; 8])
    ensures
        r@ == digest@.take(8),
{
    let r = [digest[0], digest[1], digest[2], digest[3], digest[4], digest[5], digest[6], digest[7]];
    assert(r@ =~= digest@.take(8));
    r
}

/// `global:` followed by `name`.
fn global_preimage(name: &[u8]) -> (r: Vec<u8>)
    ensures
        r@ == global_namespace() + name@,
{
    let mut out: Vec<u8> = Vec::new();
    out.push(103u8);
    out.push(108u8);
    out.push(111u8);
    out.push(98u8);
    out.push(97u8);
    out.push(108u8);
    out.push(58u8);
    assert(out@ =~= global_namespace());
    let mut i: usize = 0;
    while i < name.len()
        invariant
            i <= name@.len(),
            out@ =~= global_namespace() + name@.take(i as int),
        decreases name@.len() - i,
    {
        out.push(name[i]);
        i = i + 1;
    }
    assert(name@.take(i as int) =~= name@);
    out
}

/// The eight-byte tag that selects the instruction called `name` in a
/// program's instruction data: the start of the SHA-256 digest of
/// `global:` followed by the name.
pub fn instruction_discriminator(name: &[u8]) -> (r: [u8; 8])
    ensures
        r@ == sha256_of(global_namespace() + name@).take(8),
{
    let preimage = global_preimage(name);
    let digest = sha256(preimage.as_slice());
    discriminator_from_digest(&digest)
}

} // verus!
