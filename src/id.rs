//! Derivation of a certification's identifier from its owner's account.
use vstd::prelude::*;

verus! {

/// The little-endian bytes of `x`, `n` of them: how an account number is
/// encoded before it is hashed.
pub open spec fn le_bytes(x: nat, n: nat) -> Seq<u8>
    decreases n,
{
    if n == 0 {
        Seq::empty()
    } else {
        seq![(x % 256) as u8] + le_bytes(x / 256, (n - 1) as nat)
    }
}

/// The encoding of an account: its eight little-endian bytes.
pub open spec fn account_encoding(who: u64) -> Seq<u8> {
    le_bytes(who as nat, 8)
}

/// The 256-bit BLAKE2b digest of a byte sequence.
pub uninterp spec fn blake2_256_of(data: Seq<u8>) -> Seq<u8>;

/// The identifier of the certification owned by `who`.
pub open spec fn certification_id_of(who: u64) -> Seq<u8> {
    blake2_256_of(account_encoding(who))
}

/// Relies on sp_crypto_hashing::blake2_256: the 32-byte BLAKE2b digest of
/// `data`, which depends on the bytes alone.
#[verifier::external_body]
fn blake2_256(data: &Vec<u8>) -> (r: [u8; 32])
    ensures
        r@ == blake2_256_of(data@),
{
    sp_crypto_hashing::blake2_256(data.as_slice())
}

/// Encodes an account as its eight little-endian bytes.
pub fn encode_account(who: u64) -> (r: Vec<u8>)
    ensures
        r@ == account_encoding(who),
{
    let mut out: Vec<u8> = Vec::new();
    let mut v: u64 = who;
    let mut i: usize = 0;
    while i < 8
        invariant
            0 <= i <= 8,
            out@.len() == i,
            out@ + le_bytes(v as nat, (8 - i) as nat) == le_bytes(who as nat, 8),
        decreases 8 - i,
    {
        let ghost before = out@;
        let ghost rest = le_bytes(v as nat, (8 - i) as nat);
        out.push((v % 256) as u8);
        v = v / 256;
        i = i + 1;
        proof {
            let tail = le_bytes(v as nat, (8 - i) as nat);
            assert(rest == seq![rest[0]] + tail);
            assert(out@ + tail =~= before + (seq![rest[0]] + tail));
        }
    }
    assert(le_bytes(v as nat, 0) =~= Seq::<u8>::empty());
    assert(out@ + Seq::<u8>::empty() =~= out@);
    out
}

/// Derives the identifier of the certification that `who` owns: the BLAKE2b
/// digest of the account's encoding. The same account always gives the same
/// identifier.
pub fn derive_certification_id(who: u64) -> (r: [u8; 32])
    ensures
        r@ == certification_id_of(who),
{
    let bytes = encode_account(who);
    blake2_256(&bytes)
}

/// Identifier derivation is a function of the account alone: two derivations
/// for one account agree.
pub proof fn derivation_is_deterministic(a: u64, b: u64)
    requires
        a == b,
    ensures
        certification_id_of(a) == certification_id_of(b),
{
}

/// Byte-wise comparison of two identifiers.
pub fn same_id(a: &[u8; 32], b: &[u8; 32]) -> (r: bool)
    ensures
        r == (a@ == b@),
{
    let mut i: usize = 0;
    while i < 32
        invariant
            0 <= i <= 32,
            a@.len() == 32,
            b@.len() == 32,
            forall|j: int| 0 <= j < i ==> a@[j] == b@[j],
        decreases 32 - i,
    {
        if a[i] != b[i] {
            return false;
        }
        i = i + 1;
    }
    assert(a@ =~= b@);
    true
}

} // verus!
