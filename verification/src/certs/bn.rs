//! The non-negative integers of the cryptography library, held as the bytes
//! in which it renders them.

use super::le::{
    le_value, lemma_le_bytes_of_value, lemma_le_value_bound, lemma_le_value_needs_len,
    lemma_pow256_monotonic, pow256,
};
use super::Error;
use openssl::error::ErrorStack;
use vstd::prelude::*;

verus! {

/// Most bytes that the cryptography library takes for one number.
pub const MAX_BYTES: usize = 0x7fff_ffff;

/// The number that `bytes` denote when the first byte is the most significant.
pub open spec fn be_value(bytes: Seq<u8>) -> nat {
    le_value(bytes.reverse())
}

/// Whether `bytes` are the shortest big-endian form of their number: no zero
/// byte in front.
pub open spec fn canonical(bytes: Seq<u8>) -> bool {
    bytes.len() == 0 || bytes[0] != 0
}

/// The shortest form of a number needs as many bytes as the number is wide.
pub proof fn lemma_canonical_len(bytes: Seq<u8>, width: nat)
    requires
        canonical(bytes),
    ensures
        bytes.len() <= width <==> be_value(bytes) < pow256(width),
{
    let le = bytes.reverse();
    lemma_le_value_bound(le);
    if bytes.len() <= width {
        lemma_pow256_monotonic(le.len(), width);
    } else {
        lemma_le_value_needs_len(le);
        lemma_pow256_monotonic(width, (le.len() - 1) as nat);
    }
}

/// A number has one shortest form, so what `Magnitude::to_vec` states of
/// its bytes leaves no choice of them.
pub proof fn lemma_canonical_unique(a: Seq<u8>, b: Seq<u8>)
    requires
        canonical(a),
        canonical(b),
        be_value(a) == be_value(b),
    ensures
        a == b,
{
    lemma_canonical_len(a, a.len());
    lemma_canonical_len(a, b.len());
    lemma_canonical_len(b, a.len());
    lemma_canonical_len(b, b.len());
    lemma_le_bytes_of_value(a.reverse());
    lemma_le_bytes_of_value(b.reverse());
    assert(a.reverse().reverse() =~= a);
    assert(b.reverse().reverse() =~= b);
}

/// `openssl::bn::BigNum::from_slice` on `be`, and `BigNumRef::to_vec` on the
/// number that it made. The first reads `be` as an unsigned number, most
/// significant byte first, whatever zero bytes stand in front; the second
/// renders a number in as many bytes as it needs, in the same order. So what
/// comes back denotes the number of `be` and has no zero byte in front.
/// `from_slice` refuses, by a panic, more bytes than a C `int` counts.
#[verifier::external_body]
fn bn_from_slice(be: &[u8]) -> (parsed: Result<Vec<u8>, ErrorStack>)
    requires
        be@.len() <= MAX_BYTES,
    ensures
        parsed matches Ok(v) ==> be_value(v@) == be_value(be@) && canonical(v@),
{
    let number = openssl::bn::BigNum::from_slice(be)?;
    Ok(number.to_vec())
}

/// A non-negative integer of any size.
#[derive(Debug, PartialEq, Eq)]
pub struct Magnitude {
    be: Vec<u8>,
}

impl View for Magnitude {
    type V = nat;

    closed spec fn view(&self) -> nat {
        be_value(self.be@)
    }
}

impl Clone for Magnitude {
    fn clone(&self) -> (copy: Self)
        ensures
            copy@ == self@,
    {
        proof {
            use_type_invariant(self);
        }
        Magnitude { be: self.be.clone() }
    }
}

impl Magnitude {
    #[verifier::type_invariant]
    spec fn shortest(self) -> bool {
        canonical(self.be@)
    }

    /// What the cryptography library made of a run of bytes, as a number or
    /// as the error of this library.
    pub fn constructed(parsed: Result<Vec<u8>, ErrorStack>) -> (r: Result<Magnitude, Error>)
        requires
            parsed matches Ok(v) ==> canonical(v@),
        ensures
            match parsed {
                Ok(v) => r matches Ok(m) && m@ == be_value(v@),
                Err(stack) => r == Err::<Magnitude, Error>(Error::Crypto(stack)),
            },
    {
        match parsed {
            Ok(v) => Ok(Magnitude { be: v }),
            Err(stack) => Err(Error::Crypto(stack)),
        }
    }

    /// The number that `be` denote, most significant byte first. The
    /// cryptography library constructs it, and may fail to.
    pub fn from_slice(be: &[u8]) -> (r: Result<Magnitude, Error>)
        ensures
            match r {
                Ok(m) => m@ == be_value(be@) && be@.len() <= MAX_BYTES,
                Err(Error::Oversized) => be@.len() > MAX_BYTES,
                Err(Error::Crypto(_)) => be@.len() <= MAX_BYTES,
                Err(_) => false,
            },
    {
        if be.len() > MAX_BYTES {
            return Err(Error::Oversized);
        }
        Magnitude::constructed(bn_from_slice(be))
    }

    /// The bytes of the number, most significant first and none of them a
    /// zero in front.
    pub fn to_vec(&self) -> (be: Vec<u8>)
        ensures
            be_value(be@) == self@,
            canonical(be@),
    {
        proof {
            use_type_invariant(self);
        }
        self.be.clone()
    }

    /// How many bytes the number needs.
    pub fn num_bytes(&self) -> (n: usize)
        ensures
            forall|width: nat| n <= width <==> self@ < #[trigger] pow256(width),
    {
        proof {
            use_type_invariant(self);
            assert forall|width: nat| self.be@.len() <= width <==> self@ < #[trigger] pow256(
                width,
            ) by {
                lemma_canonical_len(self.be@, width);
            }
        }
        self.be.len()
    }
}

} // verus!
