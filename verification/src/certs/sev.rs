//! The certificates of the platform's endorsement hierarchy.

use super::util::{array_of, lemma_array_of, push_array, read_array, Pod};
use vstd::prelude::*;

verus! {

/// Number of bytes in one certificate as the firmware lays it out.
pub const CERTIFICATE_SIZE: usize = 2084;

/// One certificate, as the bytes that the firmware reads and writes. What
/// they mean, and whether two certificates are the same, is for the
/// cryptography that consumes them.
#[derive(Clone, Copy, Debug)]
pub struct Certificate {
    pub bytes: [u8; CERTIFICATE_SIZE],
}

/// The endorsement hierarchy of a platform.
#[derive(Clone, Copy, Debug)]
pub struct Chain {
    /// The platform Diffie-Hellman key.
    pub pdh: Certificate,
    /// The platform endorsement key.
    pub pek: Certificate,
    /// The owner certificate authority.
    pub oca: Certificate,
    /// The chip endorsement key.
    pub cek: Certificate,
}

impl View for Certificate {
    type V = Seq<u8>;

    open spec fn view(&self) -> Seq<u8> {
        self.bytes@
    }
}

impl Pod for Certificate {
    open spec fn size() -> nat {
        CERTIFICATE_SIZE as nat
    }

    open spec fn bytes(self) -> Seq<u8> {
        self@
    }

    open spec fn from_bytes(bytes: Seq<u8>) -> Self {
        Certificate { bytes: array_of::<CERTIFICATE_SIZE>(bytes) }
    }

    proof fn lemma_layout(self) {
        lemma_array_of(self.bytes);
    }

    fn width() -> (n: usize) {
        CERTIFICATE_SIZE
    }

    fn encode(&self, out: &mut Vec<u8>) {
        push_array(out, &self.bytes);
    }

    fn decode(bytes: &[u8]) -> (value: Self) {
        proof {
            assert(bytes@.subrange(0, CERTIFICATE_SIZE as int) =~= bytes@);
        }
        Certificate { bytes: read_array::<CERTIFICATE_SIZE>(bytes, 0) }
    }
}

} // verus!
