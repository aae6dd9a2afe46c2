//! Certificate material as the firmware lays it out, and the codecs that move
//! it across byte boundaries.

use vstd::prelude::*;

pub mod bn;
pub mod le;
pub mod sev;
pub mod util;

verus! {

/// The errors that OpenSSL has queued for the calling thread, as
/// `openssl::error::ErrorStack` carries them. Nothing is known of what is
/// inside: a value of it is only passed on.
#[verifier::external_type_specification]
#[verifier::external_body]
pub struct ExErrorStack(openssl::error::ErrorStack);

/// Why a codec of this module gave no value.
#[derive(Debug)]
pub enum Error {
    /// The source ended before the value was complete.
    UnexpectedEof,
    /// The sink had no room left for the whole value.
    WriteZero,
    /// More bytes than the cryptography library takes for one number.
    Oversized,
    /// The cryptography library could not construct the number.
    Crypto(openssl::error::ErrorStack),
}

} // verus!
