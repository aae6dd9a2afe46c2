//! Driver-level interface to the AMD Secure Encrypted Virtualization platform:
//! the byte layout of what is exchanged with the firmware, and the decisions
//! taken on what it answers.
//!
//! Nothing here touches the device. A caller that owns the open device builds
//! its command from the types of [`firmware::linux`], performs the privileged
//! call, and hands the outcome back to be decoded.

pub mod certs;
pub mod firmware;
