//! What the platform firmware reports: its state, its build, and the errors
//! with which it turns a command down.

use vstd::prelude::*;

pub mod linux;

verus! {

/// An outcome that is either one of the known ones or not recognised at all.
#[derive(Clone, Copy, Debug, PartialEq, Eq)]
pub enum Indeterminate<T> {
    Known(T),
    Unknown,
}

/// Why a command failed.
#[derive(Clone, Copy, Debug, PartialEq, Eq)]
pub enum Error {
    /// The operating system failed the call before the firmware answered;
    /// the number is the error that it reported.
    IoError(i32),
    /// The platform is in no state that allows the command.
    InvalidPlatformState,
    /// The guest is in no state that allows the command.
    InvalidGuestState,
    /// The platform configuration is invalid.
    InvalidConfig,
    /// A buffer is too small for what the firmware has to put in it.
    InvalidLen,
    /// The platform is already owned.
    AlreadyOwned,
    /// The certificate is invalid.
    InvalidCertificate,
    /// The guest policy does not allow the request.
    PolicyFailure,
    /// The guest is inactive.
    Inactive,
    /// An address handed to the firmware is invalid.
    InvalidAddress,
    /// A signature is invalid.
    BadSignature,
    /// A measurement is invalid.
    BadMeasurement,
    /// The address-space identifier is already owned.
    AsidOwned,
    /// The address-space identifier is invalid.
    InvalidAsid,
    /// The caches have to be written back and invalidated first.
    WbinvdRequired,
    /// The data fabric has to be flushed first.
    DfFlushRequired,
    /// The guest handle is invalid.
    InvalidGuest,
    /// The command is invalid.
    InvalidCommand,
    /// The guest is active.
    Active,
    /// The hardware failed; it is safe to go on.
    HardwarePlatform,
    /// The hardware failed; it is not safe to go on.
    HardwareUnsafe,
    /// The firmware does not support the feature.
    Unsupported,
}

/// The failure that the firmware's error code `code` stands for. A zero
/// code on a failed call means that the firmware never saw the command:
/// the operating system's error `os_error` is the cause.
pub open spec fn failure(code: u32, os_error: i32) -> Indeterminate<Error> {
    match code {
        0x00 => Indeterminate::Known(Error::IoError(os_error)),
        0x01 => Indeterminate::Known(Error::InvalidPlatformState),
        0x02 => Indeterminate::Known(Error::InvalidGuestState),
        0x03 => Indeterminate::Known(Error::InvalidConfig),
        0x04 => Indeterminate::Known(Error::InvalidLen),
        0x05 => Indeterminate::Known(Error::AlreadyOwned),
        0x06 => Indeterminate::Known(Error::InvalidCertificate),
        0x07 => Indeterminate::Known(Error::PolicyFailure),
        0x08 => Indeterminate::Known(Error::Inactive),
        0x09 => Indeterminate::Known(Error::InvalidAddress),
        0x0a => Indeterminate::Known(Error::BadSignature),
        0x0b => Indeterminate::Known(Error::BadMeasurement),
        0x0c => Indeterminate::Known(Error::AsidOwned),
        0x0d => Indeterminate::Known(Error::InvalidAsid),
        0x0e => Indeterminate::Known(Error::WbinvdRequired),
        0x0f => Indeterminate::Known(Error::DfFlushRequired),
        0x10 => Indeterminate::Known(Error::InvalidGuest),
        0x11 => Indeterminate::Known(Error::InvalidCommand),
        0x12 => Indeterminate::Known(Error::Active),
        0x13 => Indeterminate::Known(Error::HardwarePlatform),
        0x14 => Indeterminate::Known(Error::HardwareUnsafe),
        0x15 => Indeterminate::Known(Error::Unsupported),
        _ => Indeterminate::Unknown,
    }
}

impl Indeterminate<Error> {
    /// The failure that the firmware's error code `code` stands for, with
    /// `os_error` as the cause where the firmware gave none.
    pub fn from_code(code: u32, os_error: i32) -> (r: Self)
        ensures
            r == failure(code, os_error),
    {
        Indeterminate::Known(
            match code {
                0x00 => Error::IoError(os_error),
                0x01 => Error::InvalidPlatformState,
                0x02 => Error::InvalidGuestState,
                0x03 => Error::InvalidConfig,
                0x04 => Error::InvalidLen,
                0x05 => Error::AlreadyOwned,
                0x06 => Error::InvalidCertificate,
                0x07 => Error::PolicyFailure,
                0x08 => Error::Inactive,
                0x09 => Error::InvalidAddress,
                0x0a => Error::BadSignature,
                0x0b => Error::BadMeasurement,
                0x0c => Error::AsidOwned,
                0x0d => Error::InvalidAsid,
                0x0e => Error::WbinvdRequired,
                0x0f => Error::DfFlushRequired,
                0x10 => Error::InvalidGuest,
                0x11 => Error::InvalidCommand,
                0x12 => Error::Active,
                0x13 => Error::HardwarePlatform,
                0x14 => Error::HardwareUnsafe,
                0x15 => Error::Unsupported,
                _ => return Indeterminate::Unknown,
            },
        )
    }
}

/// The version of the firmware's programming interface.
#[derive(Clone, Copy, Debug, PartialEq, Eq)]
pub struct Version {
    pub major: u8,
    pub minor: u8,
}

/// A build of the firmware.
#[derive(Clone, Copy, Debug, PartialEq, Eq)]
pub struct Build {
    pub version: Version,
    pub build: u8,
}

/// The platform's capability flags.
#[derive(Clone, Copy, Debug, PartialEq, Eq)]
pub struct Flags {
    pub bits: u32,
}

impl Flags {
    /// The platform is owned.
    pub const OWNED: u32 = 0x001;

    /// The platform encrypts the register state of its guests.
    pub const ENCRYPTED_STATE: u32 = 0x100;

    /// Every bit that stands for a flag.
    pub const ALL: u32 = 0x101;

    /// The flags among `bits`; a bit that stands for none is dropped.
    pub fn from_bits_truncate(bits: u32) -> (flags: Flags)
        ensures
            flags == (Flags { bits: bits & Flags::ALL }),
    {
        Flags { bits: bits & Flags::ALL }
    }

    /// The bits that are set.
    pub fn bits(&self) -> (bits: u32)
        ensures
            bits == self.bits,
    {
        self.bits
    }

    /// Whether every bit of `mask` is set.
    pub fn contains(&self, mask: u32) -> (held: bool)
        ensures
            held == (self.bits & mask == mask),
    {
        self.bits & mask == mask
    }
}

/// The state of the platform.
#[derive(Clone, Copy, Debug, PartialEq, Eq)]
pub enum State {
    /// The platform holds no keys yet.
    Uninitialized,
    /// The platform holds its keys and runs no guest.
    Initialized,
    /// The platform runs guests.
    Working,
}

/// The state that the firmware's state byte stands for, if it is one.
pub open spec fn state_of(byte: u8) -> Option<State> {
    match byte {
        0 => Some(State::Uninitialized),
        1 => Some(State::Initialized),
        2 => Some(State::Working),
        _ => None,
    }
}

impl State {
    /// The state that the firmware's state byte stands for. A byte that
    /// stands for none gives none: no state is taken for granted.
    pub fn from_byte(byte: u8) -> (state: Option<State>)
        ensures
            state == state_of(byte),
    {
        match byte {
            0 => Some(State::Uninitialized),
            1 => Some(State::Initialized),
            2 => Some(State::Working),
            _ => None,
        }
    }
}

/// What the platform reports of itself.
#[derive(Clone, Copy, Debug, PartialEq, Eq)]
pub struct Status {
    /// The firmware build.
    pub build: Build,
    /// The state of the platform.
    pub state: State,
    /// The capability flags.
    pub flags: Flags,
    /// How many guests the platform runs.
    pub guests: u32,
}

/// What identifies a platform: a run of bytes of no fixed length.
#[derive(Clone, Debug, PartialEq, Eq)]
pub struct Identifier(pub Vec<u8>);

} // verus!
