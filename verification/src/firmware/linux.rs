//! The command protocol of the platform device: what is laid out for the
//! firmware before the privileged call, and what is made of the memory that
//! the call leaves behind.
//!
//! Multi-byte fields are little-endian, the byte order of the processors
//! that carry this firmware, and no field is padded.

use super::{
    failure, state_of, Build, Error, Flags, Identifier, Indeterminate, State, Status, Version,
};
use crate::certs::le::{
    le_bytes, le_value, lemma_le_bytes_len, lemma_le_bytes_of_value, lemma_le_value_bound,
    lemma_le_value_of_bytes, lemma_pow256_small, push_le, read_le,
};
use crate::certs::sev::{Certificate, Chain, CERTIFICATE_SIZE};
use crate::certs::util::{
    array_of, lemma_array_of, pod_array, push_array, read_array, ByteReader, Pod, TypeLoad,
};
use vstd::prelude::*;

verus! {

/// Where the operating system shows the platform device.
pub const DEVICE_PATH: &'static str = "/dev/sev";

/// The request code of the privileged call that issues a command.
pub const SEV_ISSUE_CMD: u64 = 0xc010_5300;

/// Number of bytes in a command record.
pub const COMMAND_SIZE: usize = 16;

/// Number of bytes in which the firmware reports the platform status.
pub const INFO_SIZE: usize = 12;

/// Number of bytes in which one buffer is described to the firmware.
pub const CERT_BUFFER_SIZE: usize = 12;

/// Number of bytes in which two buffers are described to the firmware.
pub const CERT_BUFFERS_SIZE: usize = 24;

/// Number of bytes in one field of the firmware's answer to a request for
/// the platform's identifier.
pub const ID_SIZE: usize = 64;

/// Number of bytes in the firmware's answer to a request for the platform's
/// identifier.
pub const IDS_SIZE: usize = 128;

/// Number of bytes in the buffer that takes the three certificates below
/// the platform Diffie-Hellman key.
pub const CHAIN_SIZE: usize = 6252;

/// The operations of the platform.
#[derive(Clone, Copy, Debug, PartialEq, Eq, Hash)]
pub enum Code {
    PlatformReset,
    PlatformStatus,
    PekGenerate,
    PekCertificateSigningRequest,
    PdhGenerate,
    PdhCertificateExport,
    PekCertificateImport,
    GetIdentifier,
}

impl Code {
    /// The number by which the firmware knows the operation.
    pub open spec fn spec_number(self) -> u32 {
        match self {
            Code::PlatformReset => 0,
            Code::PlatformStatus => 1,
            Code::PekGenerate => 2,
            Code::PekCertificateSigningRequest => 3,
            Code::PdhGenerate => 4,
            Code::PdhCertificateExport => 5,
            Code::PekCertificateImport => 6,
            Code::GetIdentifier => 7,
        }
    }

    /// The number by which the firmware knows the operation.
    #[verifier::when_used_as_spec(spec_number)]
    pub fn number(self) -> (n: u32)
        ensures
            n == self.spec_number(),
    {
        match self {
            Code::PlatformReset => 0,
            Code::PlatformStatus => 1,
            Code::PekGenerate => 2,
            Code::PekCertificateSigningRequest => 3,
            Code::PdhGenerate => 4,
            Code::PdhCertificateExport => 5,
            Code::PekCertificateImport => 6,
            Code::GetIdentifier => 7,
        }
    }
}

/// The record that the privileged call takes: which operation, where its
/// payload lies, and, once the call is back, the firmware's error code.
#[derive(Clone, Copy, Debug, PartialEq, Eq)]
pub struct Command {
    pub code: u32,
    pub data: u64,
    pub error: u32,
}

impl Command {
    /// The record of the operation `code` on the payload at address `data`.
    pub fn new(code: Code, data: u64) -> (command: Command)
        ensures
            command == (Command { code: code.number(), data, error: 0 }),
    {
        Command { code: code.number(), data, error: 0 }
    }

    /// The record as the privileged call takes it.
    pub fn to_bytes(&self) -> (record: [u8; COMMAND_SIZE])
        ensures
            record@ == self.bytes(),
    {
        pod_array::<Command, COMMAND_SIZE>(self)
    }
}

impl Pod for Command {
    open spec fn size() -> nat {
        COMMAND_SIZE as nat
    }

    open spec fn bytes(self) -> Seq<u8> {
        le_bytes(self.code as nat, 4) + le_bytes(self.data as nat, 8) + le_bytes(
            self.error as nat,
            4,
        )
    }

    open spec fn from_bytes(bytes: Seq<u8>) -> Self {
        Command {
            code: le_value(bytes.subrange(0, 4)) as u32,
            data: le_value(bytes.subrange(4, 12)) as u64,
            error: le_value(bytes.subrange(12, 16)) as u32,
        }
    }

    proof fn lemma_layout(self) {
        let code = le_bytes(self.code as nat, 4);
        let data = le_bytes(self.data as nat, 8);
        let error = le_bytes(self.error as nat, 4);
        lemma_pow256_small();
        lemma_le_bytes_len(self.code as nat, 4);
        lemma_le_bytes_len(self.data as nat, 8);
        lemma_le_bytes_len(self.error as nat, 4);
        lemma_le_value_of_bytes(self.code as nat, 4);
        lemma_le_value_of_bytes(self.data as nat, 8);
        lemma_le_value_of_bytes(self.error as nat, 4);
        let all = self.bytes();
        assert(all.subrange(0, 4) =~= code);
        assert(all.subrange(4, 12) =~= data);
        assert(all.subrange(12, 16) =~= error);
    }

    fn width() -> (n: usize) {
        COMMAND_SIZE
    }

    fn encode(&self, out: &mut Vec<u8>) {
        push_le(out, self.code as u64, 4);
        push_le(out, self.data, 8);
        push_le(out, self.error as u64, 4);
    }

    fn decode(bytes: &[u8]) -> (value: Self) {
        let code: u64 = read_le(bytes, 0, 4);
        let data: u64 = read_le(bytes, 4, 8);
        let error: u64 = read_le(bytes, 12, 4);
        proof {
            let b = bytes@;
            lemma_pow256_small();
            lemma_le_value_bound(b.subrange(0, 4));
            lemma_le_value_bound(b.subrange(12, 16));
            lemma_le_bytes_of_value(b.subrange(0, 4));
            lemma_le_bytes_of_value(b.subrange(4, 12));
            lemma_le_bytes_of_value(b.subrange(12, 16));
            assert(b =~= b.subrange(0, 4) + b.subrange(4, 12) + b.subrange(12, 16));
        }
        Command { code: code as u32, data, error: error as u32 }
    }
}

/// The platform status as the firmware writes it.
#[derive(Clone, Copy, Debug, PartialEq, Eq)]
pub struct Info {
    pub api_major: u8,
    pub api_minor: u8,
    pub state: u8,
    pub flags: u32,
    pub build: u8,
    pub guest_count: u32,
}

impl Pod for Info {
    open spec fn size() -> nat {
        INFO_SIZE as nat
    }

    open spec fn bytes(self) -> Seq<u8> {
        seq![self.api_major, self.api_minor, self.state] + le_bytes(self.flags as nat, 4)
            + seq![self.build] + le_bytes(self.guest_count as nat, 4)
    }

    open spec fn from_bytes(bytes: Seq<u8>) -> Self {
        Info {
            api_major: bytes[0],
            api_minor: bytes[1],
            state: bytes[2],
            flags: le_value(bytes.subrange(3, 7)) as u32,
            build: bytes[7],
            guest_count: le_value(bytes.subrange(8, 12)) as u32,
        }
    }

    proof fn lemma_layout(self) {
        let flags = le_bytes(self.flags as nat, 4);
        let guests = le_bytes(self.guest_count as nat, 4);
        lemma_pow256_small();
        lemma_le_bytes_len(self.flags as nat, 4);
        lemma_le_bytes_len(self.guest_count as nat, 4);
        lemma_le_value_of_bytes(self.flags as nat, 4);
        lemma_le_value_of_bytes(self.guest_count as nat, 4);
        let all = self.bytes();
        assert(all.subrange(3, 7) =~= flags);
        assert(all.subrange(8, 12) =~= guests);
    }

    fn width() -> (n: usize) {
        INFO_SIZE
    }

    fn encode(&self, out: &mut Vec<u8>) {
        out.push(self.api_major);
        out.push(self.api_minor);
        out.push(self.state);
        push_le(out, self.flags as u64, 4);
        out.push(self.build);
        push_le(out, self.guest_count as u64, 4);
    }

    fn decode(bytes: &[u8]) -> (value: Self) {
        let flags: u64 = read_le(bytes, 3, 4);
        let guest_count: u64 = read_le(bytes, 8, 4);
        proof {
            let b = bytes@;
            lemma_pow256_small();
            lemma_le_value_bound(b.subrange(3, 7));
            lemma_le_value_bound(b.subrange(8, 12));
            lemma_le_bytes_of_value(b.subrange(3, 7));
            lemma_le_bytes_of_value(b.subrange(8, 12));
            assert(b =~= seq![b[0], b[1], b[2]] + b.subrange(3, 7) + seq![b[7]] + b.subrange(
                8,
                12,
            ));
        }
        Info {
            api_major: bytes[0],
            api_minor: bytes[1],
            state: bytes[2],
            flags: flags as u32,
            build: bytes[7],
            guest_count: guest_count as u32,
        }
    }
}

/// The status that the firmware's report `info` stands for. A state byte
/// that stands for no state gives no status.
pub open spec fn status_of(info: Info) -> Result<Status, Indeterminate<Error>> {
    match state_of(info.state) {
        Some(state) => Ok(
            Status {
                build: Build {
                    version: Version { major: info.api_major, minor: info.api_minor },
                    build: info.build,
                },
                state,
                flags: Flags { bits: info.flags & Flags::ALL },
                guests: info.guest_count,
            },
        ),
        None => Err(Indeterminate::Unknown),
    }
}

impl Info {
    /// The status that the report stands for.
    pub fn status(&self) -> (r: Result<Status, Indeterminate<Error>>)
        ensures
            r == status_of(*self),
    {
        match State::from_byte(self.state) {
            Some(state) => Ok(
                Status {
                    build: Build {
                        version: Version { major: self.api_major, minor: self.api_minor },
                        build: self.build,
                    },
                    state,
                    flags: Flags::from_bits_truncate(self.flags),
                    guests: self.guest_count,
                },
            ),
            None => Err(Indeterminate::Unknown),
        }
    }
}

/// Where the firmware finds, or is to put, one certificate.
#[derive(Clone, Copy, Debug, PartialEq, Eq)]
pub struct CertBuffer {
    pub addr: u64,
    pub len: u32,
}

impl CertBuffer {
    /// The buffer of one certificate at address `addr`.
    pub fn new(addr: u64) -> (buffer: CertBuffer)
        ensures
            buffer == (CertBuffer { addr, len: CERTIFICATE_SIZE as u32 }),
    {
        CertBuffer { addr, len: CERTIFICATE_SIZE as u32 }
    }

    /// The description as the firmware reads it.
    pub fn to_bytes(&self) -> (record: [u8; CERT_BUFFER_SIZE])
        ensures
            record@ == self.bytes(),
    {
        pod_array::<CertBuffer, CERT_BUFFER_SIZE>(self)
    }
}

impl Pod for CertBuffer {
    open spec fn size() -> nat {
        CERT_BUFFER_SIZE as nat
    }

    open spec fn bytes(self) -> Seq<u8> {
        le_bytes(self.addr as nat, 8) + le_bytes(self.len as nat, 4)
    }

    open spec fn from_bytes(bytes: Seq<u8>) -> Self {
        CertBuffer {
            addr: le_value(bytes.subrange(0, 8)) as u64,
            len: le_value(bytes.subrange(8, 12)) as u32,
        }
    }

    proof fn lemma_layout(self) {
        let addr = le_bytes(self.addr as nat, 8);
        let len = le_bytes(self.len as nat, 4);
        lemma_pow256_small();
        lemma_le_bytes_len(self.addr as nat, 8);
        lemma_le_bytes_len(self.len as nat, 4);
        lemma_le_value_of_bytes(self.addr as nat, 8);
        lemma_le_value_of_bytes(self.len as nat, 4);
        let all = self.bytes();
        assert(all.subrange(0, 8) =~= addr);
        assert(all.subrange(8, 12) =~= len);
    }

    fn width() -> (n: usize) {
        CERT_BUFFER_SIZE
    }

    fn encode(&self, out: &mut Vec<u8>) {
        push_le(out, self.addr, 8);
        push_le(out, self.len as u64, 4);
    }

    fn decode(bytes: &[u8]) -> (value: Self) {
        let addr: u64 = read_le(bytes, 0, 8);
        let len: u64 = read_le(bytes, 8, 4);
        proof {
            let b = bytes@;
            lemma_pow256_small();
            lemma_le_value_bound(b.subrange(8, 12));
            lemma_le_bytes_of_value(b.subrange(0, 8));
            lemma_le_bytes_of_value(b.subrange(8, 12));
            assert(b =~= b.subrange(0, 8) + b.subrange(8, 12));
        }
        CertBuffer { addr, len: len as u32 }
    }
}

/// Where the firmware is to put the certificates that it exports: the
/// platform Diffie-Hellman key in one buffer, and in the other the three
/// certificates below it, one after the other.
#[derive(Clone, Copy, Debug, PartialEq, Eq)]
pub struct ExportBuffers {
    pub pdh_addr: u64,
    pub pdh_size: u32,
    pub chain_addr: u64,
    pub chain_size: u32,
}

impl ExportBuffers {
    /// The buffers at `pdh_addr`, for one certificate, and at `chain_addr`,
    /// for three.
    pub fn new(pdh_addr: u64, chain_addr: u64) -> (buffers: ExportBuffers)
        ensures
            buffers == (ExportBuffers {
                pdh_addr,
                pdh_size: CERTIFICATE_SIZE as u32,
                chain_addr,
                chain_size: CHAIN_SIZE as u32,
            }),
    {
        ExportBuffers {
            pdh_addr,
            pdh_size: CERTIFICATE_SIZE as u32,
            chain_addr,
            chain_size: CHAIN_SIZE as u32,
        }
    }

    /// The description as the firmware reads it.
    pub fn to_bytes(&self) -> (record: [u8; CERT_BUFFERS_SIZE])
        ensures
            record@ == self.bytes(),
    {
        pod_array::<ExportBuffers, CERT_BUFFERS_SIZE>(self)
    }
}

/// The layout of two buffers, each an address and a size.
pub open spec fn two_buffers(a_addr: u64, a_size: u32, b_addr: u64, b_size: u32) -> Seq<u8> {
    le_bytes(a_addr as nat, 8) + le_bytes(a_size as nat, 4) + le_bytes(b_addr as nat, 8)
        + le_bytes(b_size as nat, 4)
}

/// Each field of two buffers is read back from their layout.
proof fn lemma_two_buffers(a_addr: u64, a_size: u32, b_addr: u64, b_size: u32)
    ensures
        ({
            let all = two_buffers(a_addr, a_size, b_addr, b_size);
            &&& all.len() == CERT_BUFFERS_SIZE
            &&& le_value(all.subrange(0, 8)) == a_addr
            &&& le_value(all.subrange(8, 12)) == a_size
            &&& le_value(all.subrange(12, 20)) == b_addr
            &&& le_value(all.subrange(20, 24)) == b_size
        }),
{
    lemma_pow256_small();
    lemma_le_bytes_len(a_addr as nat, 8);
    lemma_le_bytes_len(a_size as nat, 4);
    lemma_le_bytes_len(b_addr as nat, 8);
    lemma_le_bytes_len(b_size as nat, 4);
    lemma_le_value_of_bytes(a_addr as nat, 8);
    lemma_le_value_of_bytes(a_size as nat, 4);
    lemma_le_value_of_bytes(b_addr as nat, 8);
    lemma_le_value_of_bytes(b_size as nat, 4);
    let all = two_buffers(a_addr, a_size, b_addr, b_size);
    assert(all.subrange(0, 8) =~= le_bytes(a_addr as nat, 8));
    assert(all.subrange(8, 12) =~= le_bytes(a_size as nat, 4));
    assert(all.subrange(12, 20) =~= le_bytes(b_addr as nat, 8));
    assert(all.subrange(20, 24) =~= le_bytes(b_size as nat, 4));
}

/// Appends the layout of two buffers to `out`.
fn push_two_buffers(out: &mut Vec<u8>, a_addr: u64, a_size: u32, b_addr: u64, b_size: u32)
    ensures
        final(out)@ == old(out)@ + two_buffers(a_addr, a_size, b_addr, b_size),
{
    push_le(out, a_addr, 8);
    push_le(out, a_size as u64, 4);
    push_le(out, b_addr, 8);
    push_le(out, b_size as u64, 4);
}

/// The fields of two buffers that `bytes` lay out.
fn read_two_buffers(bytes: &[u8]) -> (fields: (u64, u32, u64, u32))
    requires
        bytes@.len() == CERT_BUFFERS_SIZE,
    ensures
        fields.0 == le_value(bytes@.subrange(0, 8)),
        fields.1 == le_value(bytes@.subrange(8, 12)),
        fields.2 == le_value(bytes@.subrange(12, 20)),
        fields.3 == le_value(bytes@.subrange(20, 24)),
        two_buffers(fields.0, fields.1, fields.2, fields.3) == bytes@,
{
    let a_addr: u64 = read_le(bytes, 0, 8);
    let a_size: u64 = read_le(bytes, 8, 4);
    let b_addr: u64 = read_le(bytes, 12, 8);
    let b_size: u64 = read_le(bytes, 20, 4);
    proof {
        let b = bytes@;
        lemma_pow256_small();
        lemma_le_value_bound(b.subrange(8, 12));
        lemma_le_value_bound(b.subrange(20, 24));
        lemma_le_bytes_of_value(b.subrange(0, 8));
        lemma_le_bytes_of_value(b.subrange(8, 12));
        lemma_le_bytes_of_value(b.subrange(12, 20));
        lemma_le_bytes_of_value(b.subrange(20, 24));
        assert(b =~= b.subrange(0, 8) + b.subrange(8, 12) + b.subrange(12, 20) + b.subrange(
            20,
            24,
        ));
    }
    (a_addr, a_size as u32, b_addr, b_size as u32)
}

impl Pod for ExportBuffers {
    open spec fn size() -> nat {
        CERT_BUFFERS_SIZE as nat
    }

    open spec fn bytes(self) -> Seq<u8> {
        two_buffers(self.pdh_addr, self.pdh_size, self.chain_addr, self.chain_size)
    }

    open spec fn from_bytes(bytes: Seq<u8>) -> Self {
        ExportBuffers {
            pdh_addr: le_value(bytes.subrange(0, 8)) as u64,
            pdh_size: le_value(bytes.subrange(8, 12)) as u32,
            chain_addr: le_value(bytes.subrange(12, 20)) as u64,
            chain_size: le_value(bytes.subrange(20, 24)) as u32,
        }
    }

    proof fn lemma_layout(self) {
        lemma_two_buffers(self.pdh_addr, self.pdh_size, self.chain_addr, self.chain_size);
    }

    fn width() -> (n: usize) {
        CERT_BUFFERS_SIZE
    }

    fn encode(&self, out: &mut Vec<u8>) {
        push_two_buffers(out, self.pdh_addr, self.pdh_size, self.chain_addr, self.chain_size);
    }

    fn decode(bytes: &[u8]) -> (value: Self) {
        let fields = read_two_buffers(bytes);
        ExportBuffers {
            pdh_addr: fields.0,
            pdh_size: fields.1,
            chain_addr: fields.2,
            chain_size: fields.3,
        }
    }
}

/// Where the firmware finds the certificates that it imports: the platform
/// endorsement key as its owner signed it, and the owner's own certificate.
#[derive(Clone, Copy, Debug, PartialEq, Eq)]
pub struct ImportBuffers {
    pub pek_addr: u64,
    pub pek_size: u32,
    pub oca_addr: u64,
    pub oca_size: u32,
}

impl ImportBuffers {
    /// The buffers at `pek_addr` and at `oca_addr`, of one certificate each.
    pub fn new(pek_addr: u64, oca_addr: u64) -> (buffers: ImportBuffers)
        ensures
            buffers == (ImportBuffers {
                pek_addr,
                pek_size: CERTIFICATE_SIZE as u32,
                oca_addr,
                oca_size: CERTIFICATE_SIZE as u32,
            }),
    {
        ImportBuffers {
            pek_addr,
            pek_size: CERTIFICATE_SIZE as u32,
            oca_addr,
            oca_size: CERTIFICATE_SIZE as u32,
        }
    }

    /// The description as the firmware reads it.
    pub fn to_bytes(&self) -> (record: [u8; CERT_BUFFERS_SIZE])
        ensures
            record@ == self.bytes(),
    {
        pod_array::<ImportBuffers, CERT_BUFFERS_SIZE>(self)
    }
}

impl Pod for ImportBuffers {
    open spec fn size() -> nat {
        CERT_BUFFERS_SIZE as nat
    }

    open spec fn bytes(self) -> Seq<u8> {
        two_buffers(self.pek_addr, self.pek_size, self.oca_addr, self.oca_size)
    }

    open spec fn from_bytes(bytes: Seq<u8>) -> Self {
        ImportBuffers {
            pek_addr: le_value(bytes.subrange(0, 8)) as u64,
            pek_size: le_value(bytes.subrange(8, 12)) as u32,
            oca_addr: le_value(bytes.subrange(12, 20)) as u64,
            oca_size: le_value(bytes.subrange(20, 24)) as u32,
        }
    }

    proof fn lemma_layout(self) {
        lemma_two_buffers(self.pek_addr, self.pek_size, self.oca_addr, self.oca_size);
    }

    fn width() -> (n: usize) {
        CERT_BUFFERS_SIZE
    }

    fn encode(&self, out: &mut Vec<u8>) {
        push_two_buffers(out, self.pek_addr, self.pek_size, self.oca_addr, self.oca_size);
    }

    fn decode(bytes: &[u8]) -> (value: Self) {
        let fields = read_two_buffers(bytes);
        ImportBuffers {
            pek_addr: fields.0,
            pek_size: fields.1,
            oca_addr: fields.2,
            oca_size: fields.3,
        }
    }
}

/// The firmware's answer to a request for the platform's identifier: two
/// fields of equal size. The firmware's makers have announced that this
/// shape will change, so it is shown to no caller.
#[derive(Clone, Copy)]
struct Ids([u8; ID_SIZE], [u8; ID_SIZE]);

impl Pod for Ids {
    open spec fn size() -> nat {
        IDS_SIZE as nat
    }

    closed spec fn bytes(self) -> Seq<u8> {
        self.0@ + self.1@
    }

    closed spec fn from_bytes(bytes: Seq<u8>) -> Self {
        Ids(
            array_of::<ID_SIZE>(bytes.subrange(0, ID_SIZE as int)),
            array_of::<ID_SIZE>(bytes.subrange(ID_SIZE as int, IDS_SIZE as int)),
        )
    }

    proof fn lemma_layout(self) {
        let all = self.bytes();
        assert(all.subrange(0, ID_SIZE as int) =~= self.0@);
        assert(all.subrange(ID_SIZE as int, IDS_SIZE as int) =~= self.1@);
        lemma_array_of(self.0);
        lemma_array_of(self.1);
    }

    fn width() -> (n: usize) {
        IDS_SIZE
    }

    fn encode(&self, out: &mut Vec<u8>) {
        push_array(out, &self.0);
        push_array(out, &self.1);
    }

    fn decode(bytes: &[u8]) -> (value: Self) {
        let first = read_array::<ID_SIZE>(bytes, 0);
        let second = read_array::<ID_SIZE>(bytes, ID_SIZE);
        Ids(first, second)
    }
}

/// What one privileged call left behind.
#[derive(Clone, Copy, Debug, PartialEq, Eq)]
pub struct Outcome {
    /// What the call returned: zero, and nothing else, for success.
    pub status: i32,
    /// The operating system's error number after a call that failed.
    pub os_error: i32,
    /// The command record as it stands after the call.
    pub record: [u8; COMMAND_SIZE],
}

impl Outcome {
    /// The error code that the firmware left in the command record.
    pub open spec fn error_code(self) -> u32 {
        Command::from_bytes(self.record@).error
    }
}

/// What a command comes to: `value`, handed back untouched, after a call
/// that succeeded, and after any other the failure that the command record
/// and the operating system tell of.
pub open spec fn issued<T>(outcome: Outcome, value: T) -> Result<T, Indeterminate<Error>> {
    if outcome.status == 0 {
        Ok(value)
    } else {
        Err(failure(outcome.error_code(), outcome.os_error))
    }
}

/// A call that failed gives an error, whatever its buffers hold, and an
/// error code that no known failure carries gives the unknown one.
pub proof fn lemma_failed_call<T>(outcome: Outcome, value: T)
    requires
        outcome.status != 0,
    ensures
        issued(outcome, value) is Err,
        outcome.error_code() > 0x15 ==> issued(outcome, value) == Err::<T, Indeterminate<Error>>(
            Indeterminate::Unknown,
        ),
{
}

/// The chain that the firmware exported: the platform Diffie-Hellman key
/// from its own buffer `pdh`, and from `trio` the three certificates below
/// it in the order in which the firmware lays them out.
pub open spec fn chain_of(pdh: [u8; CERTIFICATE_SIZE], trio: Seq<u8>) -> Chain {
    Chain {
        pdh: Certificate { bytes: pdh },
        pek: Certificate::from_bytes(trio.subrange(0, CERTIFICATE_SIZE as int)),
        oca: Certificate::from_bytes(
            trio.subrange(CERTIFICATE_SIZE as int, 2 * CERTIFICATE_SIZE),
        ),
        cek: Certificate::from_bytes(trio.subrange(2 * CERTIFICATE_SIZE, 3 * CERTIFICATE_SIZE)),
    }
}

/// The three certificates of the exported buffer keep their places: the
/// first is the platform endorsement key, the second the owner's
/// certificate, the third the chip endorsement key.
pub proof fn lemma_chain_order(pdh: Certificate, a: Certificate, b: Certificate, c: Certificate)
    ensures
        (a@ + b@ + c@).len() == CHAIN_SIZE,
        chain_of(pdh.bytes, a@ + b@ + c@) == (Chain { pdh, pek: a, oca: b, cek: c }),
{
    let trio = a@ + b@ + c@;
    assert(trio.subrange(0, CERTIFICATE_SIZE as int) =~= a@);
    assert(trio.subrange(CERTIFICATE_SIZE as int, 2 * CERTIFICATE_SIZE) =~= b@);
    assert(trio.subrange(2 * CERTIFICATE_SIZE, 3 * CERTIFICATE_SIZE) =~= c@);
    a.lemma_layout();
    b.lemma_layout();
    c.lemma_layout();
}

/// The identifier in the firmware's answer `ids`: its first field.
pub open spec fn identifier_of(ids: Seq<u8>) -> Seq<u8> {
    ids.subrange(0, ID_SIZE as int)
}

/// The identifier is the first field of the answer, whatever the second
/// holds.
pub proof fn lemma_identifier_is_first(first: [u8; ID_SIZE], second: [u8; ID_SIZE])
    ensures
        (first@ + second@).len() == IDS_SIZE,
        identifier_of(first@ + second@) == first@,
{
}

/// The platform, as the owner of one open handle `H` to its device. The
/// owner performs the privileged calls; what goes into a call and what is
/// made of its outcome is decided here.
pub struct Firmware<H>(pub H);

impl<H> Firmware<H> {
    /// What the command whose call ended in `outcome` comes to, for a
    /// payload that the firmware left as `value`.
    pub fn cmd<T>(&self, outcome: &Outcome, value: T) -> (r: Result<T, Indeterminate<Error>>)
        ensures
            r == issued(*outcome, value),
            outcome.status != 0 ==> r is Err,
    {
        if outcome.status == 0 {
            Ok(value)
        } else {
            let answer = Command::decode(outcome.record.as_slice());
            Err(Indeterminate::from_code(answer.error, outcome.os_error))
        }
    }

    /// The command that resets the platform. It has no payload: the
    /// firmware does not look at `data`.
    pub fn platform_reset_command(&self, data: u64) -> (command: Command)
        ensures
            command == (Command { code: Code::PlatformReset.number(), data, error: 0 }),
    {
        Command::new(Code::PlatformReset, data)
    }

    /// The command that asks for the platform status, to be written to the
    /// `INFO_SIZE` bytes at address `info`.
    pub fn platform_status_command(&self, info: u64) -> (command: Command)
        ensures
            command == (Command { code: Code::PlatformStatus.number(), data: info, error: 0 }),
    {
        Command::new(Code::PlatformStatus, info)
    }

    /// The command that generates the platform endorsement key. It has no
    /// payload: the firmware does not look at `data`.
    pub fn pek_generate_command(&self, data: u64) -> (command: Command)
        ensures
            command == (Command { code: Code::PekGenerate.number(), data, error: 0 }),
    {
        Command::new(Code::PekGenerate, data)
    }

    /// The command that asks for a signing request for the platform
    /// endorsement key, to be written to the buffer that the `CertBuffer`
    /// at address `buffer` describes.
    pub fn pek_csr_command(&self, buffer: u64) -> (command: Command)
        ensures
            command == (Command {
                code: Code::PekCertificateSigningRequest.number(),
                data: buffer,
                error: 0,
            }),
    {
        Command::new(Code::PekCertificateSigningRequest, buffer)
    }

    /// The command that generates the platform Diffie-Hellman key. It has
    /// no payload: the firmware does not look at `data`.
    pub fn pdh_generate_command(&self, data: u64) -> (command: Command)
        ensures
            command == (Command { code: Code::PdhGenerate.number(), data, error: 0 }),
    {
        Command::new(Code::PdhGenerate, data)
    }

    /// The command that exports the certificate chain into the buffers
    /// that the `ExportBuffers` at address `buffers` describe.
    pub fn pdh_cert_export_command(&self, buffers: u64) -> (command: Command)
        ensures
            command == (Command {
                code: Code::PdhCertificateExport.number(),
                data: buffers,
                error: 0,
            }),
    {
        Command::new(Code::PdhCertificateExport, buffers)
    }

    /// The command that imports the certificates in the buffers that the
    /// `ImportBuffers` at address `buffers` describe.
    pub fn pek_cert_import_command(&self, buffers: u64) -> (command: Command)
        ensures
            command == (Command {
                code: Code::PekCertificateImport.number(),
                data: buffers,
                error: 0,
            }),
    {
        Command::new(Code::PekCertificateImport, buffers)
    }

    /// The command that asks for the platform's identifier, to be written
    /// to the `IDS_SIZE` bytes at address `ids`.
    pub fn get_identifer_command(&self, ids: u64) -> (command: Command)
        ensures
            command == (Command { code: Code::GetIdentifier.number(), data: ids, error: 0 }),
    {
        Command::new(Code::GetIdentifier, ids)
    }

    /// The end of a command that resets the platform.
    pub fn platform_reset(&self, outcome: &Outcome) -> (r: Result<(), Indeterminate<Error>>)
        ensures
            r == issued(*outcome, ()),
            outcome.status != 0 ==> r is Err,
    {
        self.cmd(outcome, ())
    }

    /// The end of a command that asks for the platform status, which the
    /// firmware wrote to `info`.
    pub fn platform_status(&self, outcome: &Outcome, info: &[u8; INFO_SIZE]) -> (r: Result<
        Status,
        Indeterminate<Error>,
    >)
        ensures
            r == match issued(*outcome, ()) {
                Ok(_) => status_of(Info::from_bytes(info@)),
                Err(e) => Err(e),
            },
            outcome.status != 0 ==> r is Err,
            outcome.status == 0 ==> match state_of(info@[2]) {
                Some(state) => r matches Ok(status) && status.state == state,
                None => r == Err::<Status, Indeterminate<Error>>(Indeterminate::Unknown),
            },
    {
        match self.cmd(outcome, ()) {
            Ok(_) => Info::decode(info.as_slice()).status(),
            Err(e) => Err(e),
        }
    }

    /// The end of a command that generates the platform endorsement key.
    pub fn pek_generate(&self, outcome: &Outcome) -> (r: Result<(), Indeterminate<Error>>)
        ensures
            r == issued(*outcome, ()),
            outcome.status != 0 ==> r is Err,
    {
        self.cmd(outcome, ())
    }

    /// The end of a command that asks for a signing request for the
    /// platform endorsement key, which the firmware wrote to `pek`.
    pub fn pek_csr(&self, outcome: &Outcome, pek: &[u8; CERTIFICATE_SIZE]) -> (r: Result<
        Certificate,
        Indeterminate<Error>,
    >)
        ensures
            r == issued(*outcome, Certificate { bytes: *pek }),
            outcome.status != 0 ==> r is Err,
    {
        match self.cmd(outcome, ()) {
            Ok(_) => {
                proof {
                    lemma_array_of(*pek);
                }
                Ok(Certificate::decode(pek.as_slice()))
            },
            Err(e) => Err(e),
        }
    }

    /// The end of a command that generates the platform Diffie-Hellman key.
    pub fn pdh_generate(&self, outcome: &Outcome) -> (r: Result<(), Indeterminate<Error>>)
        ensures
            r == issued(*outcome, ()),
            outcome.status != 0 ==> r is Err,
    {
        self.cmd(outcome, ())
    }

    /// The end of a command that exports the certificate chain: the
    /// platform Diffie-Hellman key, which the firmware wrote to `pdh`, and
    /// the three certificates below it, which it wrote to `chain`.
    pub fn pdh_cert_export(
        &self,
        outcome: &Outcome,
        pdh: &[u8; CERTIFICATE_SIZE],
        chain: &[u8; CHAIN_SIZE],
    ) -> (r: Result<Chain, Indeterminate<Error>>)
        ensures
            r == issued(*outcome, chain_of(*pdh, chain@)),
            outcome.status != 0 ==> r is Err,
    {
        match self.cmd(outcome, ()) {
            Ok(_) => {
                let mut trio = ByteReader::new(chain.as_slice());
                let pek = trio.load::<Certificate>();
                let oca = trio.load::<Certificate>();
                let cek = trio.load::<Certificate>();
                proof {
                    let all = chain@;
                    let size = CERTIFICATE_SIZE as int;
                    assert(all.skip(size).take(size) =~= all.subrange(size, 2 * size));
                    assert(all.skip(size).skip(size).take(size) =~= all.subrange(
                        2 * size,
                        3 * size,
                    ));
                }
                match (pek, oca, cek) {
                    (Ok(pek), Ok(oca), Ok(cek)) => Ok(
                        Chain { pdh: Certificate { bytes: *pdh }, pek, oca, cek },
                    ),
                    // A buffer of three certificates does not run short of them.
                    _ => Err(Indeterminate::Unknown),
                }
            },
            Err(e) => Err(e),
        }
    }

    /// The end of a command that imports the platform endorsement key as
    /// its owner signed it.
    pub fn pek_cert_import(&self, outcome: &Outcome) -> (r: Result<(), Indeterminate<Error>>)
        ensures
            r == issued(*outcome, ()),
            outcome.status != 0 ==> r is Err,
    {
        self.cmd(outcome, ())
    }

    /// The end of a command that asks for the platform's identifier, which
    /// the firmware wrote to `ids`. Of the two fields that the firmware
    /// fills, the first is the identifier.
    pub fn get_identifer(&self, outcome: &Outcome, ids: &[u8; IDS_SIZE]) -> (r: Result<
        Identifier,
        Indeterminate<Error>,
    >)
        ensures
            match r {
                Ok(id) => outcome.status == 0 && id.0@ == identifier_of(ids@),
                Err(e) => issued(*outcome, ()) == Err::<(), Indeterminate<Error>>(e),
            },
            outcome.status != 0 ==> r is Err,
    {
        match self.cmd(outcome, ()) {
            Ok(_) => {
                let fields = Ids::decode(ids.as_slice());
                let mut id: Vec<u8> = Vec::new();
                push_array(&mut id, &fields.0);
                Ok(Identifier(id))
            },
            Err(e) => Err(e),
        }
    }
}

} // verus!
