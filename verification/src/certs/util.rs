//! Moving values across byte boundaries: fixed-layout values to and from a
//! run of bytes, and the big integers of a certificate between their
//! little-endian fields and the numbers they denote.

use super::bn::{lemma_canonical_len, Magnitude, MAX_BYTES};
use super::le::{
    le_bytes, le_value, lemma_le_bytes_of_value, lemma_le_value_bound, lemma_le_value_of_bytes,
    lemma_le_value_padded, pow256, zeros,
};
use super::Error;
use vstd::prelude::*;
use vstd::slice::{slice_index_get, slice_subrange};

verus! {

/// Construction from the little-endian field of a certificate.
pub trait FromLe: Sized {
    /// The number that a value stands for.
    spec fn number(&self) -> nat;

    /// The number that `value` denotes, least significant byte first. The
    /// cryptography library constructs it, and may fail to on any input; it
    /// is not asked for more bytes than it takes.
    fn from_le(value: &[u8]) -> (r: Result<Self, Error>)
        ensures
            match r {
                Ok(n) => n.number() == le_value(value@) && value@.len() <= MAX_BYTES,
                Err(Error::Oversized) => value@.len() > MAX_BYTES,
                Err(Error::Crypto(_)) => value@.len() <= MAX_BYTES,
                Err(_) => false,
            },
    ;
}

/// Rendering as the little-endian field `T` of a certificate.
pub trait IntoLe<T> {
    /// Whether the number is small enough for the field.
    spec fn fits(&self) -> bool;

    /// Whether `field` holds the number: its bytes, least significant first,
    /// and zero bytes after them up to the width of the field.
    spec fn rendered(&self, field: T) -> bool;

    /// The field that holds the number.
    fn into_le(&self) -> (field: T)
        requires
            self.fits(),
        ensures
            self.rendered(field),
    ;
}

/// The bytes of `bytes` from the last to the first.
fn reversed(bytes: &[u8]) -> (back: Vec<u8>)
    ensures
        back@ == bytes@.reverse(),
{
    let len: usize = bytes.len();
    let mut back: Vec<u8> = Vec::new();
    let mut i: usize = 0;
    while i < len
        invariant
            i <= len,
            len == bytes@.len(),
            back@.len() == i,
            forall|k: int| 0 <= k < i ==> back@[k] == bytes@[len - 1 - k],
        decreases len - i,
    {
        back.push(*slice_index_get(bytes, len - 1 - i));
        i += 1;
    }
    back
}

/// The field of `N` bytes that holds `number`.
fn le_array<const N: usize>(number: &Magnitude) -> (field: [u8; N])
    requires
        number@ < pow256(N as nat),
    ensures
        field@ == le_bytes(number@, N as nat),
{
    let be = number.to_vec();
    proof {
        lemma_canonical_len(be@, N as nat);
    }
    let len: usize = be.len();
    let mut field: [u8; N] = [0u8; N];
    let mut i: usize = 0;
    while i < len
        invariant
            i <= len <= N,
            len == be@.len(),
            forall|k: int| 0 <= k < i ==> field@[k] == be@[len - 1 - k],
            forall|k: int| i <= k < N ==> field@[k] == 0,
        decreases len - i,
    {
        field[i] = be[len - 1 - i];
        i += 1;
    }
    proof {
        let le = be@.reverse();
        assert(field@ =~= le + zeros((N - len) as nat));
        lemma_le_value_padded(le, (N - len) as nat);
        lemma_le_bytes_of_value(field@);
    }
    field
}

impl FromLe for Magnitude {
    open spec fn number(&self) -> nat {
        self@
    }

    fn from_le(value: &[u8]) -> (r: Result<Self, Error>) {
        if value.len() > MAX_BYTES {
            return Err(Error::Oversized);
        }
        let be = reversed(value);
        proof {
            assert(value@.reverse().reverse() =~= value@);
        }
        Magnitude::from_slice(be.as_slice())
    }
}

impl IntoLe<[u8; 72]> for Magnitude {
    open spec fn fits(&self) -> bool {
        self@ < pow256(72)
    }

    open spec fn rendered(&self, field: [u8; 72]) -> bool {
        field@ == le_bytes(self@, 72)
    }

    fn into_le(&self) -> (field: [u8; 72]) {
        le_array::<72>(self)
    }
}

impl IntoLe<[u8; 512]> for Magnitude {
    open spec fn fits(&self) -> bool {
        self@ < pow256(512)
    }

    open spec fn rendered(&self, field: [u8; 512]) -> bool {
        field@ == le_bytes(self@, 512)
    }

    fn into_le(&self) -> (field: [u8; 512]) {
        le_array::<512>(self)
    }
}

/// A field survives the way to a number and back: the number that
/// `from_le` reads off a field fits a field of that width, and what
/// `into_le` renders of it at that width is the field again, byte for byte.
pub proof fn lemma_field_round_trip<const N: usize>(field: [u8; N], number: nat, back: [u8; N])
    requires
        number == le_value(field@),
        back@ == le_bytes(number, N as nat),
    ensures
        number < pow256(N as nat),
        back == field,
{
    lemma_le_value_bound(field@);
    lemma_le_bytes_of_value(field@);
}

/// A number survives the way to a field and back: what `from_le` reads off
/// a field that `into_le` rendered of a number is that number.
pub proof fn lemma_number_round_trip(number: nat, width: nat, field: Seq<u8>)
    requires
        number < pow256(width),
        field == le_bytes(number, width),
    ensures
        le_value(field) == number,
{
    lemma_le_value_of_bytes(number, width);
}

/// A value with one fixed layout in bytes, which determines it.
pub trait Pod: Sized {
    /// How many bytes a value of this type occupies.
    spec fn size() -> nat;

    /// The bytes of a value, in the order in which they are laid out.
    spec fn bytes(self) -> Seq<u8>;

    /// The value that `bytes` lay out.
    spec fn from_bytes(bytes: Seq<u8>) -> Self;

    /// Every value occupies `size()` bytes, and they give the value back.
    proof fn lemma_layout(self)
        ensures
            self.bytes().len() == Self::size(),
            Self::from_bytes(self.bytes()) == self,
    ;

    /// How many bytes a value of this type occupies.
    fn width() -> (n: usize)
        ensures
            n == Self::size(),
    ;

    /// Appends the bytes of `self` to `out`.
    fn encode(&self, out: &mut Vec<u8>)
        ensures
            final(out)@ == old(out)@ + self.bytes(),
    ;

    /// Reads a value off `bytes`.
    fn decode(bytes: &[u8]) -> (value: Self)
        requires
            bytes@.len() == Self::size(),
        ensures
            value == Self::from_bytes(bytes@),
            value.bytes() == bytes@,
    ;
}

/// The array whose bytes are `bytes`.
pub open spec fn array_of<const N: usize>(bytes: Seq<u8>) -> [u8; N] {
    choose|held: [u8; N]| held@ == bytes
}

/// An array is the array of its bytes.
pub proof fn lemma_array_of<const N: usize>(held: [u8; N])
    ensures
        array_of::<N>(held@) == held,
{
}

/// Appends the bytes of `held` to `out`.
pub fn push_array<const N: usize>(out: &mut Vec<u8>, held: &[u8; N])
    ensures
        final(out)@ == old(out)@ + held@,
{
    let mut i: usize = 0;
    while i < N
        invariant
            i <= N,
            out@ == old(out)@ + held@.take(i as int),
        decreases N - i,
    {
        out.push(held[i]);
        i += 1;
    }
}

/// The `N` bytes of `bytes` from `at` on.
pub fn read_array<const N: usize>(bytes: &[u8], at: usize) -> (held: [u8; N])
    requires
        at + N <= bytes@.len(),
    ensures
        held@ == bytes@.subrange(at as int, at + N),
        held == array_of::<N>(bytes@.subrange(at as int, at + N)),
{
    let len: usize = bytes.len();
    let mut held: [u8; N] = [0u8; N];
    let mut i: usize = 0;
    while i < N
        invariant
            i <= N,
            at + N <= bytes@.len(),
            len == bytes@.len(),
            forall|k: int| 0 <= k < i ==> held@[k] == bytes@[at + k],
        decreases N - i,
    {
        held[i] = *slice_index_get(bytes, at + i);
        i += 1;
    }
    held
}

/// The bytes of `value` as an array of their number.
pub fn pod_array<T: Pod, const N: usize>(value: &T) -> (held: [u8; N])
    requires
        T::size() == N,
    ensures
        held@ == value.bytes(),
{
    let mut bytes: Vec<u8> = Vec::new();
    value.encode(&mut bytes);
    proof {
        value.lemma_layout();
    }
    read_array::<N>(bytes.as_slice(), 0)
}

/// Reading fixed-layout values off a source of bytes.
pub trait TypeLoad {
    /// The bytes that the source still holds.
    spec fn pending(&self) -> Seq<u8>;

    /// Takes the next `T::size()` bytes off the source and reads them as a
    /// `T`. A source that holds fewer is left as it was.
    fn load<T: Pod>(&mut self) -> (r: Result<T, Error>)
        ensures
            match r {
                Ok(value) => {
                    &&& T::size() <= old(self).pending().len()
                    &&& value == T::from_bytes(old(self).pending().take(T::size() as int))
                    &&& value.bytes() == old(self).pending().take(T::size() as int)
                    &&& final(self).pending() == old(self).pending().skip(T::size() as int)
                },
                Err(e) => {
                    &&& e is UnexpectedEof
                    &&& old(self).pending().len() < T::size()
                    &&& final(self).pending() == old(self).pending()
                },
            },
    ;
}

/// Writing fixed-layout values to a sink of bytes.
pub trait TypeSave {
    /// The bytes that the sink has taken.
    spec fn taken(&self) -> Seq<u8>;

    /// How many more bytes the sink takes.
    spec fn room(&self) -> nat;

    /// Appends the bytes of `value` to the sink. A sink without room for all
    /// of them takes none.
    fn save<T: Pod>(&mut self, value: &T) -> (r: Result<(), Error>)
        ensures
            match r {
                Ok(_) => {
                    &&& T::size() <= old(self).room()
                    &&& final(self).taken() == old(self).taken() + value.bytes()
                    &&& final(self).room() == old(self).room() - T::size()
                },
                Err(e) => {
                    &&& e is WriteZero
                    &&& old(self).room() < T::size()
                    &&& final(self).taken() == old(self).taken()
                    &&& final(self).room() == old(self).room()
                },
            },
    ;
}

/// A source of bytes: a borrowed run of them and how far it has been read.
pub struct ByteReader<'a> {
    bytes: &'a [u8],
    pos: usize,
}

impl<'a> ByteReader<'a> {
    #[verifier::type_invariant]
    spec fn within(self) -> bool {
        self.pos <= self.bytes@.len()
    }

    /// A reader at the start of `bytes`.
    pub fn new(bytes: &'a [u8]) -> (reader: Self)
        ensures
            reader.pending() == bytes@,
    {
        ByteReader { bytes, pos: 0 }
    }

    /// How many bytes are left to read.
    pub fn remaining(&self) -> (n: usize)
        ensures
            n == self.pending().len(),
    {
        proof {
            use_type_invariant(self);
        }
        self.bytes.len() - self.pos
    }
}

impl<'a> TypeLoad for ByteReader<'a> {
    closed spec fn pending(&self) -> Seq<u8> {
        self.bytes@.skip(self.pos as int)
    }

    fn load<T: Pod>(&mut self) -> (r: Result<T, Error>) {
        proof {
            use_type_invariant(&*self);
        }
        let size: usize = T::width();
        if self.bytes.len() - self.pos < size {
            return Err(Error::UnexpectedEof);
        }
        let end: usize = self.pos + size;
        let value = T::decode(slice_subrange(self.bytes, self.pos, end));
        proof {
            let all = self.bytes@;
            assert(all.subrange(self.pos as int, end as int) =~= all.skip(self.pos as int).take(
                size as int,
            ));
        }
        self.pos = end;
        Ok(value)
    }
}

/// A sink of bytes with room for a fixed number of them.
pub struct ByteWriter {
    bytes: Vec<u8>,
    room: usize,
}

impl ByteWriter {
    /// An empty sink that takes `limit` bytes.
    pub fn new(limit: usize) -> (writer: Self)
        ensures
            writer.taken() == Seq::<u8>::empty(),
            writer.room() == limit,
    {
        ByteWriter { bytes: Vec::new(), room: limit }
    }

    /// How many more bytes the sink takes.
    pub fn available(&self) -> (n: usize)
        ensures
            n == self.room(),
    {
        self.room
    }

    /// The bytes written so far.
    pub fn as_slice(&self) -> (bytes: &[u8])
        ensures
            bytes@ == self.taken(),
    {
        self.bytes.as_slice()
    }

    /// Gives up the sink for what was written to it.
    pub fn into_bytes(self) -> (bytes: Vec<u8>)
        ensures
            bytes@ == self.taken(),
    {
        self.bytes
    }
}

impl TypeSave for ByteWriter {
    closed spec fn taken(&self) -> Seq<u8> {
        self.bytes@
    }

    closed spec fn room(&self) -> nat {
        self.room as nat
    }

    fn save<T: Pod>(&mut self, value: &T) -> (r: Result<(), Error>) {
        let size: usize = T::width();
        if self.room < size {
            return Err(Error::WriteZero);
        }
        value.encode(&mut self.bytes);
        self.room = self.room - size;
        Ok(())
    }
}

/// What was saved is what is loaded: a value written to a sink is read back
/// from the bytes that the sink took for it, whatever follows them.
pub proof fn lemma_load_of_saved<T: Pod>(value: T, after: Seq<u8>)
    ensures
        (value.bytes() + after).len() >= T::size(),
        T::from_bytes((value.bytes() + after).take(T::size() as int)) == value,
{
    value.lemma_layout();
    assert((value.bytes() + after).take(T::size() as int) =~= value.bytes());
}

} // verus!
