//! The image buffer, and what it asks of a header format.

use crate::checksum::{checksum, CRC_END};
use crate::error::Error;
use crate::layout::{default_view, HeaderView, HEADER_SIZE};
use vstd::prelude::*;

verus! {

/// A header format: a layout of the header's fields in `HEADER_SIZE` bytes
/// at the front of an image.
pub trait Header {
    /// The fields of this header.
    spec fn fields(&self) -> HeaderView;

    /// The bytes that encode this header.
    spec fn encoding(&self) -> Seq<u8>;

    /// Whether `r` is what decoding `data` gives in this format.
    spec fn decoded(data: Seq<u8>, r: Result<Self, Error>) -> bool where Self: Sized;

    /// Decodes the header at the start of `data`. Fewer than `HEADER_SIZE`
    /// bytes are `HeaderNotEnoughData`.
    fn from_bytes(data: &[u8]) -> (r: Result<Self, Error>) where Self: Sized
        ensures
            Self::decoded(data@, r),
            data@.len() < HEADER_SIZE ==> r == Err::<Self, Error>(Error::HeaderNotEnoughData),
    ;

    /// A header of default fields with the checksum of the image `data`.
    /// Fails with `CrcNotEnoughData` exactly when the image ends before
    /// the end of the checksum window. `self` is left as it was.
    fn default_with_crc(&mut self, data: &[u8]) -> (r: Result<Self, Error>) where Self: Sized
        ensures
            *final(self) == *old(self),
            data@.len() < CRC_END ==> r == Err::<Self, Error>(Error::CrcNotEnoughData),
            data@.len() >= CRC_END ==> r is Ok && r->Ok_0.fields() == default_view().with_crc(
                checksum(data@),
            ),
    ;

    /// Encodes this header, always into `HEADER_SIZE` bytes.
    fn to_bytes(&self) -> (bytes: Vec<u8>)
        ensures
            bytes@ == self.encoding(),
            bytes@.len() == HEADER_SIZE,
    ;

    /// Puts the checksum of the image `data` into this header and leaves
    /// every other field as it was. Fails with `CrcNotEnoughData` exactly
    /// when the image ends before the end of the checksum window, and then
    /// leaves the checksum as it was, too.
    fn set_crc(&mut self, data: &[u8]) -> (r: Result<(), Error>)
        ensures
            data@.len() < CRC_END ==> r == Err::<(), Error>(Error::CrcNotEnoughData)
                && final(self).fields() == old(self).fields(),
            data@.len() >= CRC_END ==> r == Ok::<(), Error>(()) && final(self).fields() == old(
                self,
            ).fields().with_crc(checksum(data@)),
    ;
}

/// `n` bytes of value `val`.
pub open spec fn repeated(val: u8, n: nat) -> Seq<u8> {
    Seq::new(n, |i: int| val)
}

/// `s` followed by as many bytes `val` as bring it to length `to`; `s`
/// itself where it is that long already.
pub open spec fn padded(s: Seq<u8>, to: nat, val: u8) -> Seq<u8> {
    if s.len() >= to {
        s
    } else {
        s + repeated(val, (to - s.len()) as nat)
    }
}

/// `s`, padded with zero bytes to reach the end of `data` placed at offset
/// `at`, and `data` written over the bytes from `at` on.
pub open spec fn injected(s: Seq<u8>, at: nat, data: Seq<u8>) -> Seq<u8> {
    let room = padded(s, at + data.len(), 0);
    room.subrange(0, at as int) + data + room.subrange(
        (at + data.len()) as int,
        room.len() as int,
    )
}

/// Padding never shortens, reaches the target length, keeps what was there,
/// and appends nothing but the fill byte.
pub proof fn lemma_padded(s: Seq<u8>, to: nat, val: u8)
    ensures
        padded(s, to, val).len() == if s.len() >= to {
            s.len()
        } else {
            to
        },
        padded(s, to, val).subrange(0, s.len() as int) == s,
        forall|i: int| s.len() <= i < to ==> #[trigger] padded(s, to, val)[i] == val,
{
    assert(padded(s, to, val).subrange(0, s.len() as int) =~= s);
}

/// Padding a second time to the same length changes nothing.
pub proof fn lemma_padded_twice(s: Seq<u8>, to: nat, val: u8)
    ensures
        padded(padded(s, to, val), to, val) == padded(s, to, val),
{
}

/// The image being edited: its bytes, with or without a header in front.
#[derive(Debug)]
pub struct Buffer {
    pub data: Vec<u8>,
}

impl Default for Buffer {
    fn default() -> (b: Self)
        ensures
            b.data@ == Seq::<u8>::empty(),
    {
        Buffer { data: Vec::new() }
    }
}

impl Buffer {
    /// An empty image.
    pub fn new() -> (b: Self)
        ensures
            b.data@ == Seq::<u8>::empty(),
    {
        Buffer { data: Vec::new() }
    }

    /// Puts the checksum of this image into `header` and leaves every other
    /// field of it as it was. Fails with `CrcNotEnoughData` exactly when
    /// the image ends before the end of the checksum window, and then
    /// leaves the checksum as it was, too.
    pub fn set_crc<H: Header + ?Sized>(&self, header: &mut H) -> (r: Result<(), Error>)
        ensures
            self.data@.len() < CRC_END ==> r == Err::<(), Error>(Error::CrcNotEnoughData)
                && final(header).fields() == old(header).fields(),
            self.data@.len() >= CRC_END ==> r == Ok::<(), Error>(()) && final(header).fields()
                == old(header).fields().with_crc(checksum(self.data@)),
    {
        header.set_crc(self.data.as_slice())
    }

    /// Decodes the header at the start of this image.
    pub fn header<T>(&self) -> (r: Result<T, Error>) where T: Header
        ensures
            T::decoded(self.data@, r),
            self.data@.len() < HEADER_SIZE ==> r == Err::<T, Error>(Error::HeaderNotEnoughData),
    {
        T::from_bytes(self.data.as_slice())
    }

    /// Puts the encoded `header` in front of the image, which grows by
    /// `HEADER_SIZE` bytes.
    pub fn add_header(&mut self, header: &dyn Header)
        ensures
            final(self).data@ == header.encoding() + old(self).data@,
            final(self).data@.len() == old(self).data@.len() + HEADER_SIZE,
    {
        let mut header_bytes = header.to_bytes();
        header_bytes.append(&mut self.data);
        self.data = header_bytes;
    }

    /// Writes the encoded `header` over the first `HEADER_SIZE` bytes of the
    /// image. The image keeps its length and all its later bytes.
    pub fn set_header(&mut self, header: &dyn Header)
        requires
            old(self).data@.len() >= HEADER_SIZE,
        ensures
            final(self).data@ == header.encoding() + old(self).data@.subrange(
                HEADER_SIZE as int,
                old(self).data@.len() as int,
            ),
            final(self).data@.len() == old(self).data@.len(),
    {
        let header_bytes = header.to_bytes();
        let mut i: usize = 0;
        while i < HEADER_SIZE
            invariant
                i <= HEADER_SIZE,
                header_bytes@.len() == HEADER_SIZE,
                self.data@.len() == old(self).data@.len(),
                self.data@.len() >= HEADER_SIZE,
                forall|j: int| 0 <= j < i ==> self.data@[j] == header_bytes@[j],
                forall|j: int| i <= j < self.data@.len() ==> self.data@[j] == old(self).data@[j],
            decreases HEADER_SIZE - i,
        {
            self.data[i] = header_bytes[i];
            i += 1;
        }
        assert(self.data@ =~= header.encoding() + old(self).data@.subrange(
            HEADER_SIZE as int,
            old(self).data@.len() as int,
        ));
    }

    /// Appends `val` until the image is `to` bytes long. An image that is
    /// that long already, or longer, stays as it is.
    pub fn pad_to(&mut self, to: usize, val: u8)
        ensures
            final(self).data@ == padded(old(self).data@, to as nat, val),
            old(self).data@.len() >= to ==> final(self).data@ == old(self).data@,
            old(self).data@.len() < to ==> final(self).data@.len() == to,
    {
        while self.data.len() < to
            invariant
                old(self).data@.len() <= self.data@.len(),
                self.data@.len() <= to || self.data@.len() == old(self).data@.len(),
                self.data@ == old(self).data@ + repeated(
                    val,
                    (self.data@.len() - old(self).data@.len()) as nat,
                ),
            decreases to - self.data@.len(),
        {
            self.data.push(val);
        }
    }

    /// Appends `by` bytes `val`.
    pub fn pad_by(&mut self, by: usize, val: u8)
        ensures
            final(self).data@ == old(self).data@ + repeated(val, by as nat),
            final(self).data@.len() == old(self).data@.len() + by,
    {
        let mut i: usize = 0;
        while i < by
            invariant
                i <= by,
                self.data@ == old(self).data@ + repeated(val, i as nat),
            decreases by - i,
        {
            self.data.push(val);
            i += 1;
        }
    }

    /// Writes `data` into the image at offset `at`, over what is there. An
    /// image that ends before the end of `data` is first padded with zero
    /// bytes up to there.
    pub fn inject(&mut self, at: usize, data: &[u8])
        requires
            at + data@.len() <= usize::MAX,
        ensures
            final(self).data@ == injected(old(self).data@, at as nat, data@),
    {
        self.pad_to(at + data.len(), 0x0);
        let ghost room = self.data@;
        let mut i: usize = 0;
        while i < data.len()
            invariant
                i <= data@.len(),
                at + data@.len() <= usize::MAX,
                at + data@.len() <= room.len(),
                self.data@.len() == room.len(),
                forall|j: int| 0 <= j < at ==> self.data@[j] == room[j],
                forall|j: int| at <= j < at + i ==> self.data@[j] == data@[j - at],
                forall|j: int| at + i <= j < room.len() ==> self.data@[j] == room[j],
            decreases data@.len() - i,
        {
            self.data[at + i] = data[i];
            i += 1;
        }
        assert(self.data@ =~= injected(old(self).data@, at as nat, data@));
    }
}

} // verus!
