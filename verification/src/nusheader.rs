//! The boot header: its fields, its codec, its checksum, and edits to it.

use crate::bigendian::{be_u32, be_u64, push_u32_be, push_u64_be, u32_from_be, u64_from_be};
use crate::buffer::Header;
pub use crate::checksum::Crc;
use crate::checksum::{
    accumulated, checksum, step, Accumulators, CRC_END, CRC_LEN, CRC_START, CRC_WORDS, INITIAL,
};
use crate::error::Error;
use crate::layout::{
    decode, default_view, encode, lemma_decode_encode, lemma_encode_decode, lemma_encode_layout,
    title_bytes, title_field, HeaderView, HEADER_SIZE, TITLE_FILL, TITLE_LEN,
};
use crate::render::{push_hex, push_hex_line, rendered};
use std::array::TryFromSliceError;
use std::string::FromUtf8Error;
use vstd::prelude::*;
use vstd::slice::slice_to_vec;
use vstd::string::StringExecFns;
use vstd::utf8::{decode_utf8, encode_utf8, valid_utf8};

verus! {

/// `<[u8; N] as TryFrom<&[u8]>>::try_from`: copies a slice into an array of
/// `N` bytes. It succeeds exactly when the slice is `N` bytes long, and the
/// array then holds the bytes of the slice in their order.
#[verifier::external_body]
fn array_from_slice<const N: usize>(bytes: &[u8]) -> (r: Result<[u8; N], TryFromSliceError>)
    ensures
        r is Ok <==> bytes@.len() == N,
        r matches Ok(a) ==> a@ == bytes@,
{
    <[u8; N]>::try_from(bytes)
}

/// `String::from_utf8`: turns bytes into the string that they encode. It
/// succeeds exactly when the bytes are valid UTF-8.
#[verifier::external_body]
fn string_from_utf8(bytes: Vec<u8>) -> (r: Result<String, FromUtf8Error>)
    ensures
        r is Ok <==> valid_utf8(bytes@),
        r matches Ok(s) ==> s@ == decode_utf8(bytes@),
{
    String::from_utf8(bytes)
}

/// The `width` bytes of `data` from offset `at` on, or, where `data` ends
/// before them, fewer bytes than `width`.
fn field_at(data: &[u8], at: usize, width: usize) -> (field: &[u8])
    requires
        width > 0,
    ensures
        at + width <= data@.len() ==> field@ == data@.subrange(at as int, at + width),
        at + width > data@.len() ==> field@.len() < width,
{
    let len = data.len();
    let start = if at < len {
        at
    } else {
        len
    };
    let end = if len - start >= width {
        start + width
    } else {
        len
    };
    &data[start..end]
}

/// The checksum state after one more word.
fn advance(a: Accumulators, w: u32) -> (r: Accumulators)
    ensures
        r == step(a, w),
{
    let sum = a.sum.wrapping_add(w);
    let carries = if sum < a.sum {
        a.carries.wrapping_add(1)
    } else {
        a.carries
    };
    let shift = w & 0x1F;
    assert(w & 0x1F < 32) by (bit_vector);
    let rot = if shift == 0 {
        w
    } else {
        (w << shift) | (w >> (32 - shift))
    };
    let rotated_sum = a.rotated_sum.wrapping_add(rot);
    let aux = if a.aux < w {
        a.aux ^ (sum ^ w)
    } else {
        a.aux ^ rot
    };
    let weighted = a.weighted.wrapping_add(w ^ rotated_sum);
    Accumulators { sum, carries, xor: a.xor ^ w, rotated_sum, aux, weighted }
}

/// Appends the title field for a title with the UTF-8 bytes `title`.
fn push_title(out: &mut Vec<u8>, title: &[u8])
    ensures
        final(out)@ == old(out)@ + title_field(title@),
{
    let mut i: usize = 0;
    while i < TITLE_LEN
        invariant
            i <= TITLE_LEN,
            out@.len() == old(out)@.len() + i,
            forall|j: int| 0 <= j < old(out)@.len() ==> out@[j] == old(out)@[j],
            forall|j: int| 0 <= j < i ==> out@[old(out)@.len() + j] == title_field(title@)[j],
        decreases TITLE_LEN - i,
    {
        if i < title.len() {
            out.push(title[i]);
        } else {
            out.push(TITLE_FILL);
        }
        i += 1;
    }
    assert(out@ =~= old(out)@ + title_field(title@));
}

/// The boot header of an image.
#[derive(Debug)]
pub struct NusHeader {
    cfg_flags: u32,
    clck_rate: u32,
    boot_addr: u32,
    lu_ver: u32,
    crc: Crc,
    reserved_1: u64,
    // only its first twenty bytes reach the encoded header
    title: String,
    reserved_2: [u8; 7],
    category: u8,
    unique: [u8; 2],
    destination: u8,
    version: u8,
}

impl View for NusHeader {
    type V = HeaderView;

    closed spec fn view(&self) -> HeaderView {
        HeaderView {
            cfg_flags: self.cfg_flags,
            clck_rate: self.clck_rate,
            boot_addr: self.boot_addr,
            lu_ver: self.lu_ver,
            crc: self.crc,
            reserved_1: self.reserved_1,
            title: self.title@,
            reserved_2: self.reserved_2@,
            category: self.category,
            unique: self.unique@,
            destination: self.destination,
            version: self.version,
        }
    }
}

impl Default for NusHeader {
    /// The header that a new image starts from.
    fn default() -> (h: Self)
        ensures
            h@ == default_view(),
    {
        let h = NusHeader {
            cfg_flags: 0x80_37_12_40,
            clck_rate: 0xF,
            boot_addr: 0x80010000,
            lu_ver: 0,
            crc: (0, 0),
            reserved_1: 0,
            title: String::new(),
            reserved_2: [0u8; 7],
            category: 'N' as u8,
            unique: [0u8; 2],
            destination: 'A' as u8,
            version: 0,
        };
        assert(h@.reserved_2 =~= default_view().reserved_2);
        assert(h@.unique =~= default_view().unique);
        h
    }
}

impl Header for NusHeader {
    open spec fn fields(&self) -> HeaderView {
        self@
    }

    open spec fn encoding(&self) -> Seq<u8> {
        encode(self@)
    }

    /// Fewer than `HEADER_SIZE` bytes are `HeaderNotEnoughData`; a title
    /// field that is not UTF-8 is `FromUtf8Error`; anything else decodes.
    open spec fn decoded(data: Seq<u8>, r: Result<Self, Error>) -> bool {
        if data.len() < HEADER_SIZE {
            r == Err::<Self, Error>(Error::HeaderNotEnoughData)
        } else if !valid_utf8(title_bytes(data)) {
            r matches Err(Error::FromUtf8Error(_))
        } else {
            r matches Ok(h) && h@ == decode(data)
        }
    }

    /// Create a nus header from raw bytes
    fn from_bytes(data: &[u8]) -> (r: Result<Self, Error>)
        ensures
            data@.len() >= HEADER_SIZE && !valid_utf8(title_bytes(data@)) ==> r matches Err(
                Error::FromUtf8Error(_),
            ),
            data@.len() >= HEADER_SIZE && valid_utf8(title_bytes(data@)) ==> r is Ok && r->Ok_0@
                == decode(data@),
    {
        if data.len() < HEADER_SIZE {
            return Err(Error::HeaderNotEnoughData);
        }
        let cfg_flags = Self::try_u32_from_be(data, 0x00)?;
        let clck_rate = Self::try_u32_from_be(data, 0x04)?;
        let boot_addr = Self::try_u32_from_be(data, 0x08)?;
        let lu_ver = Self::try_u32_from_be(data, 0x0C)?;
        let crc = (Self::try_u32_from_be(data, 0x10)?, Self::try_u32_from_be(data, 0x14)?);
        let reserved_1 = Self::try_u64_from_be(data, 0x18)?;
        let title = match string_from_utf8(slice_to_vec(&data[0x20..0x34])) {
            Ok(title) => title,
            Err(e) => {
                return Err(Error::FromUtf8Error(e));
            },
        };
        let reserved_2 = match array_from_slice::<7>(&data[0x34..0x3B]) {
            Ok(bytes) => bytes,
            Err(e) => {
                return Err(Error::TryFromSliceError(e));
            },
        };
        let unique = match array_from_slice::<2>(&data[0x3C..0x3E]) {
            Ok(bytes) => bytes,
            Err(e) => {
                return Err(Error::TryFromSliceError(e));
            },
        };
        let h = NusHeader {
            cfg_flags,
            clck_rate,
            boot_addr,
            lu_ver,
            crc,
            reserved_1,
            title,
            reserved_2,
            category: data[0x3B],
            unique,
            destination: data[0x3E],
            version: data[0x3F],
        };
        Ok(h)
    }

    /// Converts the NusHeader to a byte array
    fn to_bytes(&self) -> (bytes: Vec<u8>)
        ensures
            bytes@ == encode(self@),
    {
        let mut header: Vec<u8> = Vec::new();
        push_u32_be(&mut header, self.cfg_flags);
        push_u32_be(&mut header, self.clck_rate);
        push_u32_be(&mut header, self.boot_addr);
        push_u32_be(&mut header, self.lu_ver);
        push_u32_be(&mut header, self.crc.0);
        push_u32_be(&mut header, self.crc.1);
        push_u64_be(&mut header, self.reserved_1);
        // the title always takes exactly TITLE_LEN bytes
        push_title(&mut header, self.title.as_str().as_bytes());
        header.extend_from_slice(&self.reserved_2);
        header.push(self.category);
        header.extend_from_slice(&self.unique);
        header.push(self.destination);
        header.push(self.version);
        proof {
            lemma_encode_layout(self@);
            assert(header@ =~= encode(self@));
        }
        header
    }

    /// Same as default, but calculates the crc
    fn default_with_crc(&mut self, data: &[u8]) -> (r: Result<Self, Error>)
        ensures
            data@.len() >= CRC_END ==> r is Ok && r->Ok_0@ == default_view().with_crc(
                checksum(data@),
            ),
    {
        let crc = Self::crc(data)?;
        let mut h = NusHeader::default();
        h.crc = crc;
        Ok(h)
    }

    /// Calculate the nus crc and set the value in the header
    fn set_crc(&mut self, data: &[u8]) -> (r: Result<(), Error>)
        ensures
            data@.len() < CRC_END ==> final(self)@ == old(self)@,
            data@.len() >= CRC_END ==> final(self)@ == old(self)@.with_crc(checksum(data@)),
    {
        let crc = Self::crc(data)?;
        self.crc = crc;
        Ok(())
    }
}

impl NusHeader {
    /// The two byte-string fields of a header always have their lengths.
    pub proof fn lemma_view_wf(&self)
        ensures
            self@.wf(),
    {
    }

    /// Decoding what a header encodes to gives every field back as it was,
    /// except that the title comes back as the text of its twenty-byte
    /// field: cut where it was longer, filled up where it was shorter. This
    /// holds whenever that field is valid text; where it is not, because
    /// the cut fell inside a character, decoding fails.
    pub proof fn lemma_decode_of_encoding(&self, r: Result<NusHeader, Error>)
        requires
            Self::decoded(self.encoding(), r),
        ensures
            valid_utf8(title_field(encode_utf8(self@.title))) ==> r is Ok && r->Ok_0@ == (
            HeaderView {
                title: decode_utf8(title_field(encode_utf8(self@.title))),
                ..self@
            }),
            !valid_utf8(title_field(encode_utf8(self@.title))) ==> r matches Err(
                Error::FromUtf8Error(_),
            ),
    {
        lemma_encode_layout(self@);
        if valid_utf8(title_field(encode_utf8(self@.title))) {
            lemma_decode_encode(self@);
        }
    }

    /// Encoding a decoded header gives back the bytes it was decoded from.
    pub proof fn lemma_encoding_of_decoded(data: Seq<u8>, r: Result<NusHeader, Error>)
        requires
            Self::decoded(data, r),
            r is Ok,
        ensures
            data.len() >= HEADER_SIZE,
            r->Ok_0.encoding() == data.subrange(0, HEADER_SIZE as int),
    {
        lemma_encode_decode(data);
    }

    /// The big-endian 32-bit number in the four bytes of `data` at offset
    /// `at`. Fails with `TryFromSliceError` exactly when `data` ends before
    /// offset `at + 4`.
    pub fn try_u32_from_be(data: &[u8], at: usize) -> (r: Result<u32, Error>)
        ensures
            at + 4 <= data@.len() ==> r == Ok::<u32, Error>(
                be_u32(data@.subrange(at as int, at + 4)),
            ),
            at + 4 > data@.len() ==> r matches Err(Error::TryFromSliceError(_)),
    {
        match array_from_slice::<4>(field_at(data, at, 4)) {
            Ok(bytes) => Ok(u32_from_be(bytes)),
            Err(e) => Err(Error::TryFromSliceError(e)),
        }
    }

    /// The big-endian 64-bit number in the eight bytes of `data` at offset
    /// `at`. Fails with `TryFromSliceError` exactly when `data` ends before
    /// offset `at + 8`.
    pub fn try_u64_from_be(data: &[u8], at: usize) -> (r: Result<u64, Error>)
        ensures
            at + 8 <= data@.len() ==> r == Ok::<u64, Error>(
                be_u64(data@.subrange(at as int, at + 8)),
            ),
            at + 8 > data@.len() ==> r matches Err(Error::TryFromSliceError(_)),
    {
        match array_from_slice::<8>(field_at(data, at, 8)) {
            Ok(bytes) => Ok(u64_from_be(bytes)),
            Err(e) => Err(Error::TryFromSliceError(e)),
        }
    }

    /// The boot checksum of the image `data`. Fails with `CrcNotEnoughData`
    /// exactly when the image ends before the end of the checksum window.
    pub fn crc(data: &[u8]) -> (r: Result<Crc, Error>)
        ensures
            data@.len() < CRC_END ==> r == Err::<Crc, Error>(Error::CrcNotEnoughData),
            data@.len() >= CRC_END ==> r == Ok::<Crc, Error>(checksum(data@)),
    {
        if data.len() < CRC_LEN + CRC_START {
            return Err(Error::CrcNotEnoughData);
        }
        let mut acc = Accumulators {
            sum: INITIAL,
            carries: INITIAL,
            xor: INITIAL,
            rotated_sum: INITIAL,
            aux: INITIAL,
            weighted: INITIAL,
        };
        let mut k: usize = 0;
        while k < CRC_WORDS
            invariant
                k <= CRC_WORDS,
                data@.len() >= CRC_END,
                acc == accumulated(data@, k as nat),
            decreases CRC_WORDS - k,
        {
            let word = Self::try_u32_from_be(data, CRC_START + 4 * k)?;
            acc = advance(acc, word);
            k += 1;
        }
        Ok(((acc.sum ^ acc.carries) ^ acc.xor, (acc.rotated_sum ^ acc.aux) ^ acc.weighted))
    }

    /// The header as text, one line per field.
    pub fn to_string(&self) -> (s: String)
        ensures
            s@ == rendered(self@),
    {
        let mut s = String::new();
        push_hex_line(&mut s, "cfg flags: ", self.cfg_flags);
        push_hex_line(&mut s, "clock rate: ", self.clck_rate);
        push_hex_line(&mut s, "lu version: ", self.lu_ver);
        push_hex_line(&mut s, "boot address: ", self.boot_addr);
        s.append("crc: (");
        push_hex(&mut s, self.crc.0);
        s.append("-");
        push_hex(&mut s, self.crc.1);
        s.append(")\n");
        s.append("title: ");
        s.append(self.title.as_str());
        s.append("\n");
        s.append("category: ");
        s.push(self.category as char);
        s.append("\n");
        s.append("category: ");
        s.push(self.unique[0] as char);
        s.push(self.unique[1] as char);
        s.append("\n");
        s.append("destination: ");
        s.push(self.destination as char);
        s.append("\n");
        push_hex_line(&mut s, "version: ", self.version as u32);
        assert(s@ =~= rendered(self@));
        s
    }
}

/// Edits to a header: each field that is given replaces the header's.
#[derive(Debug)]
pub struct NusHeaderInput {
    pub title: Option<String>,
    pub boot_addr: Option<u32>,
    pub cfg_flags: Option<u32>,
    pub clck_rate: Option<u32>,
    pub lu_ver: Option<u32>,
    pub category: Option<char>,
    pub unique: Option<String>,
    pub destination: Option<char>,
    pub version: Option<char>,
}

impl NusHeaderInput {
    /// Whether the edits can be applied: a unique code, where one is given,
    /// has at least two bytes.
    pub open spec fn applicable(&self) -> bool {
        self.unique matches Some(unique) ==> encode_utf8(unique@).len() >= 2
    }

    /// The header `h` after these edits. A character goes into its field
    /// as the low byte of its code; the unique code is the first two bytes
    /// of its text.
    pub open spec fn applied(&self, h: HeaderView) -> HeaderView {
        HeaderView {
            cfg_flags: match self.cfg_flags {
                Some(v) => v,
                None => h.cfg_flags,
            },
            clck_rate: match self.clck_rate {
                Some(v) => v,
                None => h.clck_rate,
            },
            boot_addr: match self.boot_addr {
                Some(v) => v,
                None => h.boot_addr,
            },
            lu_ver: match self.lu_ver {
                Some(v) => v,
                None => h.lu_ver,
            },
            crc: h.crc,
            reserved_1: h.reserved_1,
            title: match self.title {
                Some(t) => t@,
                None => h.title,
            },
            reserved_2: h.reserved_2,
            category: match self.category {
                Some(c) => c as u8,
                None => h.category,
            },
            unique: match self.unique {
                Some(u) => encode_utf8(u@).subrange(0, 2),
                None => h.unique,
            },
            destination: match self.destination {
                Some(c) => c as u8,
                None => h.destination,
            },
            version: match self.version {
                Some(c) => c as u8,
                None => h.version,
            },
        }
    }

    /// applies the input data to an existing header
    pub fn apply(&self, header: &mut NusHeader)
        requires
            self.applicable(),
        ensures
            final(header)@ == self.applied(old(header)@),
    {
        if let Some(title) = &self.title {
            header.title = title.clone();
        }
        if let Some(boot_addr) = self.boot_addr {
            header.boot_addr = boot_addr;
        }
        if let Some(cfg_flags) = self.cfg_flags {
            header.cfg_flags = cfg_flags;
        }
        if let Some(clck_rate) = self.clck_rate {
            header.clck_rate = clck_rate;
        }
        if let Some(lu_ver) = self.lu_ver {
            header.lu_ver = lu_ver;
        }
        if let Some(category) = self.category {
            header.category = category as u8;
        }
        if let Some(unique) = &self.unique {
            let bytes = unique.as_str().as_bytes();
            if let Ok(bytes) = array_from_slice::<2>(&bytes[0..2]) {
                header.unique = bytes;
            }
        }
        if let Some(destination) = self.destination {
            header.destination = destination as u8;
        }
        if let Some(version) = self.version {
            header.version = version as u8;
        }
    }
}

} // verus!
