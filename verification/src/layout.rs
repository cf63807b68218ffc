//! The byte layout of the boot header.
//!
//! | offset | width | field       |
//! |--------|-------|-------------|
//! | 0x00   | 4     | cfg_flags   |
//! | 0x04   | 4     | clck_rate   |
//! | 0x08   | 4     | boot_addr   |
//! | 0x0C   | 4     | lu_ver      |
//! | 0x10   | 8     | crc         |
//! | 0x18   | 8     | reserved_1  |
//! | 0x20   | 20    | title       |
//! | 0x34   | 7     | reserved_2  |
//! | 0x3B   | 1     | category    |
//! | 0x3C   | 2     | unique      |
//! | 0x3E   | 1     | destination |
//! | 0x3F   | 1     | version     |
//!
//! Integers are stored big-endian.

use crate::bigendian::{
    be_u32, be_u64, lemma_be_u32_bytes, lemma_be_u64_bytes, lemma_u32_be_roundtrip,
    lemma_u64_be_roundtrip, u32_be_bytes, u64_be_bytes,
};
use crate::checksum::Crc;
use vstd::prelude::*;
use vstd::utf8::{
    decode_utf8, decode_utf8_encode_utf8, encode_utf8, encode_utf8_valid_utf8,
    is_ascii_chars_encode_utf8, valid_utf8, valid_utf8_concat,
};

verus! {

/// Length of an encoded header.
pub const HEADER_SIZE: usize = 0x40;

/// Offset of the title in an encoded header.
pub const TITLE_START: usize = 0x20;

/// Length of the title in an encoded header.
pub const TITLE_LEN: usize = 0x14;

/// The byte that fills the title field behind a short title: the null byte.
pub const TITLE_FILL: u8 = 0x00;

/// The fields of a header as mathematical values.
pub struct HeaderView {
    pub cfg_flags: u32,
    pub clck_rate: u32,
    pub boot_addr: u32,
    pub lu_ver: u32,
    pub crc: Crc,
    pub reserved_1: u64,
    pub title: Seq<char>,
    pub reserved_2: Seq<u8>,
    pub category: u8,
    pub unique: Seq<u8>,
    pub destination: u8,
    pub version: u8,
}

impl HeaderView {
    /// The two byte-string fields have their fixed lengths.
    pub open spec fn wf(self) -> bool {
        &&& self.reserved_2.len() == 7
        &&& self.unique.len() == 2
    }

    /// This header with another checksum.
    pub open spec fn with_crc(self, crc: Crc) -> HeaderView {
        HeaderView { crc, ..self }
    }
}

/// The header that a new image starts from.
pub open spec fn default_view() -> HeaderView {
    HeaderView {
        cfg_flags: 0x8037_1240,
        clck_rate: 0xF,
        boot_addr: 0x8001_0000,
        lu_ver: 0,
        crc: (0, 0),
        reserved_1: 0,
        title: Seq::empty(),
        reserved_2: Seq::new(7, |i: int| 0u8),
        category: 'N' as u8,
        unique: Seq::new(2, |i: int| 0u8),
        destination: 'A' as u8,
        version: 0,
    }
}

/// `n` fill bytes.
pub open spec fn fill(n: nat) -> Seq<u8> {
    Seq::new(n, |i: int| TITLE_FILL)
}

/// The title field of a header whose title has the UTF-8 bytes `title`: the
/// first twenty of them, or all of them and fill bytes behind them up to
/// twenty.
pub open spec fn title_field(title: Seq<u8>) -> Seq<u8> {
    if title.len() >= TITLE_LEN {
        title.subrange(0, TITLE_LEN as int)
    } else {
        title + fill((TITLE_LEN - title.len()) as nat)
    }
}

/// The encoding of a header.
pub open spec fn encode(h: HeaderView) -> Seq<u8> {
    u32_be_bytes(h.cfg_flags) + u32_be_bytes(h.clck_rate) + u32_be_bytes(h.boot_addr)
        + u32_be_bytes(h.lu_ver) + u32_be_bytes(h.crc.0) + u32_be_bytes(h.crc.1) + u64_be_bytes(
        h.reserved_1,
    ) + title_field(encode_utf8(h.title)) + h.reserved_2 + seq![h.category] + h.unique
        + seq![h.destination, h.version]
}

/// The title field of the encoded header at the start of `data`.
pub open spec fn title_bytes(data: Seq<u8>) -> Seq<u8> {
    data.subrange(TITLE_START as int, TITLE_START + TITLE_LEN)
}

/// Whether `data` starts with an encoded header.
pub open spec fn decodable(data: Seq<u8>) -> bool {
    data.len() >= HEADER_SIZE && valid_utf8(title_bytes(data))
}

/// The header encoded at the start of `data`.
pub open spec fn decode(data: Seq<u8>) -> HeaderView
    recommends
        decodable(data),
{
    HeaderView {
        cfg_flags: be_u32(data.subrange(0x00, 0x04)),
        clck_rate: be_u32(data.subrange(0x04, 0x08)),
        boot_addr: be_u32(data.subrange(0x08, 0x0C)),
        lu_ver: be_u32(data.subrange(0x0C, 0x10)),
        crc: (be_u32(data.subrange(0x10, 0x14)), be_u32(data.subrange(0x14, 0x18))),
        reserved_1: be_u64(data.subrange(0x18, 0x20)),
        title: decode_utf8(title_bytes(data)),
        reserved_2: data.subrange(0x34, 0x3B),
        category: data[0x3B],
        unique: data.subrange(0x3C, 0x3E),
        destination: data[0x3E],
        version: data[0x3F],
    }
}

/// The title field is twenty bytes long. A title of more than twenty bytes
/// is cut to its first twenty; a shorter one is followed by fill bytes.
pub proof fn lemma_title_field(title: Seq<u8>)
    ensures
        title_field(title).len() == TITLE_LEN,
        title.len() >= TITLE_LEN ==> title_field(title) == title.subrange(0, TITLE_LEN as int),
        title.len() <= TITLE_LEN ==> title_field(title).subrange(0, title.len() as int) == title,
        forall|i: int|
            title.len() <= i < TITLE_LEN ==> #[trigger] title_field(title)[i] == TITLE_FILL,
{
    if title.len() <= TITLE_LEN {
        assert(title_field(title).subrange(0, title.len() as int) =~= title);
    }
}

/// An encoded header is 64 bytes long, each field at its offset.
pub proof fn lemma_encode_layout(h: HeaderView)
    requires
        h.wf(),
    ensures
        encode(h).len() == HEADER_SIZE,
        encode(h).subrange(0x00, 0x04) == u32_be_bytes(h.cfg_flags),
        encode(h).subrange(0x04, 0x08) == u32_be_bytes(h.clck_rate),
        encode(h).subrange(0x08, 0x0C) == u32_be_bytes(h.boot_addr),
        encode(h).subrange(0x0C, 0x10) == u32_be_bytes(h.lu_ver),
        encode(h).subrange(0x10, 0x14) == u32_be_bytes(h.crc.0),
        encode(h).subrange(0x14, 0x18) == u32_be_bytes(h.crc.1),
        encode(h).subrange(0x18, 0x20) == u64_be_bytes(h.reserved_1),
        title_bytes(encode(h)) == title_field(encode_utf8(h.title)),
        encode(h).subrange(0x34, 0x3B) == h.reserved_2,
        encode(h)[0x3B] == h.category,
        encode(h).subrange(0x3C, 0x3E) == h.unique,
        encode(h)[0x3E] == h.destination,
        encode(h)[0x3F] == h.version,
{
    let e = encode(h);
    lemma_title_field(encode_utf8(h.title));
    assert(e.subrange(0x00, 0x04) =~= u32_be_bytes(h.cfg_flags));
    assert(e.subrange(0x04, 0x08) =~= u32_be_bytes(h.clck_rate));
    assert(e.subrange(0x08, 0x0C) =~= u32_be_bytes(h.boot_addr));
    assert(e.subrange(0x0C, 0x10) =~= u32_be_bytes(h.lu_ver));
    assert(e.subrange(0x10, 0x14) =~= u32_be_bytes(h.crc.0));
    assert(e.subrange(0x14, 0x18) =~= u32_be_bytes(h.crc.1));
    assert(e.subrange(0x18, 0x20) =~= u64_be_bytes(h.reserved_1));
    assert(title_bytes(e) =~= title_field(encode_utf8(h.title)));
    assert(e.subrange(0x34, 0x3B) =~= h.reserved_2);
    assert(e.subrange(0x3C, 0x3E) =~= h.unique);
}

/// A title of at most twenty bytes always encodes to a title field that is
/// valid text.
pub proof fn lemma_short_title_is_text(title: Seq<char>)
    requires
        encode_utf8(title).len() <= TITLE_LEN,
    ensures
        valid_utf8(title_field(encode_utf8(title))),
{
    let bytes = encode_utf8(title);
    let n = (TITLE_LEN - bytes.len()) as nat;
    let nulls = Seq::new(n, |i: int| '\0');
    is_ascii_chars_encode_utf8(nulls);
    assert(encode_utf8(nulls) =~= fill(n));
    encode_utf8_valid_utf8(nulls);
    encode_utf8_valid_utf8(title);
    valid_utf8_concat(bytes, fill(n));
    assert(title_field(bytes) =~= bytes + fill(n));
}

/// Decoding an encoded header gives every field back as it was, except that
/// the title comes back as the text of its twenty-byte field. This holds
/// whenever that field is valid text.
pub proof fn lemma_decode_encode(h: HeaderView)
    requires
        h.wf(),
        valid_utf8(title_field(encode_utf8(h.title))),
    ensures
        decodable(encode(h)),
        decode(encode(h)) == (HeaderView {
            title: decode_utf8(title_field(encode_utf8(h.title))),
            ..h
        }),
{
    lemma_encode_layout(h);
    lemma_u32_be_roundtrip(h.cfg_flags);
    lemma_u32_be_roundtrip(h.clck_rate);
    lemma_u32_be_roundtrip(h.boot_addr);
    lemma_u32_be_roundtrip(h.lu_ver);
    lemma_u32_be_roundtrip(h.crc.0);
    lemma_u32_be_roundtrip(h.crc.1);
    lemma_u64_be_roundtrip(h.reserved_1);
}

/// Encoding a decoded header gives back the 64 bytes it was decoded from.
pub proof fn lemma_encode_decode(data: Seq<u8>)
    requires
        decodable(data),
    ensures
        decode(data).wf(),
        encode(decode(data)) == data.subrange(0, HEADER_SIZE as int),
{
    let h = decode(data);
    lemma_be_u32_bytes(data.subrange(0x00, 0x04));
    lemma_be_u32_bytes(data.subrange(0x04, 0x08));
    lemma_be_u32_bytes(data.subrange(0x08, 0x0C));
    lemma_be_u32_bytes(data.subrange(0x0C, 0x10));
    lemma_be_u32_bytes(data.subrange(0x10, 0x14));
    lemma_be_u32_bytes(data.subrange(0x14, 0x18));
    lemma_be_u64_bytes(data.subrange(0x18, 0x20));
    decode_utf8_encode_utf8(title_bytes(data));
    assert(title_field(title_bytes(data)) =~= title_bytes(data));
    assert(encode(h) =~= data.subrange(0, HEADER_SIZE as int));
}

} // verus!
