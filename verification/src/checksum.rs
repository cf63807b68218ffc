//! What the boot checksum of an image is.
//!
//! The checksum reads the image's checksum window as big-endian 32-bit words
//! and runs six 32-bit accumulators over them, every sum taken modulo 2^32.
//! The two output words fold the accumulators together by exclusive or.

use crate::bigendian::be_u32;
use vstd::prelude::*;

verus! {

/// Offset of the checksum window in the image.
pub const CRC_START: usize = 0x1000;

/// Length of the checksum window in bytes.
pub const CRC_LEN: usize = 0x100000;

/// Shortest image that holds the whole checksum window.
pub const CRC_END: usize = 0x101000;

/// Number of 32-bit words in the checksum window.
pub const CRC_WORDS: usize = 0x40000;

/// The value that every accumulator starts from.
pub const INITIAL: u32 = 0xF8CA_4DDC;

/// The two checksum words, in the order in which the header stores them.
pub type Crc = (u32, u32);

/// The running state of the checksum.
pub struct Accumulators {
    /// Sum of the words.
    pub sum: u32,
    /// How often `sum` has wrapped around.
    pub carries: u32,
    /// Exclusive or of the words.
    pub xor: u32,
    /// Sum of the rotated words.
    pub rotated_sum: u32,
    /// Mixes in either the rotated word or the word's own sum, by comparison.
    pub aux: u32,
    /// Sum of each word combined with the rotated sum so far.
    pub weighted: u32,
}

/// `x` reduced to 32 bits.
pub open spec fn wrap32(x: int) -> u32 {
    (x % 0x1_0000_0000) as u32
}

/// `w` rotated left by the number in its low five bits. A shift by zero
/// leaves the word as it is.
pub open spec fn rotated(w: u32) -> u32 {
    let s = w & 0x1F;
    if s == 0 {
        w
    } else {
        (w << s) | (w >> ((32 - s) as u32))
    }
}

/// The state before the first word.
pub open spec fn seeded() -> Accumulators {
    Accumulators {
        sum: INITIAL,
        carries: INITIAL,
        xor: INITIAL,
        rotated_sum: INITIAL,
        aux: INITIAL,
        weighted: INITIAL,
    }
}

/// The state after one more word `w`.
pub open spec fn step(a: Accumulators, w: u32) -> Accumulators {
    let sum = wrap32(a.sum + w);
    let rotated_sum = wrap32(a.rotated_sum + rotated(w));
    Accumulators {
        sum,
        carries: if a.sum + w > u32::MAX {
            wrap32(a.carries + 1)
        } else {
            a.carries
        },
        xor: a.xor ^ w,
        rotated_sum,
        aux: if a.aux < w {
            a.aux ^ (sum ^ w)
        } else {
            a.aux ^ rotated(w)
        },
        weighted: wrap32(a.weighted + (w ^ rotated_sum)),
    }
}

/// Word number `k` of the checksum window of `data`.
pub open spec fn window_word(data: Seq<u8>, k: int) -> u32 {
    be_u32(data.subrange(CRC_START + 4 * k, CRC_START + 4 * k + 4))
}

/// The state after the first `n` words of the checksum window of `data`.
pub open spec fn accumulated(data: Seq<u8>, n: nat) -> Accumulators
    decreases n,
{
    if n == 0 {
        seeded()
    } else {
        step(accumulated(data, (n - 1) as nat), window_word(data, n - 1))
    }
}

/// The checksum words that a final state folds to.
pub open spec fn folded(a: Accumulators) -> Crc {
    ((a.sum ^ a.carries) ^ a.xor, (a.rotated_sum ^ a.aux) ^ a.weighted)
}

/// The checksum of an image `data` that holds the whole checksum window.
pub open spec fn checksum(data: Seq<u8>) -> Crc
    recommends
        data.len() >= CRC_END,
{
    folded(accumulated(data, CRC_WORDS as nat))
}

/// The starting value is the product of 0x3F and 0x5D588B65 in 32 bits, plus
/// one.
pub proof fn lemma_initial_value()
    ensures
        INITIAL == (0x3F * 0x5D58_8B65) % 0x1_0000_0000 + 1,
{
}

/// The state after `n` words depends on the bytes of those words alone.
pub proof fn lemma_accumulated_reads_window(a: Seq<u8>, b: Seq<u8>, n: nat)
    requires
        a.len() >= CRC_START + 4 * n,
        b.len() >= CRC_START + 4 * n,
        a.subrange(CRC_START as int, CRC_START + 4 * n) == b.subrange(
            CRC_START as int,
            CRC_START + 4 * n,
        ),
    ensures
        accumulated(a, n) == accumulated(b, n),
    decreases n,
{
    if n > 0 {
        let m = n - 1;
        let wa = a.subrange(CRC_START as int, CRC_START + 4 * n);
        let wb = b.subrange(CRC_START as int, CRC_START + 4 * n);
        assert(a.subrange(CRC_START as int, CRC_START + 4 * m) =~= wa.subrange(0, 4 * m));
        assert(b.subrange(CRC_START as int, CRC_START + 4 * m) =~= wb.subrange(0, 4 * m));
        lemma_accumulated_reads_window(a, b, m as nat);
        assert(a.subrange(CRC_START + 4 * m, CRC_START + 4 * m + 4) =~= wa.subrange(
            4 * m,
            4 * m + 4,
        ));
        assert(b.subrange(CRC_START + 4 * m, CRC_START + 4 * m + 4) =~= wb.subrange(
            4 * m,
            4 * m + 4,
        ));
    }
}

/// The checksum is a function of the image's bytes and of nothing else:
/// images of the same bytes have the same checksum, and both or neither hold
/// the whole checksum window.
pub proof fn lemma_checksum_deterministic(a: Seq<u8>, b: Seq<u8>)
    requires
        a =~= b,
    ensures
        a.len() >= CRC_END <==> b.len() >= CRC_END,
        checksum(a) == checksum(b),
{
}

/// Bytes outside the checksum window never change the checksum: two images
/// with the same window have the same checksum.
pub proof fn lemma_checksum_reads_window(a: Seq<u8>, b: Seq<u8>)
    requires
        a.len() >= CRC_END,
        b.len() >= CRC_END,
        a.subrange(CRC_START as int, CRC_END as int) == b.subrange(
            CRC_START as int,
            CRC_END as int,
        ),
    ensures
        checksum(a) == checksum(b),
{
    lemma_accumulated_reads_window(a, b, CRC_WORDS as nat);
}

} // verus!
