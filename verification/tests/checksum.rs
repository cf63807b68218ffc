use nusstool::error::Error;
use nusstool::nusheader::NusHeader;

const CRC_START: usize = 0x1000;
const CRC_LEN: usize = 0x100000;
const CRC_END: usize = CRC_START + CRC_LEN;

/// 0, 1, 2, 3, ... 255, 0, 1, ...
fn counting(len: usize) -> Vec<u8> {
    let mut data: Vec<u8> = vec![];
    for i in 0..len {
        data.push(i as u8);
    }
    data
}

#[test]
fn crc_fail() {
    assert_eq!(Err(Error::CrcNotEnoughData), NusHeader::crc(&[0, 1, 2]));

    // test failure off by 1
    let mut test_data: Vec<u8> = vec![];
    for i in 0..CRC_END - 1 {
        test_data.push(i as u8);
    }
    assert_eq!(Err(Error::CrcNotEnoughData), NusHeader::crc(&test_data));
}

#[test]
fn crc() {
    let mut test_data: Vec<u8> = vec![];

    // 0, 1, 2, 3, ... 255, 0, 1, ...
    for i in 0..CRC_END {
        test_data.push(i as u8);
    }

    assert_eq!(Ok((4207429594, 3000934689)), NusHeader::crc(&test_data));
}

#[test]
fn crc_of_empty_image_fails() {
    assert_eq!(Err(Error::CrcNotEnoughData), NusHeader::crc(&[]));
}

#[test]
fn crc_succeeds_at_exact_window_end() {
    assert!(NusHeader::crc(&counting(CRC_END - 1)).is_err());
    assert!(NusHeader::crc(&counting(CRC_END)).is_ok());
    assert!(NusHeader::crc(&counting(CRC_END + 1)).is_ok());
}

#[test]
fn crc_of_zero_words() {
    // every word has shift amount zero: the sums of words and of rotated
    // words stay at the seed, and only the weighted sum moves
    let data: Vec<u8> = vec![0; CRC_END];
    assert_eq!(Ok((0xF8CA4DDC, 0x303A4DDC)), NusHeader::crc(&data));
}

#[test]
fn crc_of_single_word() {
    // one word 0x00000001 at the start of the window, zeros elsewhere
    let mut data: Vec<u8> = vec![0; CRC_END];
    data[CRC_START + 3] = 1;
    let seed: u32 = 0xF8CA4DDC;
    let sum: u32 = seed.wrapping_add(1);
    let rotated_sum: u32 = seed.wrapping_add(2);
    let aux: u32 = seed ^ 2;
    // the first word adds 1 ^ rotated_sum, every later word adds rotated_sum
    let weighted: u32 = seed
        .wrapping_add(1 ^ rotated_sum)
        .wrapping_add(rotated_sum.wrapping_mul(0x3FFFF));
    let expected: (u32, u32) = ((sum ^ seed) ^ (seed ^ 1), (rotated_sum ^ aux) ^ weighted);
    assert_eq!(Ok(expected), NusHeader::crc(&data));
}

#[test]
fn crc_counts_wraparound() {
    // a first word of 0xFFFFFFFF wraps the sum once
    let mut data: Vec<u8> = vec![0; CRC_END];
    for i in 0..4 {
        data[CRC_START + i] = 0xFF;
    }
    let seed: u32 = 0xF8CA4DDC;
    let w: u32 = 0xFFFF_FFFF;
    let sum: u32 = seed.wrapping_add(w);
    let carries: u32 = seed.wrapping_add(1);
    let rot: u32 = w.rotate_left(31);
    let rotated_sum: u32 = seed.wrapping_add(rot);
    // seed < w, so the word's own sum is mixed in
    let aux: u32 = seed ^ (sum ^ w);
    let weighted: u32 = seed
        .wrapping_add(w ^ rotated_sum)
        .wrapping_add(rotated_sum.wrapping_mul(0x3FFFF));
    let expected: (u32, u32) = ((sum ^ carries) ^ (seed ^ w), (rotated_sum ^ aux) ^ weighted);
    assert_eq!(Ok(expected), NusHeader::crc(&data));
}

#[test]
fn crc_is_repeatable() {
    let data = counting(CRC_END);
    let first = NusHeader::crc(&data);
    let second = NusHeader::crc(&data);
    assert_eq!(first, second);
    assert_eq!(first, NusHeader::crc(&data.clone()));
}

#[test]
fn crc_ignores_bytes_outside_window() {
    let data = counting(CRC_END);
    let expected = NusHeader::crc(&data);

    let mut changed = data.clone();
    for i in 0..CRC_START {
        changed[i] = 0xAA;
    }
    changed.extend_from_slice(&[1, 2, 3, 4, 5, 6, 7, 8]);
    assert_eq!(expected, NusHeader::crc(&changed));

    // the first and the last byte of the window do count
    let mut first = data.clone();
    first[CRC_START] ^= 0x80;
    assert_ne!(expected, NusHeader::crc(&first));
    let mut last = data.clone();
    last[CRC_END - 1] ^= 0x01;
    assert_ne!(expected, NusHeader::crc(&last));
}

/// The checksum once more, in 64-bit arithmetic and with the machine's own
/// rotation.
fn crc_in_wide_arithmetic(data: &[u8]) -> (u32, u32) {
    const MASK: u64 = 0xFFFF_FFFF;
    let seed: u64 = 0xF8CA4DDC;
    let (mut sum, mut carries, mut xor): (u64, u64, u64) = (seed, seed, seed);
    let (mut rotated_sum, mut aux, mut weighted): (u64, u64, u64) = (seed, seed, seed);
    for k in 0..CRC_LEN / 4 {
        let at = CRC_START + 4 * k;
        let w32 = u32::from_be_bytes([data[at], data[at + 1], data[at + 2], data[at + 3]]);
        let w = w32 as u64;
        let rot = w32.rotate_left(w32 % 32) as u64;
        if sum + w > MASK {
            carries = (carries + 1) & MASK;
        }
        sum = (sum + w) & MASK;
        xor ^= w;
        rotated_sum = (rotated_sum + rot) & MASK;
        if aux < w {
            aux ^= sum ^ w;
        } else {
            aux ^= rot;
        }
        weighted = (weighted + (w ^ rotated_sum)) & MASK;
    }
    ((sum ^ carries ^ xor) as u32, (rotated_sum ^ aux ^ weighted) as u32)
}

#[test]
fn crc_of_mixed_words() {
    // words of every shift amount, zero among them, from a fixed generator
    let mut data: Vec<u8> = Vec::with_capacity(CRC_END);
    let mut state: u32 = 0x2545_F491;
    for _ in 0..CRC_END {
        state = state.wrapping_mul(1_664_525).wrapping_add(1_013_904_223);
        data.push((state >> 24) as u8);
    }
    for k in 0..64 {
        // every sixteenth word of the first thousand ends in five zero bits
        data[CRC_START + 64 * k + 3] &= 0xE0;
    }
    assert_eq!(Ok(crc_in_wide_arithmetic(&data)), NusHeader::crc(&data));
    assert_eq!(
        (4207429594, 3000934689),
        crc_in_wide_arithmetic(&counting(CRC_END))
    );
}
