use nusstool::buffer::Header;
use nusstool::nusheader::{NusHeader, NusHeaderInput};

fn no_edits() -> NusHeaderInput {
    NusHeaderInput {
        title: None,
        boot_addr: None,
        cfg_flags: None,
        clck_rate: None,
        lu_ver: None,
        category: None,
        unique: None,
        destination: None,
        version: None,
    }
}

#[test]
fn apply_nothing_changes_nothing() {
    let mut header = NusHeader::default();
    no_edits().apply(&mut header);
    assert_eq!(NusHeader::default().to_bytes(), header.to_bytes());
    assert_eq!(NusHeader::default().to_string(), header.to_string());
}

#[test]
fn apply_every_field() {
    let mut header = NusHeader::default();
    let input = NusHeaderInput {
        title: Some("GoldenEye".to_string()),
        boot_addr: Some(0x8000_0400),
        cfg_flags: Some(0x8037_1241),
        clck_rate: Some(0x10),
        lu_ver: Some(0x1449),
        category: Some('C'),
        unique: Some("GE".to_string()),
        destination: Some('P'),
        version: Some('1'),
    };
    input.apply(&mut header);
    let bytes = header.to_bytes();
    assert_eq!(&[0x80, 0x37, 0x12, 0x41], &bytes[0x00..0x04]);
    assert_eq!(&[0x00, 0x00, 0x00, 0x10], &bytes[0x04..0x08]);
    assert_eq!(&[0x80, 0x00, 0x04, 0x00], &bytes[0x08..0x0C]);
    assert_eq!(&[0x00, 0x00, 0x14, 0x49], &bytes[0x0C..0x10]);
    assert_eq!(&[0u8; 16], &bytes[0x10..0x20]);
    assert_eq!(b"GoldenEye\0\0\0\0\0\0\0\0\0\0\0", &bytes[0x20..0x34]);
    assert_eq!(&[0u8; 7], &bytes[0x34..0x3B]);
    assert_eq!(b'C', bytes[0x3B]);
    assert_eq!(b"GE", &bytes[0x3C..0x3E]);
    assert_eq!(b'P', bytes[0x3E]);
    // the version is the code of the character given
    assert_eq!(0x31, bytes[0x3F]);
}

#[test]
fn apply_one_field_keeps_the_others() {
    let mut data: Vec<u8> = vec![];
    for i in 0..64 {
        data.push(i as u8 + 1);
    }
    data[0x20..0x34].copy_from_slice(b"SUPER MARIO 64      ");
    let mut header = NusHeader::from_bytes(&data).unwrap();
    let mut input = no_edits();
    input.boot_addr = Some(0xDEAD_BEEF);
    input.apply(&mut header);
    let mut expected = data.clone();
    expected[0x08..0x0C].copy_from_slice(&[0xDE, 0xAD, 0xBE, 0xEF]);
    assert_eq!(expected, header.to_bytes());
}

#[test]
fn apply_unique_takes_first_two_bytes() {
    let mut header = NusHeader::default();
    let mut input = no_edits();
    input.unique = Some("SMQ".to_string());
    input.apply(&mut header);
    assert_eq!(b"SM", &header.to_bytes()[0x3C..0x3E]);

    // one character of two bytes fills the field
    let mut input = no_edits();
    input.unique = Some("é".to_string());
    input.apply(&mut header);
    assert_eq!(&[0xC3, 0xA9], &header.to_bytes()[0x3C..0x3E]);
}

#[test]
fn apply_character_keeps_low_byte_of_code() {
    let mut header = NusHeader::default();
    let mut input = no_edits();
    input.category = Some('\u{141}');
    input.destination = Some('é');
    input.version = Some('\u{1F600}');
    input.apply(&mut header);
    let bytes = header.to_bytes();
    assert_eq!(0x41, bytes[0x3B]);
    assert_eq!(0xE9, bytes[0x3E]);
    assert_eq!(0x00, bytes[0x3F]);
}

#[test]
fn apply_title_replaces_whole_title() {
    let mut header = NusHeader::default();
    let mut input = no_edits();
    input.title = Some("a rather long title for a cartridge".to_string());
    input.apply(&mut header);
    let mut input = no_edits();
    input.title = Some("short".to_string());
    input.apply(&mut header);
    assert_eq!(b"short\0\0\0\0\0\0\0\0\0\0\0\0\0\0\0", &header.to_bytes()[0x20..0x34]);
    assert!(header.to_string().contains("title: short\n"));
}
