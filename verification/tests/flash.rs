use metro_m4_ext::flash::{
    decode_len, encode_len, status_ready, FlashOp, QspiFlash, FLASH_SIZE, MSG_LEN_ADDR, PAGE_SIZE,
    SECTOR_SIZE,
};

#[test]
fn fresh_part_is_erased_and_holds_no_message() {
    let f = QspiFlash::new();
    let mut probe = vec![0u8; 8];
    f.read(0, &mut probe);
    assert_eq!(probe, vec![0xFF; 8]);
    // The all-ones length field decodes above capacity: no valid message.
    assert_eq!(f.load_message(), None);
}

#[test]
fn status_ready_needs_both_bits_clear() {
    assert!(status_ready(0x00, 0x00));
    assert!(!status_ready(0x01, 0x00));
    assert!(!status_ready(0x00, 0x80));
    assert!(!status_ready(0x03, 0x80));
    assert!(status_ready(0xFE, 0x7F));
}

#[test]
fn length_field_encoding_is_little_endian() {
    assert_eq!(encode_len(300), vec![44, 1, 0, 0]);
    assert_eq!(decode_len(&[44, 1, 0, 0]), 300);
    assert_eq!(encode_len(0), vec![0, 0, 0, 0]);
    assert_eq!(decode_len(&[0xFF, 0xFF, 0xFF, 0xFF]), u32::MAX);
}

#[test]
fn save_then_load_round_trips() {
    let mut f = QspiFlash::new();
    let msg: Vec<u8> = (0u8..=99).map(|b| b.wrapping_mul(3)).collect();
    f.save_message(&msg);
    // A load reads only the stored contents, so the same result comes back
    // after a reset; reading twice also shows reads mutate nothing.
    assert_eq!(f.load_message(), Some(msg.clone()));
    assert_eq!(f.load_message(), Some(msg));
}

#[test]
fn empty_message_round_trips() {
    let mut f = QspiFlash::new();
    let ops = f.save_message(&[]);
    // Plan: just the sector erase and the length-field program.
    assert_eq!(ops.len(), 2);
    assert_eq!(f.load_message(), Some(Vec::new()));
}

#[test]
fn full_capacity_message_round_trips() {
    let mut f = QspiFlash::new();
    let msg = vec![0xA5u8; 512];
    f.save_message(&msg);
    assert_eq!(f.load_message(), Some(msg));
}

#[test]
fn saving_300_bytes_programs_a_page_then_the_rest() {
    // A 300-byte message must be issued as a 256-byte page program followed
    // by a 44-byte program at the next page-aligned address, after a sector
    // erase; the length field then reads back as 300.
    let mut f = QspiFlash::new();
    let msg: Vec<u8> = (0..300).map(|i| (i % 251) as u8).collect();
    let ops = f.save_message(&msg);
    assert_eq!(ops.len(), 4);
    match &ops[0] {
        FlashOp::EraseSector { addr } => assert_eq!(*addr, 0),
        other => panic!("expected a sector erase first, got {:?}", other),
    }
    match &ops[1] {
        FlashOp::Program { addr, data } => {
            assert_eq!(*addr, 0);
            assert_eq!(data.len(), 256);
            assert_eq!(data[..], msg[..256]);
        }
        other => panic!("expected the first page program, got {:?}", other),
    }
    match &ops[2] {
        FlashOp::Program { addr, data } => {
            assert_eq!(*addr, PAGE_SIZE as u32);
            assert_eq!(data.len(), 44);
            assert_eq!(data[..], msg[256..]);
        }
        other => panic!("expected the remainder program, got {:?}", other),
    }
    match &ops[3] {
        FlashOp::Program { addr, data } => {
            assert_eq!(*addr, MSG_LEN_ADDR);
            assert_eq!(data[..], [44, 1, 0, 0]);
        }
        other => panic!("expected the length-field program, got {:?}", other),
    }
    let mut len_field = vec![0u8; 4];
    f.read(MSG_LEN_ADDR, &mut len_field);
    assert_eq!(decode_len(&len_field), 300);
    assert_eq!(f.load_message(), Some(msg));
}

#[test]
fn programming_only_clears_bits() {
    let mut f = QspiFlash::new();
    f.write(0, &[0xF0]);
    let mut b = vec![0u8; 1];
    f.read(0, &mut b);
    assert_eq!(b[0], 0xF0);
    // A second program on the same byte can only clear more bits.
    f.write(0, &[0x0F]);
    f.read(0, &mut b);
    assert_eq!(b[0], 0x00);
    // Only an erase brings the bits back.
    f.erase_sector(0);
    f.read(0, &mut b);
    assert_eq!(b[0], 0xFF);
}

#[test]
fn sector_erase_leaves_other_sectors_alone() {
    let mut f = QspiFlash::new();
    let outside = SECTOR_SIZE as u32 + 4;
    f.write(outside, &[0xAB]);
    f.erase_sector(0);
    let mut b = vec![0u8; 1];
    f.read(outside, &mut b);
    assert_eq!(b[0], 0xAB);
}

#[test]
fn erase_chip_clears_everything() {
    let mut f = QspiFlash::new();
    f.write(0, &[0x12]);
    f.write((FLASH_SIZE - 1) as u32, &[0x34]);
    f.erase_chip();
    let mut b = vec![0u8; 1];
    f.read(0, &mut b);
    assert_eq!(b[0], 0xFF);
    f.read((FLASH_SIZE - 1) as u32, &mut b);
    assert_eq!(b[0], 0xFF);
    assert_eq!(f.load_message(), None);
}

#[test]
fn saving_overwrites_the_previous_message() {
    let mut f = QspiFlash::new();
    f.save_message(b"first message");
    f.save_message(b"2nd");
    assert_eq!(f.load_message(), Some(b"2nd".to_vec()));
}
