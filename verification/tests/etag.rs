use file_resources::etag::{compute_data_etag, EntityTag};

#[test]
fn checksum_of_the_standard_check_input() {
    let etag = compute_data_etag(b"123456789");
    assert_eq!(etag.tag, 0x6C40_DF5F_0B49_7347);
    assert!(etag.weak);
}

#[test]
fn checksum_of_nothing_is_zero() {
    assert_eq!(compute_data_etag(b""), EntityTag { weak: true, tag: 0 });
}

#[test]
fn checksum_of_one_byte() {
    // One byte 0x01 leaves the polynomial shifted through eight times.
    let mut reg: u64 = 1u64 << 56;
    for _ in 0..8 {
        reg = if reg & 0x8000_0000_0000_0000 != 0 {
            (reg << 1) ^ 0x42F0_E1EB_A9EA_3693
        } else {
            reg << 1
        };
    }
    assert_eq!(compute_data_etag(&[1]).tag, reg);
    assert_eq!(compute_data_etag(&[1]).tag, 0x42F0_E1EB_A9EA_3693);
}

#[test]
fn equal_content_gets_the_equal_tag() {
    let a = vec![7u8, 0, 255, 13, 10];
    let b = a.clone();
    assert_eq!(compute_data_etag(&a), compute_data_etag(&b));
    assert_eq!(compute_data_etag(&a), compute_data_etag(&a));
}

#[test]
fn different_content_gets_a_different_tag() {
    assert_ne!(compute_data_etag(b"0123456789"), compute_data_etag(b"0123456789!"));
    assert_ne!(compute_data_etag(b"a"), compute_data_etag(b"b"));
}

#[test]
fn leading_zero_bytes_do_not_show_in_the_tag() {
    assert_eq!(compute_data_etag(&[0]), compute_data_etag(&[]));
    assert_eq!(compute_data_etag(&[0, 0, 9]), compute_data_etag(&[9]));
}

#[test]
fn weak_tag_as_text() {
    let etag = compute_data_etag(b"123456789");
    assert_eq!(etag.to_text(), "W/\"6C40DF5F0B497347\"");
}

#[test]
fn strong_tag_as_text() {
    let etag = EntityTag { weak: false, tag: 0xAB_CDEF };
    assert_eq!(etag.to_text(), "\"ABCDEF\"");
}

#[test]
fn tag_text_has_no_leading_zeros() {
    assert_eq!(EntityTag { weak: true, tag: 0 }.to_text(), "W/\"0\"");
    assert_eq!(EntityTag { weak: true, tag: 15 }.to_text(), "W/\"F\"");
    assert_eq!(EntityTag { weak: true, tag: 16 }.to_text(), "W/\"10\"");
    assert_eq!(EntityTag { weak: true, tag: 0x0123_4567_89AB_CDEF }.to_text(), "W/\"123456789ABCDEF\"");
    assert_eq!(EntityTag { weak: false, tag: u64::MAX }.to_text(), "\"FFFFFFFFFFFFFFFF\"");
}

#[test]
fn tag_text_agrees_with_upper_hex_formatting() {
    for tag in [1u64, 9, 10, 255, 256, 4095, 65_536, 0xDEAD_BEEF, u64::MAX - 1] {
        assert_eq!(EntityTag { weak: true, tag }.to_text(), format!("W/\"{:X}\"", tag));
    }
}

#[test]
fn one_changed_byte_changes_the_tag() {
    let content = b"The quick brown fox jumps over the lazy dog".to_vec();
    let tag = compute_data_etag(&content);
    for at in 0..content.len() {
        for flip in [1u8, 0x20, 0x80, 0xFF] {
            let mut changed = content.clone();
            changed[at] ^= flip;
            assert_ne!(compute_data_etag(&changed), tag);
        }
    }
}
