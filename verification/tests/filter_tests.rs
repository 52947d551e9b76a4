use claw::classify::detect_content_type;
use claw::filter::normalize_clipboard_bytes;
use claw::filter::should_ignore_bytes;

#[test]
fn ignore_empty_buffer() {
    assert!(should_ignore_bytes(b""));
}

#[test]
fn allow_shebang_scripts() {
    assert!(!should_ignore_bytes(b"#!/bin/sh\necho hi"));
    assert!(!should_ignore_bytes(b"#!"));
}

#[test]
fn ignore_artifact_triple() {
    assert!(should_ignore_bytes(b"0,0"));
}

#[test]
fn ignore_artifact_triple_with_noise() {
    assert!(should_ignore_bytes(b" \x000,0 \x00"));
    assert!(should_ignore_bytes(b"\t0,0"));
    assert!(should_ignore_bytes(b"0,0\x00"));
}

#[test]
fn ignore_meta_fragments() {
    assert!(should_ignore_bytes(b"<meta charset=\"utf-8\">"));
    assert!(should_ignore_bytes(b"<meta"));
}

#[test]
fn ignore_bare_file_uri() {
    assert!(should_ignore_bytes(b"file://"));
    assert!(should_ignore_bytes(b"file:// \x00\t"));
}

#[test]
fn allow_real_file_uri() {
    assert!(!should_ignore_bytes(b"file:///home/user/a.png"));
}

#[test]
fn ignore_whitespace_only() {
    assert!(should_ignore_bytes(b"  \t\n"));
    assert!(should_ignore_bytes(b"\x00\x00"));
}

#[test]
fn ignore_tiny_image() {
    // a four-byte buffer carrying only the PNG magic classifies as an
    // image and is under 100 bytes
    assert!(should_ignore_bytes(&[0x89, 0x50, 0x4e, 0x47]));
}

#[test]
fn ignore_tiny_image_with_trailing_whitespace() {
    // the image rule reads the NUL-stripped buffer with only its leading
    // whitespace skipped, so the trailing space still counts
    assert!(should_ignore_bytes(&[0xff, 0xd8, 0xff, 0x20]));
}

#[test]
fn allow_leading_whitespace_before_short_magic() {
    // skipping the leading space leaves three bytes, classified text
    assert!(!should_ignore_bytes(&[0x20, 0xff, 0xd8, 0xff]));
}

#[test]
fn allow_plain_text() {
    assert!(!should_ignore_bytes(b"hello world"));
    assert!(!should_ignore_bytes(b"x"));
}

#[test]
fn allow_large_image() {
    let mut png = vec![0x89u8, 0x50, 0x4e, 0x47];
    png.extend(std::iter::repeat(0xabu8).take(200));
    assert!(!should_ignore_bytes(&png));
}

#[test]
fn normalize_strips_trailing_nuls() {
    assert_eq!(normalize_clipboard_bytes(b"abc\x00\x00"), b"abc".to_vec());
}

#[test]
fn normalize_strips_trailing_sentinels() {
    assert_eq!(normalize_clipboard_bytes(b"abc0,00,0"), b"abc".to_vec());
    assert_eq!(normalize_clipboard_bytes(b"abc0,0\x000,0\x00\x00"), b"abc".to_vec());
}

#[test]
fn normalize_keeps_interior_bytes() {
    assert_eq!(normalize_clipboard_bytes(b"a0,0b"), b"a0,0b".to_vec());
    assert_eq!(normalize_clipboard_bytes(b"a\x00b"), b"a\x00b".to_vec());
}

#[test]
fn normalize_of_artifact_is_empty() {
    assert_eq!(normalize_clipboard_bytes(b"0,0"), Vec::<u8>::new());
}

#[test]
fn normalize_idempotent_on_samples() {
    let samples: Vec<&[u8]> = vec![
        b"",
        b"abc",
        b"abc\x00",
        b"abc0,0",
        b"0,00,0\x00",
        b"a0,0b0,0",
        b"\x00\x000,0",
    ];
    for b in samples {
        let once = normalize_clipboard_bytes(b);
        let twice = normalize_clipboard_bytes(&once);
        assert_eq!(once, twice);
    }
}

#[test]
fn normalize_result_is_prefix() {
    let b: &[u8] = b"payload0,0\x00";
    let n = normalize_clipboard_bytes(b);
    assert_eq!(&b[..n.len()], n.as_slice());
}

#[test]
fn ignore_stable_under_normalize_on_samples() {
    // junk stays junk after normalization, for junk of every
    // non-image kind
    let samples: Vec<&[u8]> = vec![
        b"",
        b"0,0",
        b"0,0\x00",
        b"<meta x0,0",
        b"file://\x00 0,0",
        b" \t\x00",
        b"\x00 0,0 \x00\x00",
    ];
    for b in samples {
        if should_ignore_bytes(b) {
            let n = normalize_clipboard_bytes(b);
            assert!(should_ignore_bytes(&n), "failed for {:?}", b);
        }
    }
}

#[test]
fn classify_commutes_with_normalize_without_sentinel() {
    // buffers carrying no trailing sentinel classify the same before and
    // after normalization
    let samples: Vec<&[u8]> = vec![b"", b"abc", b"hello world", b"\xff\xfe\xfd\xfc"];
    for b in samples {
        let n = normalize_clipboard_bytes(b);
        assert_eq!(n.as_slice(), b);
        assert_eq!(detect_content_type(&n), detect_content_type(b));
    }
}

#[test]
fn classify_text_stays_text_after_normalize() {
    let b: &[u8] = b"note ends in 0,0";
    assert_eq!(detect_content_type(b), "text");
    let n = normalize_clipboard_bytes(b);
    assert_eq!(detect_content_type(&n), "text");
}
