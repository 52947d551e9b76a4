use claw::classify::ContentType;
use claw::classify::classify;
use claw::classify::detect_content_type;
use claw::classify::is_valid_utf8;
use claw::detect::DesktopEnv;
use claw::detect::current_desktop_env;
use claw::hash::content_hash;

#[test]
fn short_buffers_are_text() {
    assert_eq!(detect_content_type(b""), "text");
    assert_eq!(detect_content_type(b"abc"), "text");
    assert_eq!(detect_content_type(&[0xff]), "text");
}

#[test]
fn png_magic() {
    assert_eq!(detect_content_type(&[0x89, 0x50, 0x4e, 0x47, 0x0d, 0x0a]), "image/png");
}

#[test]
fn jpeg_magic() {
    assert_eq!(detect_content_type(&[0xff, 0xd8, 0xff, 0xe0, 0x00]), "image/jpeg");
}

#[test]
fn gif_magic() {
    assert_eq!(detect_content_type(b"GIF89a trailer"), "image/gif");
}

#[test]
fn bmp_magic() {
    assert_eq!(detect_content_type(b"BM\x00\x01\x02\x03"), "image/bmp");
}

#[test]
fn webp_magic() {
    assert_eq!(detect_content_type(b"RIFF\x10\x00\x00\x00WEBPVP8 "), "image/webp");
}

#[test]
fn bmp_prefix_wins_over_webp_bytes() {
    // the BM prefix is decided before the WEBP rule
    assert_eq!(detect_content_type(b"BM\x00\x00\x00\x00\x00\x00WEBP"), "image/bmp");
}

#[test]
fn webp_needs_twelve_bytes() {
    assert_eq!(detect_content_type(b"RIFF\x10\x00\x00\x00WEB"), "text");
}

#[test]
fn valid_utf8_is_text() {
    assert_eq!(detect_content_type("höhe ß € 🙂".as_bytes()), "text");
}

#[test]
fn invalid_utf8_is_binary() {
    assert_eq!(detect_content_type(&[0xff, 0xfe, 0xfd, 0xfc]), "binary");
    assert_eq!(detect_content_type(&[0xc3, 0x28, 0x00, 0x00]), "binary");
}

#[test]
fn classifier_is_total_and_deterministic() {
    let samples: Vec<Vec<u8>> = vec![
        vec![],
        b"plain".to_vec(),
        vec![0x89, 0x50, 0x4e, 0x47],
        vec![0xff, 0xd8, 0xff, 0x00],
        vec![0xf5, 0x00, 0x00, 0x00],
        vec![0xed, 0xa0, 0x80, 0x20],
    ];
    for b in &samples {
        let first = detect_content_type(b);
        let second = detect_content_type(b);
        assert_eq!(first, second);
        assert!(
            ["text", "image/png", "image/jpeg", "image/gif", "image/webp", "image/bmp", "binary"]
                .contains(&first.as_str())
        );
    }
}

#[test]
fn utf8_validator_matches_std() {
    let samples: Vec<Vec<u8>> = vec![
        vec![],
        b"ascii".to_vec(),
        "Grüße".as_bytes().to_vec(),
        vec![0x80],
        vec![0xc2],
        vec![0xc2, 0x80],
        vec![0xc0, 0xaf],
        vec![0xe0, 0x80, 0x80],
        vec![0xe0, 0xa0, 0x80],
        vec![0xed, 0x9f, 0xbf],
        vec![0xed, 0xa0, 0x80],
        vec![0xf0, 0x8f, 0xbf, 0xbf],
        vec![0xf0, 0x90, 0x80, 0x80],
        vec![0xf4, 0x8f, 0xbf, 0xbf],
        vec![0xf4, 0x90, 0x80, 0x80],
        vec![0xf5, 0x80, 0x80, 0x80],
        vec![0x61, 0xc2, 0x80, 0xe0, 0xa0, 0x80, 0xf0, 0x90, 0x80, 0x80],
    ];
    for b in &samples {
        assert_eq!(is_valid_utf8(b), std::str::from_utf8(b).is_ok(), "mismatch on {:?}", b);
    }
}

#[test]
fn classify_enum_matches_name() {
    assert_eq!(classify(b"hello"), ContentType::Text);
    assert!(classify(&[0x89, 0x50, 0x4e, 0x47]).is_image());
    assert!(!classify(b"hello").is_image());
}

#[test]
fn content_hash_known_values() {
    // FNV-1a 64-bit reference values
    assert_eq!(content_hash(b""), 0xcbf29ce484222325);
    assert_eq!(content_hash(b"a"), 0xaf63dc4c8601ec8c);
    assert_eq!(content_hash(b"foobar"), 0x85944171f73967e8);
}

#[test]
fn content_hash_deterministic() {
    assert_eq!(content_hash(b"payload"), content_hash(b"payload"));
    assert_ne!(content_hash(b"payload"), content_hash(b"payloae"));
}

#[test]
fn desktop_env_from_session_type() {
    let wayland = b"wayland".to_vec();
    let wayland_mixed = b"WayLand".to_vec();
    let x11 = b"x11".to_vec();
    let tty = b"tty".to_vec();
    assert!(matches!(current_desktop_env(Some(&wayland), false, false), DesktopEnv::Wayland));
    assert!(matches!(current_desktop_env(Some(&wayland_mixed), false, false), DesktopEnv::Wayland));
    assert!(matches!(current_desktop_env(Some(&x11), false, false), DesktopEnv::X11));
    assert!(matches!(current_desktop_env(Some(&tty), false, true), DesktopEnv::X11));
}

#[test]
fn desktop_env_from_display_variables() {
    assert!(matches!(current_desktop_env(None, true, false), DesktopEnv::Wayland));
    assert!(matches!(current_desktop_env(None, true, true), DesktopEnv::Wayland));
    assert!(matches!(current_desktop_env(None, false, true), DesktopEnv::X11));
    assert!(matches!(current_desktop_env(None, false, false), DesktopEnv::Unknown));
}
