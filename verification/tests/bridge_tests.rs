use claw::bridge::ClipboardState;
use claw::bridge::WriteMime;
use claw::bridge::accept_image_read;
use claw::bridge::accept_text_read;
use claw::bridge::cache_clipboard_data;
use claw::bridge::clear_clipboard_state;
use claw::bridge::finish_read;
use claw::bridge::get_clipboard;
use claw::bridge::get_clipboard_for_paste;
use claw::bridge::get_persistent_clipboard;
use claw::bridge::last_written_marker;
use claw::bridge::set_clipboard;
use claw::bridge::set_clipboard_no_hash;
use claw::classify::ContentType;
use claw::filter::normalize_clipboard_bytes;
use claw::hash::content_hash;

#[test]
fn cache_guarantee_round_trip() {
    // set_clipboard(p) followed by get_clipboard_for_paste() returns p,
    // display server or not
    let mut state = ClipboardState::new();
    let p: &[u8] = b"precious payload";
    let w = set_clipboard(&mut state, p);
    assert_eq!(w.data, p.to_vec());
    let back = get_clipboard_for_paste(&state).unwrap();
    assert_eq!(back, p.to_vec());
}

#[test]
fn cache_never_overwritten_with_junk() {
    let mut state = ClipboardState::new();
    cache_clipboard_data(&mut state, b"good data");
    cache_clipboard_data(&mut state, b"");
    cache_clipboard_data(&mut state, b"0,0");
    cache_clipboard_data(&mut state, b"<meta junk");
    assert_eq!(get_persistent_clipboard(&state), Some(b"good data".to_vec()));
}

#[test]
fn paste_from_empty_cache_is_empty() {
    let state = ClipboardState::new();
    assert_eq!(get_clipboard_for_paste(&state).unwrap(), Vec::<u8>::new());
}

#[test]
fn paste_normalizes_text() {
    let mut state = ClipboardState::new();
    set_clipboard(&mut state, b"note\x00\x00");
    assert_eq!(get_clipboard_for_paste(&state).unwrap(), b"note".to_vec());
}

#[test]
fn set_clipboard_text_sets_marker() {
    let mut state = ClipboardState::new();
    set_clipboard(&mut state, b"abc\x00");
    let expected = content_hash(&normalize_clipboard_bytes(b"abc\x00"));
    assert_eq!(last_written_marker(&state), Some(expected));
}

#[test]
fn set_clipboard_no_hash_keeps_marker() {
    let mut state = ClipboardState::new();
    set_clipboard(&mut state, b"first");
    let marker = last_written_marker(&state);
    set_clipboard_no_hash(&mut state, b"second");
    assert_eq!(last_written_marker(&state), marker);
    assert_eq!(get_persistent_clipboard(&state), Some(b"second".to_vec()));
}

#[test]
fn image_write_uses_specific_mime() {
    let mut state = ClipboardState::new();
    let mut png = vec![0x89u8, 0x50, 0x4e, 0x47];
    png.extend(std::iter::repeat(0x11u8).take(200));
    let w = set_clipboard(&mut state, &png);
    assert_eq!(w.mime, WriteMime::Specific(ContentType::ImagePng));
    // an image write never touches the marker
    assert_eq!(last_written_marker(&state), None);
}

#[test]
fn text_write_uses_autodetect_mime() {
    let mut state = ClipboardState::new();
    let w = set_clipboard(&mut state, b"words");
    assert_eq!(w.mime, WriteMime::Autodetect);
}

#[test]
fn get_clipboard_empty_read_falls_back_to_cache() {
    let mut state = ClipboardState::new();
    cache_clipboard_data(&mut state, b"cached");
    assert_eq!(get_clipboard(&state, b""), b"cached".to_vec());
}

#[test]
fn get_clipboard_junk_read_falls_back_to_cache() {
    let mut state = ClipboardState::new();
    cache_clipboard_data(&mut state, b"cached");
    assert_eq!(get_clipboard(&state, b"0,0"), b"cached".to_vec());
}

#[test]
fn get_clipboard_junk_read_without_cache_is_empty() {
    let state = ClipboardState::new();
    assert_eq!(get_clipboard(&state, b"0,0"), Vec::<u8>::new());
    assert_eq!(get_clipboard(&state, b""), Vec::<u8>::new());
}

#[test]
fn get_clipboard_normalizes_text_reads() {
    let state = ClipboardState::new();
    assert_eq!(get_clipboard(&state, b"hello0,0"), b"hello".to_vec());
}

#[test]
fn get_clipboard_passes_images_through() {
    let state = ClipboardState::new();
    let mut png = vec![0x89u8, 0x50, 0x4e, 0x47];
    png.extend(std::iter::repeat(0x22u8).take(150));
    assert_eq!(get_clipboard(&state, &png), png);
}

#[test]
fn accept_text_read_strips_nuls_and_caches() {
    let mut state = ClipboardState::new();
    let got = accept_text_read(&mut state, b"he\x00llo");
    assert_eq!(got, Some(b"hello".to_vec()));
    assert_eq!(get_persistent_clipboard(&state), Some(b"hello".to_vec()));
}

#[test]
fn accept_text_read_trims_outer_whitespace() {
    let mut state = ClipboardState::new();
    let got = accept_text_read(&mut state, b" hi \n");
    assert_eq!(got, Some(b"hi".to_vec()));
    assert_eq!(get_persistent_clipboard(&state), Some(b"hi".to_vec()));
}

#[test]
fn accept_text_read_rejects_junk_and_invalid_utf8() {
    let mut state = ClipboardState::new();
    assert_eq!(accept_text_read(&mut state, b"0,0"), None);
    assert_eq!(accept_text_read(&mut state, b""), None);
    assert_eq!(accept_text_read(&mut state, &[0x61, 0x62, 0x63, 0x64, 0xff]), None);
    assert_eq!(get_persistent_clipboard(&state), None);
}

#[test]
fn accept_image_read_wants_real_images() {
    let mut png = vec![0x89u8, 0x50, 0x4e, 0x47];
    png.extend(std::iter::repeat(0x33u8).take(96));
    assert!(accept_image_read(&png));
    assert!(!accept_image_read(&png[..99]));
    assert!(!accept_image_read(b"not an image at all, but long enough to pass the size bar...."));
}

#[test]
fn finish_read_prefers_candidate_then_cache() {
    let mut state = ClipboardState::new();
    cache_clipboard_data(&mut state, b"older");
    let mut png = vec![0x89u8, 0x50, 0x4e, 0x47];
    png.extend(std::iter::repeat(0x44u8).take(120));
    let got = finish_read(&mut state, Some(png.clone()));
    assert_eq!(got, png);
    assert_eq!(get_persistent_clipboard(&state), Some(png));

    let mut state2 = ClipboardState::new();
    cache_clipboard_data(&mut state2, b"fallback");
    assert_eq!(finish_read(&mut state2, None), b"fallback".to_vec());

    let mut state3 = ClipboardState::new();
    assert_eq!(finish_read(&mut state3, None), Vec::<u8>::new());
}

#[test]
fn clear_empties_both_slots() {
    let mut state = ClipboardState::new();
    set_clipboard(&mut state, b"something");
    clear_clipboard_state(&mut state);
    assert_eq!(get_persistent_clipboard(&state), None);
    assert_eq!(last_written_marker(&state), None);
}
