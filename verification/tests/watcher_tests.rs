use claw::bridge::ClipboardState;
use claw::bridge::get_persistent_clipboard;
use claw::history::BlobStore;
use claw::history::ClipboardHistory;
use claw::watcher::WatcherAction;
use claw::watcher::WatcherState;
use claw::watcher::watcher_step;

/// Drive one tick and perform the append the way the runtime glue would.
fn tick(
    ws: &mut WatcherState,
    clip: &mut ClipboardState,
    history: &mut ClipboardHistory,
    blobs: &mut BlobStore,
    read: Option<Vec<u8>>,
    now_ms: i64,
) -> &'static str {
    match watcher_step(ws, clip, read, now_ms) {
        WatcherAction::Idle => "idle",
        WatcherAction::Reinject(_) => "reinject",
        WatcherAction::Maintain(_) => "maintain",
        WatcherAction::Append { content, content_type } => {
            history.add_entry(blobs, content, content_type, None);
            "append"
        },
    }
}

#[test]
fn text_capture_scenario() {
    // an external source places `hello world` on the selection; one tick
    // adds one text entry of 11 bytes, and the payload pastes back
    let mut ws = WatcherState::new(0);
    let mut clip = ClipboardState::new();
    let mut history = ClipboardHistory::new(50);
    let mut blobs = BlobStore::new();
    let kind = tick(&mut ws, &mut clip, &mut history, &mut blobs, Some(b"hello world".to_vec()), 10);
    assert_eq!(kind, "append");
    assert_eq!(history.entries.len(), 1);
    assert_eq!(history.entries[0].content_type, "text");
    assert_eq!(history.entries[0].content_size, 11);
    let data = claw::commands::get_system_clipboard(&clip).unwrap();
    assert_eq!(data.content, b"hello world".to_vec());
    assert_eq!(data.content_type, "text");
}

#[test]
fn self_echo_suppression_scenario() {
    // the UI writes "abc"; the watcher's next read of "abc" is the
    // manager's own echo and adds nothing
    let mut ws = WatcherState::new(0);
    let mut clip = ClipboardState::new();
    let mut history = ClipboardHistory::new(50);
    let mut blobs = BlobStore::new();
    let _w = claw::commands::set_system_clipboard(
        &mut clip,
        &mut history,
        &mut blobs,
        b"abc".to_vec(),
    );
    assert_eq!(history.entries.len(), 1);
    let kind = tick(&mut ws, &mut clip, &mut history, &mut blobs, Some(b"abc".to_vec()), 100);
    assert_eq!(kind, "idle");
    assert_eq!(history.entries.len(), 1);
}

#[test]
fn source_app_exit_scenario() {
    // an external source copies "x" and exits; three junk reads in a row
    // re-inject "x" from the cache, and the next read of "x" takes the
    // maintenance branch without a new entry
    let mut ws = WatcherState::new(0);
    let mut clip = ClipboardState::new();
    let mut history = ClipboardHistory::new(50);
    let mut blobs = BlobStore::new();
    assert_eq!(tick(&mut ws, &mut clip, &mut history, &mut blobs, Some(b"x".to_vec()), 10), "append");
    assert_eq!(history.entries.len(), 1);
    assert_eq!(tick(&mut ws, &mut clip, &mut history, &mut blobs, Some(vec![]), 400), "idle");
    assert_eq!(tick(&mut ws, &mut clip, &mut history, &mut blobs, Some(vec![]), 800), "idle");
    let third = watcher_step(&mut ws, &mut clip, Some(vec![]), 1200);
    match third {
        WatcherAction::Reinject(w) => assert_eq!(w.data, b"x".to_vec()),
        _ => panic!("expected a re-injection on the third junk read"),
    }
    // two seconds later the same payload is maintained, not re-added
    let kind = tick(&mut ws, &mut clip, &mut history, &mut blobs, Some(b"x".to_vec()), 3500);
    assert_eq!(kind, "maintain");
    assert_eq!(history.entries.len(), 1);
}

#[test]
fn junk_suppression_scenario() {
    // a selection yielding `0,0` is ignored: no history entry, no cache
    let mut ws = WatcherState::new(0);
    let mut clip = ClipboardState::new();
    let mut history = ClipboardHistory::new(50);
    let mut blobs = BlobStore::new();
    let kind = tick(
        &mut ws,
        &mut clip,
        &mut history,
        &mut blobs,
        Some(vec![0x30, 0x2c, 0x30]),
        10,
    );
    assert_eq!(kind, "idle");
    assert_eq!(history.entries.len(), 0);
    assert_eq!(get_persistent_clipboard(&clip), None);
}

#[test]
fn image_capture_scenario() {
    // a 12 KB PNG arrives: classified image/png, one history entry, and
    // the stored blob equals the payload bit for bit
    let mut ws = WatcherState::new(0);
    let mut clip = ClipboardState::new();
    let mut history = ClipboardHistory::new(50);
    let mut blobs = BlobStore::new();
    let mut png = vec![0x89u8, 0x50, 0x4e, 0x47, 0x0d, 0x0a, 0x1a, 0x0a];
    while png.len() < 12 * 1024 {
        png.push((png.len() % 251) as u8 + 1);
    }
    let kind = tick(&mut ws, &mut clip, &mut history, &mut blobs, Some(png.clone()), 10);
    assert_eq!(kind, "append");
    assert_eq!(history.entries.len(), 1);
    assert_eq!(history.entries[0].content_type, "image/png");
    let stored = history.get_entry_content(&blobs, &history.entries[0].id).unwrap();
    assert_eq!(stored, png);
}

#[test]
fn repeated_payload_added_exactly_once() {
    // the same valid payload fed many ticks in a row lands in the history
    // exactly once
    let mut ws = WatcherState::new(0);
    let mut clip = ClipboardState::new();
    let mut history = ClipboardHistory::new(50);
    let mut blobs = BlobStore::new();
    let mut appends = 0u32;
    for i in 0..10i64 {
        let kind = tick(
            &mut ws,
            &mut clip,
            &mut history,
            &mut blobs,
            Some(b"repeated".to_vec()),
            10 + i * 300,
        );
        if kind == "append" {
            appends += 1;
        }
        assert_ne!(kind, "reinject");
    }
    assert_eq!(appends, 1);
    assert_eq!(history.entries.len(), 1);
}

#[test]
fn read_error_widens_poll_interval() {
    let mut ws = WatcherState::new(0);
    let mut clip = ClipboardState::new();
    assert!(matches!(watcher_step(&mut ws, &mut clip, None, 10), WatcherAction::Idle));
    assert_eq!(ws.poll_interval_ms, 1000);
    // a valid read narrows it back to the default
    let _ = watcher_step(&mut ws, &mut clip, Some(b"fresh".to_vec()), 20);
    assert_eq!(ws.poll_interval_ms, 250);
}

#[test]
fn payload_with_junk_trailer_lands_normalized() {
    // the appended content is the normalized form of the read
    let mut ws = WatcherState::new(0);
    let mut clip = ClipboardState::new();
    match watcher_step(&mut ws, &mut clip, Some(b"text0,0\x00".to_vec()), 10) {
        WatcherAction::Append { content, content_type } => {
            assert_eq!(content, b"text".to_vec());
            assert_eq!(content_type, "text");
        },
        _ => panic!("expected an append"),
    }
}
