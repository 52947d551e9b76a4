//! The clipboard watcher's decision logic.
//!
//! The watcher is a polling loop: sleep, read the selection through the
//! bridge, then decide. The loop itself (sleeping and performing reads
//! and writes) lives with the caller; each tick hands the read outcome
//! and the current time to `watcher_step`, which updates the watcher
//! state and the bridge state and says what to do: nothing, re-inject
//! the cache, re-write the current payload to keep the selection alive,
//! or append new content to the history.
use crate::bridge::ClipboardState;
use crate::bridge::ClipboardWrite;
use crate::bridge::cache_clipboard_data;
use crate::bridge::get_persistent_clipboard;
use crate::bridge::last_written_marker;
use crate::bridge::set_clipboard_no_hash;
use crate::bridge::spec_cache_after;
use crate::bridge::spec_write_mime;
use crate::classify::detect_content_type;
use crate::classify::spec_classify;
use crate::filter::normalize_clipboard_bytes;
use crate::filter::should_ignore_bytes;
use crate::filter::spec_normalize;
use crate::filter::spec_should_ignore;
use crate::hash::content_hash;
use crate::hash::spec_content_hash;
use vstd::prelude::*;

verus! {

/// State the watcher carries across ticks.
pub struct WatcherState {
    /// Hash of the last accepted payload, after normalization.
    pub last_seen_hash: Option<u64>,
    /// Wall-clock moment of the watcher's last own write, in epoch ms.
    pub last_reinject_ms: i64,
    /// Junk or empty reads seen in a row; three trigger re-injection.
    pub consecutive_empty_reads: u32,
    /// Adaptive poll delay: a full second after errors and junk reads,
    /// back to the default after any valid read.
    pub poll_interval_ms: u64,
}

/// The default poll delay after a valid read.
pub const POLL_DEFAULT_MS: u64 = 250;

/// The widened poll delay after a failed or junk read.
pub const POLL_SLOW_MS: u64 = 1000;

/// Junk reads in a row that trigger re-injection from the cache.
pub const REINJECT_AFTER_EMPTY_READS: u32 = 3;

/// Minimum quiet time before the same payload is written back to keep
/// the selection owned, in milliseconds.
pub const MAINTAIN_AFTER_MS: i64 = 2000;

impl WatcherState {
    /// The state a fresh watcher starts from.
    pub fn new(now_ms: i64) -> (r: WatcherState)
        ensures
            r.last_seen_hash is None,
            r.last_reinject_ms == now_ms,
            r.consecutive_empty_reads == 0,
            r.poll_interval_ms == POLL_DEFAULT_MS,
    {
        WatcherState {
            last_seen_hash: None,
            last_reinject_ms: now_ms,
            consecutive_empty_reads: 0,
            poll_interval_ms: POLL_DEFAULT_MS,
        }
    }
}

/// What one tick asks the caller to do.
pub enum WatcherAction {
    /// Nothing: sleep and poll again.
    Idle,
    /// Write the cached payload back to reclaim the lost selection,
    /// without touching the last-written marker.
    Reinject(ClipboardWrite),
    /// Write the current payload back to keep the selection owned while
    /// the source application may have exited, without touching the
    /// marker.
    Maintain(ClipboardWrite),
    /// New external content: append it to the history and notify.
    Append { content: Vec<u8>, content_type: String },
}

/// The shape of an action, for specification.
pub enum ActionView {
    Idle,
    Reinject(Seq<u8>),
    Maintain(Seq<u8>),
    Append(Seq<u8>, Seq<char>),
}

/// The view of an action: its kind and the data it carries.
pub open spec fn action_view(a: WatcherAction) -> ActionView {
    match a {
        WatcherAction::Idle => ActionView::Idle,
        WatcherAction::Reinject(w) => ActionView::Reinject(w.data@),
        WatcherAction::Maintain(w) => ActionView::Maintain(w.data@),
        WatcherAction::Append { content, content_type } => ActionView::Append(
            content@,
            content_type@,
        ),
    }
}

/// View of an optional byte buffer.
pub open spec fn opt_bytes_view(o: Option<Vec<u8>>) -> Option<Seq<u8>> {
    match o {
        Some(v) => Some(v@),
        None => None,
    }
}

/// The junk-read counter after one more junk read, saturating.
pub open spec fn spec_count_up(c: u32) -> u32 {
    if c < 0xffffffffu32 {
        (c + 1) as u32
    } else {
        c
    }
}

/// Everything one watcher tick does, as a relation between the states
/// before and after, the read outcome, the clock, and the action:
/// a failed read widens the poll delay; a junk read counts toward
/// re-injection and re-injects the cache on the third in a row; an
/// unchanged payload is written back after two quiet seconds; new content
/// is recorded and appended unless it is the manager's own echo or
/// normalizes to junk.
pub open spec fn spec_watcher_step(
    pre: WatcherState,
    cache: Option<Seq<u8>>,
    marker: Option<u64>,
    read: Option<Seq<u8>>,
    now_ms: i64,
    post: WatcherState,
    post_cache: Option<Seq<u8>>,
    act: ActionView,
) -> bool {
    match read {
        None => {
            &&& post == WatcherState { poll_interval_ms: POLL_SLOW_MS, ..pre }
            &&& post_cache == cache
            &&& act is Idle
        },
        Some(b) => if spec_should_ignore(b) {
            let cnt = spec_count_up(pre.consecutive_empty_reads);
            if cnt >= REINJECT_AFTER_EMPTY_READS && cache is Some {
                &&& act == ActionView::Reinject(cache->0)
                &&& post_cache == cache
                &&& post.last_seen_hash == Some(spec_content_hash(spec_normalize(cache->0)))
                &&& post.last_reinject_ms == now_ms
                &&& post.consecutive_empty_reads == 0
                &&& post.poll_interval_ms == POLL_SLOW_MS
            } else {
                &&& act is Idle
                &&& post_cache == cache
                &&& post.last_seen_hash == (if cache is None {
                    None
                } else {
                    pre.last_seen_hash
                })
                &&& post.last_reinject_ms == pre.last_reinject_ms
                &&& post.consecutive_empty_reads == cnt
                &&& post.poll_interval_ms == POLL_SLOW_MS
            }
        } else {
            let h = spec_content_hash(spec_normalize(b));
            if pre.last_seen_hash == Some(h) {
                if now_ms - pre.last_reinject_ms >= MAINTAIN_AFTER_MS {
                    &&& act == ActionView::Maintain(b)
                    &&& post_cache == spec_cache_after(cache, b)
                    &&& post == WatcherState {
                        consecutive_empty_reads: 0,
                        last_reinject_ms: now_ms,
                        poll_interval_ms: POLL_DEFAULT_MS,
                        ..pre
                    }
                } else {
                    &&& act is Idle
                    &&& post_cache == cache
                    &&& post == WatcherState {
                        consecutive_empty_reads: 0,
                        poll_interval_ms: POLL_DEFAULT_MS,
                        ..pre
                    }
                }
            } else {
                &&& post == WatcherState {
                    last_seen_hash: Some(h),
                    last_reinject_ms: now_ms,
                    consecutive_empty_reads: 0,
                    poll_interval_ms: POLL_DEFAULT_MS,
                }
                &&& post_cache == spec_cache_after(cache, b)
                &&& act == (if marker == Some(h) {
                    ActionView::Idle
                } else if spec_normalize(b).len() == 0 || spec_should_ignore(spec_normalize(b)) {
                    ActionView::Idle
                } else {
                    ActionView::Append(
                        spec_normalize(b),
                        spec_classify(spec_normalize(b)).spec_name(),
                    )
                })
            }
        },
    }
}

/// One tick of the watcher: decide from the read outcome and the clock.
/// The last-written marker is never touched here; maintenance writes go
/// through the no-marker path so they cannot echo into the history.
pub fn watcher_step(
    ws: &mut WatcherState,
    clip: &mut ClipboardState,
    read: Option<Vec<u8>>,
    now_ms: i64,
) -> (r: WatcherAction)
    requires
        old(clip).wf(),
        0 <= old(ws).last_reinject_ms <= now_ms,
    ensures
        final(clip).wf(),
        final(clip).spec_marker() == old(clip).spec_marker(),
        spec_watcher_step(
            *old(ws),
            old(clip).spec_cache(),
            old(clip).spec_marker(),
            opt_bytes_view(read),
            now_ms,
            *final(ws),
            final(clip).spec_cache(),
            action_view(r),
        ),
        r matches WatcherAction::Reinject(w) ==> w.mime == spec_write_mime(w.data@),
        r matches WatcherAction::Maintain(w) ==> w.mime == spec_write_mime(w.data@),
{
    let bytes = match read {
        Some(b) => b,
        None => {
            ws.poll_interval_ms = POLL_SLOW_MS;
            return WatcherAction::Idle;
        },
    };
    if should_ignore_bytes(bytes.as_slice()) {
        if ws.consecutive_empty_reads < 0xffffffffu32 {
            ws.consecutive_empty_reads = ws.consecutive_empty_reads + 1;
        }
        let cached = get_persistent_clipboard(clip);
        if cached.is_none() {
            if ws.last_seen_hash.is_some() {
                ws.last_seen_hash = None;
            }
        }
        if ws.consecutive_empty_reads >= REINJECT_AFTER_EMPTY_READS {
            if let Some(persistent) = cached {
                if !should_ignore_bytes(persistent.as_slice()) {
                    let w = set_clipboard_no_hash(clip, persistent.as_slice());
                    let normalized = normalize_clipboard_bytes(persistent.as_slice());
                    ws.last_seen_hash = Some(content_hash(normalized.as_slice()));
                    ws.last_reinject_ms = now_ms;
                    ws.consecutive_empty_reads = 0;
                    ws.poll_interval_ms = POLL_SLOW_MS;
                    return WatcherAction::Reinject(w);
                }
            }
        }
        ws.poll_interval_ms = POLL_SLOW_MS;
        return WatcherAction::Idle;
    }
    ws.consecutive_empty_reads = 0;
    let normalized = normalize_clipboard_bytes(bytes.as_slice());
    let content_hash_now = content_hash(normalized.as_slice());
    if ws.last_seen_hash == Some(content_hash_now) {
        if now_ms - ws.last_reinject_ms >= MAINTAIN_AFTER_MS {
            let w = set_clipboard_no_hash(clip, bytes.as_slice());
            ws.last_reinject_ms = now_ms;
            ws.poll_interval_ms = POLL_DEFAULT_MS;
            return WatcherAction::Maintain(w);
        }
        ws.poll_interval_ms = POLL_DEFAULT_MS;
        return WatcherAction::Idle;
    }
    ws.last_seen_hash = Some(content_hash_now);
    ws.last_reinject_ms = now_ms;
    cache_clipboard_data(clip, bytes.as_slice());
    ws.poll_interval_ms = POLL_DEFAULT_MS;
    if last_written_marker(clip) == Some(content_hash_now) {
        return WatcherAction::Idle;
    }
    if normalized.len() == 0 || should_ignore_bytes(normalized.as_slice()) {
        return WatcherAction::Idle;
    }
    let content_type = detect_content_type(normalized.as_slice());
    WatcherAction::Append { content: normalized, content_type }
}

/// A tick that accepted a payload records its normalized hash as the
/// last-seen hash.
pub proof fn lemma_step_records_payload(
    pre: WatcherState,
    cache: Option<Seq<u8>>,
    marker: Option<u64>,
    b: Seq<u8>,
    now_ms: i64,
    post: WatcherState,
    post_cache: Option<Seq<u8>>,
    act: ActionView,
)
    requires
        spec_watcher_step(pre, cache, marker, Some(b), now_ms, post, post_cache, act),
        !spec_should_ignore(b),
    ensures
        post.last_seen_hash == Some(spec_content_hash(spec_normalize(b))),
{
}

/// A tick that reads a payload whose normalized hash is already the
/// last-seen hash never appends: it maintains the selection or stays
/// idle, and the last-seen hash is unchanged. Together with
/// `lemma_step_records_payload` this bounds a run of identical valid
/// reads to at most one append: the first tick records the hash, and
/// every later tick of the run falls under this lemma.
pub proof fn lemma_same_payload_added_once(
    pre: WatcherState,
    cache: Option<Seq<u8>>,
    marker: Option<u64>,
    b: Seq<u8>,
    now_ms: i64,
    post: WatcherState,
    post_cache: Option<Seq<u8>>,
    act: ActionView,
)
    requires
        spec_watcher_step(pre, cache, marker, Some(b), now_ms, post, post_cache, act),
        !spec_should_ignore(b),
        pre.last_seen_hash == Some(spec_content_hash(spec_normalize(b))),
    ensures
        !(act is Append),
        post.last_seen_hash == pre.last_seen_hash,
{
}

/// A tick that reads a fresh valid payload (its normalized hash matches
/// neither the last-seen hash nor the last-written marker) appends the
/// normalized payload to the history, provided the normalized form still
/// passes the filter. Together with `lemma_same_payload_added_once` this
/// gives the exactly-once capture of an external copy: the first tick of
/// a run of identical reads appends, every later one does not.
pub proof fn lemma_fresh_payload_appended(
    pre: WatcherState,
    cache: Option<Seq<u8>>,
    marker: Option<u64>,
    b: Seq<u8>,
    now_ms: i64,
    post: WatcherState,
    post_cache: Option<Seq<u8>>,
    act: ActionView,
)
    requires
        spec_watcher_step(pre, cache, marker, Some(b), now_ms, post, post_cache, act),
        !spec_should_ignore(b),
        pre.last_seen_hash != Some(spec_content_hash(spec_normalize(b))),
        marker != Some(spec_content_hash(spec_normalize(b))),
        !spec_should_ignore(spec_normalize(b)),
    ensures
        act == ActionView::Append(
            spec_normalize(b),
            spec_classify(spec_normalize(b)).spec_name(),
        ),
        post.last_seen_hash == Some(spec_content_hash(spec_normalize(b))),
{
    assert(spec_normalize(b).len() != 0) by {
        if spec_normalize(b).len() == 0 {
            assert(spec_should_ignore(spec_normalize(b)));
        }
    }
}

/// A tick whose payload hash equals the last-written marker (the
/// manager's own echo) updates the cache and the last-seen hash but
/// never appends to the history.
pub proof fn lemma_self_echo_suppressed(
    pre: WatcherState,
    cache: Option<Seq<u8>>,
    marker: Option<u64>,
    b: Seq<u8>,
    now_ms: i64,
    post: WatcherState,
    post_cache: Option<Seq<u8>>,
    act: ActionView,
)
    requires
        spec_watcher_step(pre, cache, marker, Some(b), now_ms, post, post_cache, act),
        !spec_should_ignore(b),
        marker == Some(spec_content_hash(spec_normalize(b))),
    ensures
        !(act is Append),
{
}

} // verus!
