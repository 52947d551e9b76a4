//! The clipboard bridge's state and decision logic.
//!
//! The bridge reads and writes the system selection on both display-server
//! protocols. The protocol calls themselves live with the caller; this
//! module holds everything the bridge decides: which MIME a write uses,
//! what a read loop accepts, the single-slot persistent cache that backs
//! reads up when the selection is lost, and the last-written marker that
//! suppresses self-echo in the watcher.
use crate::classify::ContentType;
use crate::classify::classify;
use crate::classify::is_valid_utf8;
use crate::classify::spec_classify;
use crate::classify::spec_valid_utf8;
use crate::filter::clean_bytes;
use crate::filter::normalize_clipboard_bytes;
use crate::filter::should_ignore_bytes;
use crate::filter::spec_clean;
use crate::filter::spec_normalize;
use crate::filter::spec_should_ignore;
use crate::hash::content_hash;
use crate::hash::spec_content_hash;
use vstd::prelude::*;

verus! {

/// The MIME under which a payload is offered to the display server:
/// the specific image type for images, auto-detection otherwise.
#[derive(Clone, Copy, PartialEq, Eq, Structural, Debug)]
pub enum WriteMime {
    Specific(ContentType),
    Autodetect,
}

/// The MIME the bridge chooses when writing `b`.
pub open spec fn spec_write_mime(b: Seq<u8>) -> WriteMime {
    if spec_classify(b).spec_is_image() {
        WriteMime::Specific(spec_classify(b))
    } else {
        WriteMime::Autodetect
    }
}

/// A prepared write: the payload and its chosen MIME. The caller performs
/// the display-server call; an empty payload clears the selection.
pub struct ClipboardWrite {
    pub data: Vec<u8>,
    pub mime: WriteMime,
}

/// The bridge's in-process state: the persistent single-slot cache of the
/// most recent valid payload, and the 64-bit hash marker of the most
/// recent payload the process itself wrote.
pub struct ClipboardState {
    cache: Option<Vec<u8>>,
    last_written: Option<u64>,
}

impl ClipboardState {
    /// The cached payload.
    pub closed spec fn spec_cache(self) -> Option<Seq<u8>> {
        match self.cache {
            Some(d) => Some(d@),
            None => None,
        }
    }

    /// The last-written marker.
    pub closed spec fn spec_marker(self) -> Option<u64> {
        self.last_written
    }

    /// The cache never holds an empty or junk payload.
    pub open spec fn wf(self) -> bool {
        match self.spec_cache() {
            Some(d) => d.len() > 0 && !spec_should_ignore(d),
            None => true,
        }
    }

    /// Fresh state: empty cache, empty marker.
    pub fn new() -> (r: ClipboardState)
        ensures
            r.spec_cache() is None,
            r.spec_marker() is None,
            r.wf(),
    {
        ClipboardState { cache: None, last_written: None }
    }
}

/// What the cache holds after an offered payload: valid payloads replace
/// it, junk leaves it alone.
pub open spec fn spec_cache_after(cache: Option<Seq<u8>>, data: Seq<u8>) -> Option<Seq<u8>> {
    if data.len() > 0 && !spec_should_ignore(data) {
        Some(data)
    } else {
        cache
    }
}

/// Store a payload in the persistent cache without touching the system
/// clipboard. Empty or junk payloads never overwrite the cache.
pub fn cache_clipboard_data(state: &mut ClipboardState, data: &[u8])
    requires
        old(state).wf(),
    ensures
        final(state).wf(),
        final(state).spec_marker() == old(state).spec_marker(),
        final(state).spec_cache() == spec_cache_after(old(state).spec_cache(), data@),
{
    if data.len() > 0 && !should_ignore_bytes(data) {
        state.cache = Some(vstd::slice::slice_to_vec(data));
    }
}

/// The most recent cached payload, if any.
pub fn get_persistent_clipboard(state: &ClipboardState) -> (r: Option<Vec<u8>>)
    ensures
        r is Some <==> state.spec_cache() is Some,
        r is Some ==> r->0@ == state.spec_cache()->0,
{
    match &state.cache {
        Some(d) => Some(d.clone()),
        None => None,
    }
}

/// The marker value after a write of `data`: set to the hash of the
/// normalized payload for user-initiated text writes, untouched otherwise.
pub open spec fn spec_marker_after(marker: Option<u64>, data: Seq<u8>, update: bool) -> Option<
    u64,
> {
    if update && spec_classify(data) == ContentType::Text {
        Some(spec_content_hash(spec_normalize(data)))
    } else {
        marker
    }
}

/// Shared write path: update the cache first (so an immediate re-read
/// cannot lose the payload to a race), update the marker when asked and
/// the payload is text, and hand back the prepared write.
fn set_clipboard_inner(state: &mut ClipboardState, data: &[u8], update_last_written: bool) -> (w:
    ClipboardWrite)
    requires
        old(state).wf(),
    ensures
        final(state).wf(),
        w.data@ == data@,
        w.mime == spec_write_mime(data@),
        final(state).spec_cache() == spec_cache_after(old(state).spec_cache(), data@),
        final(state).spec_marker() == spec_marker_after(
            old(state).spec_marker(),
            data@,
            update_last_written,
        ),
{
    let ct = classify(data);
    if update_last_written && ct == ContentType::Text {
        let normalized = normalize_clipboard_bytes(data);
        state.last_written = Some(content_hash(normalized.as_slice()));
    }
    cache_clipboard_data(state, data);
    let mime = if ct.is_image() {
        WriteMime::Specific(ct)
    } else {
        WriteMime::Autodetect
    };
    ClipboardWrite { data: vstd::slice::slice_to_vec(data), mime }
}

/// Prepare a user-initiated clipboard write: cache the payload, set the
/// last-written marker for text, choose the MIME.
pub fn set_clipboard(state: &mut ClipboardState, data: &[u8]) -> (w: ClipboardWrite)
    requires
        old(state).wf(),
    ensures
        final(state).wf(),
        w.data@ == data@,
        w.mime == spec_write_mime(data@),
        final(state).spec_cache() == spec_cache_after(old(state).spec_cache(), data@),
        final(state).spec_marker() == spec_marker_after(old(state).spec_marker(), data@, true),
{
    set_clipboard_inner(state, data, true)
}

/// Prepare a maintenance clipboard write (the watcher's keep-alive
/// re-injection): cache the payload, leave the marker untouched.
pub fn set_clipboard_no_hash(state: &mut ClipboardState, data: &[u8]) -> (w: ClipboardWrite)
    requires
        old(state).wf(),
    ensures
        final(state).wf(),
        w.data@ == data@,
        w.mime == spec_write_mime(data@),
        final(state).spec_cache() == spec_cache_after(old(state).spec_cache(), data@),
        final(state).spec_marker() == old(state).spec_marker(),
{
    set_clipboard_inner(state, data, false)
}

/// What the text-MIME step of a read accepts: the buffer with embedded
/// NULs stripped and outer ASCII whitespace trimmed, when that form
/// passes the filter and is valid UTF-8.
pub open spec fn spec_accepted_text(bytes: Seq<u8>) -> Option<Seq<u8>> {
    if bytes.len() > 0 && !spec_should_ignore(spec_clean(bytes)) && spec_valid_utf8(
        spec_clean(bytes),
    ) {
        Some(spec_clean(bytes))
    } else {
        None
    }
}

/// Handle the text-MIME outcome of a read: strip embedded NULs and outer
/// ASCII whitespace, reject junk and invalid UTF-8; an accepted payload
/// is cached and returned.
pub fn accept_text_read(state: &mut ClipboardState, bytes: &[u8]) -> (r: Option<Vec<u8>>)
    requires
        old(state).wf(),
    ensures
        final(state).wf(),
        final(state).spec_marker() == old(state).spec_marker(),
        r is Some <==> spec_accepted_text(bytes@) is Some,
        r is Some ==> r->0@ == spec_accepted_text(bytes@)->0,
        final(state).spec_cache() == (if spec_accepted_text(bytes@) is Some {
            spec_accepted_text(bytes@)
        } else {
            old(state).spec_cache()
        }),
{
    if bytes.len() == 0 {
        return None;
    }
    let clean = clean_bytes(bytes);
    if !should_ignore_bytes(clean.as_slice()) && is_valid_utf8(clean.as_slice()) {
        cache_clipboard_data(state, clean.as_slice());
        Some(clean)
    } else {
        None
    }
}

/// An image-MIME read qualifies as a candidate when it classifies as an
/// image and is at least 100 bytes long.
pub open spec fn spec_image_candidate(bytes: Seq<u8>) -> bool {
    spec_classify(bytes).spec_is_image() && bytes.len() >= 100
}

/// Decide whether an image-MIME outcome qualifies as a candidate.
pub fn accept_image_read(bytes: &[u8]) -> (r: bool)
    ensures
        r == spec_image_candidate(bytes@),
{
    let ct = classify(bytes);
    ct.is_image() && bytes.len() >= 100
}

/// What a finished read returns: the image candidate when one was seen,
/// else the cache, else the empty buffer.
pub open spec fn spec_read_result(candidate: Option<Seq<u8>>, cache: Option<Seq<u8>>) -> Seq<
    u8,
> {
    match candidate {
        Some(img) => img,
        None => match cache {
            Some(d) => d,
            None => Seq::<u8>::empty(),
        },
    }
}

/// Finish a read whose text step accepted nothing: return the image
/// candidate (caching it when valid), else fall back to the cache, else
/// the empty buffer.
pub fn finish_read(state: &mut ClipboardState, candidate: Option<Vec<u8>>) -> (r: Vec<u8>)
    requires
        old(state).wf(),
    ensures
        final(state).wf(),
        final(state).spec_marker() == old(state).spec_marker(),
        r@ == spec_read_result(
            match candidate {
                Some(img) => Some(img@),
                None => None,
            },
            old(state).spec_cache(),
        ),
        final(state).spec_cache() == (match candidate {
            Some(img) => spec_cache_after(old(state).spec_cache(), img@),
            None => old(state).spec_cache(),
        }),
{
    match candidate {
        Some(img) => {
            cache_clipboard_data(state, img.as_slice());
            img
        },
        None => {
            match &state.cache {
                Some(d) => d.clone(),
                None => Vec::new(),
            }
        },
    }
}

/// What the bridge hands out for a raw protocol read `b`, given the cache:
/// an empty read falls back to the cache; junk falls back to a valid
/// cache or yields the empty buffer; images and binaries pass through;
/// text is normalized when valid UTF-8 and dropped otherwise.
pub open spec fn spec_get_clipboard(b: Seq<u8>, cache: Option<Seq<u8>>) -> Seq<u8> {
    if b.len() == 0 && cache is Some {
        cache->0
    } else if spec_should_ignore(b) {
        if cache is Some && !spec_should_ignore(cache->0) {
            cache->0
        } else {
            Seq::<u8>::empty()
        }
    } else if spec_classify(b).spec_is_image() {
        b
    } else if spec_classify(b) == ContentType::Text {
        if spec_valid_utf8(b) {
            spec_normalize(b)
        } else {
            Seq::<u8>::empty()
        }
    } else {
        b
    }
}

/// Post-process a raw protocol read into what the bridge returns.
pub fn get_clipboard(state: &ClipboardState, bytes: &[u8]) -> (r: Vec<u8>)
    requires
        state.wf(),
    ensures
        r@ == spec_get_clipboard(bytes@, state.spec_cache()),
{
    if bytes.len() == 0 {
        if let Some(d) = &state.cache {
            return d.clone();
        }
    }
    if should_ignore_bytes(bytes) {
        if let Some(d) = &state.cache {
            if !should_ignore_bytes(d.as_slice()) {
                return d.clone();
            }
        }
        return Vec::new();
    }
    let ct = classify(bytes);
    if ct.is_image() {
        return vstd::slice::slice_to_vec(bytes);
    }
    if ct == ContentType::Text {
        if is_valid_utf8(bytes) {
            return normalize_clipboard_bytes(bytes);
        } else {
            return Vec::new();
        }
    }
    vstd::slice::slice_to_vec(bytes)
}

/// What a paste returns from the cache: nothing for an empty or junk
/// cache, images and binaries as cached, text normalized when valid
/// UTF-8.
pub open spec fn spec_paste_view(cache: Option<Seq<u8>>) -> Seq<u8> {
    match cache {
        None => Seq::<u8>::empty(),
        Some(d) => if spec_should_ignore(d) {
            Seq::<u8>::empty()
        } else if spec_classify(d).spec_is_image() {
            d
        } else if spec_classify(d) == ContentType::Text {
            if spec_valid_utf8(d) {
                spec_normalize(d)
            } else {
                Seq::<u8>::empty()
            }
        } else {
            d
        },
    }
}

/// Hand the frontend the most recent payload, always from the persistent
/// cache: this never blocks on the display server.
pub fn get_clipboard_for_paste(state: &ClipboardState) -> (r: Result<Vec<u8>, String>)
    requires
        state.wf(),
    ensures
        r is Ok,
        r matches Ok(v) ==> v@ == spec_paste_view(state.spec_cache()),
{
    match &state.cache {
        Some(d) => {
            if should_ignore_bytes(d.as_slice()) {
                return Ok(Vec::new());
            }
            let ct = classify(d.as_slice());
            if ct.is_image() {
                return Ok(d.clone());
            }
            if ct == ContentType::Text {
                if is_valid_utf8(d.as_slice()) {
                    return Ok(normalize_clipboard_bytes(d.as_slice()));
                } else {
                    return Ok(Vec::new());
                }
            }
            Ok(d.clone())
        },
        None => Ok(Vec::new()),
    }
}

/// The last-written marker, if a user-initiated text write set one.
pub fn last_written_marker(state: &ClipboardState) -> (r: Option<u64>)
    ensures
        r == state.spec_marker(),
{
    state.last_written
}

/// Empty both singleton slots: the cache and the last-written marker.
pub fn clear_clipboard_state(state: &mut ClipboardState)
    ensures
        final(state).spec_cache() is None,
        final(state).spec_marker() is None,
        final(state).wf(),
{
    state.cache = None;
    state.last_written = None;
}

/// The cache guarantee: a payload stored by a write comes back unchanged
/// from a paste, display server or not, provided it is not junk, carries
/// no trailing sentinel, and is valid UTF-8 when it classifies as text.
/// `set_clipboard` ensures the cache is `Some(p)` afterwards, and
/// `get_clipboard_for_paste` returns exactly `spec_paste_view` of the
/// cache.
pub proof fn lemma_cache_round_trip(p: Seq<u8>)
    requires
        !spec_should_ignore(p),
        spec_normalize(p) == p,
        spec_classify(p) == ContentType::Text ==> spec_valid_utf8(p),
    ensures
        spec_paste_view(Some(p)) == p,
{
}

} // verus!
