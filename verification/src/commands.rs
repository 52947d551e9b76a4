//! The command surface the UI consumes: the pure core of each handler.
//! The caller supplies the bridge state, the history and the blob store,
//! performs the prepared display-server writes, and persists the history
//! afterwards.
use crate::bridge::ClipboardState;
use crate::bridge::ClipboardWrite;
use crate::bridge::cache_clipboard_data;
use crate::bridge::clear_clipboard_state;
use crate::bridge::get_clipboard_for_paste;
use crate::bridge::set_clipboard;
use crate::bridge::spec_cache_after;
use crate::bridge::spec_marker_after;
use crate::bridge::spec_paste_view;
use crate::bridge::spec_write_mime;
use crate::classify::detect_content_type;
use crate::classify::spec_classify;
use crate::filter::starts_file_uri;
use crate::history::BlobStore;
use crate::history::ClipboardEntry;
use crate::history::ClipboardHistory;
use crate::history::opt_str_view;
use crate::history::spec_add_outcome;
use vstd::prelude::*;

verus! {

/// Aggregate numbers over the history, for the UI's stats view.
pub struct HistoryStats {
    pub total_entries: usize,
    pub max_entries: usize,
    pub total_size_bytes: usize,
}

/// A payload handed to the UI: the bytes and their content-type name.
pub struct ClipboardData {
    pub content: Vec<u8>,
    pub content_type: String,
}

/// The decoding of a byte buffer by the standard library's lossy UTF-8
/// conversion; a function of the bytes alone.
pub uninterp spec fn decoded_lossy(b: Seq<u8>) -> Seq<char>;

/// Relies on `String::from_utf8_lossy`: decodes the bytes as UTF-8,
/// replacing invalid sequences with the replacement character; the result
/// depends on the bytes alone.
#[verifier::external_body]
fn utf8_lossy(b: &[u8]) -> (s: String)
    ensures
        s@ == decoded_lossy(b@),
{
    String::from_utf8_lossy(b).to_string()
}

/// The origin hint recorded with a payload: the remainder of a `file://`
/// URI, decoded leniently; nothing otherwise.
pub open spec fn spec_source_path(content: Seq<u8>) -> Option<Seq<char>> {
    if starts_file_uri(content) {
        Some(decoded_lossy(content.skip(7)))
    } else {
        None
    }
}

/// Detect an origin hint in a payload.
pub fn source_path_of(content: &[u8]) -> (r: Option<String>)
    ensures
        opt_str_view(r) == spec_source_path(content@),
{
    let n = content.len();
    if n >= 7 && content[0] == 0x66u8 && content[1] == 0x69u8 && content[2] == 0x6cu8 && content[3]
        == 0x65u8 && content[4] == 0x3au8 && content[5] == 0x2fu8 && content[6] == 0x2fu8 {
        let rest = vstd::slice::slice_subrange(content, 7, n);
        Some(utf8_lossy(rest))
    } else {
        None
    }
}

/// Place a payload on the system clipboard and record it in the history:
/// cache it, prepare the marker-updating write (the caller performs it),
/// detect its origin hint and append it. The caller persists the history
/// and emits the update notification.
pub fn set_system_clipboard(
    state: &mut ClipboardState,
    history: &mut ClipboardHistory,
    blobs: &mut BlobStore,
    content: Vec<u8>,
) -> (w: ClipboardWrite)
    requires
        old(state).wf(),
        old(blobs).wf(),
        old(history).wf(*old(blobs)),
    ensures
        final(state).wf(),
        final(blobs).wf(),
        final(history).wf(*final(blobs)),
        w.data@ == content@,
        w.mime == spec_write_mime(content@),
        final(state).spec_cache() == spec_cache_after(old(state).spec_cache(), content@),
        final(state).spec_marker() == spec_marker_after(old(state).spec_marker(), content@, true),
        final(history).max_entries == old(history).max_entries,
        exists|id: Seq<char>, ts: i64|
            #[trigger] spec_add_outcome(
                *old(history),
                *old(blobs),
                *final(history),
                *final(blobs),
                id,
                ts,
                content@,
                spec_classify(content@).spec_name(),
                spec_source_path(content@),
            ),
        old(history).adjacent_distinct(*old(blobs)) ==> final(history).adjacent_distinct(
            *final(blobs),
        ),
{
    let content_type = detect_content_type(content.as_slice());
    cache_clipboard_data(state, content.as_slice());
    let w = set_clipboard(state, content.as_slice());
    let source_path = source_path_of(content.as_slice());
    history.add_entry(blobs, content, content_type, source_path);
    w
}

/// Hand the UI the most recent payload, from the cache alone: the bytes
/// and their content type, or an empty text payload when nothing valid is
/// cached.
pub fn get_system_clipboard(state: &ClipboardState) -> (r: Result<ClipboardData, String>)
    requires
        state.wf(),
    ensures
        r is Ok,
        r matches Ok(d) ==> {
            &&& d.content@ == spec_paste_view(state.spec_cache())
            &&& d.content_type@ == (if spec_paste_view(state.spec_cache()).len() > 0 {
                spec_classify(spec_paste_view(state.spec_cache())).spec_name()
            } else {
                "text"@
            })
        },
{
    let bytes = match get_clipboard_for_paste(state) {
        Ok(b) => b,
        Err(e) => {
            return Err(e);
        },
    };
    if bytes.len() > 0 {
        let content_type = detect_content_type(bytes.as_slice());
        Ok(ClipboardData { content: bytes, content_type })
    } else {
        Ok(ClipboardData { content: bytes, content_type: String::from_str("text") })
    }
}

/// Wipe everything: the last-written marker, the cache, every entry and
/// its blob. The caller clears the system selection and persists the
/// emptied history.
pub fn clear_clipboard_history(
    state: &mut ClipboardState,
    history: &mut ClipboardHistory,
    blobs: &mut BlobStore,
)
    requires
        old(state).wf(),
        old(blobs).wf(),
        old(history).wf(*old(blobs)),
    ensures
        final(state).wf(),
        final(blobs).wf(),
        final(history).wf(*final(blobs)),
        final(state).spec_cache() is None,
        final(state).spec_marker() is None,
        final(history).entries@.len() == 0,
        final(history).max_entries == old(history).max_entries,
        forall|i: int|
            0 <= i < old(history).entries@.len() ==> !final(blobs).view().contains_key(
                #[trigger] old(history).entries@[i].id@,
            ),
{
    clear_clipboard_state(state);
    history.clear(blobs);
}

/// Put a stored entry back on the system clipboard: load its content,
/// cache it, and prepare the marker-updating write for the caller to
/// perform. Fails exactly when no entry carries the id.
pub fn set_clipboard_from_history(
    state: &mut ClipboardState,
    history: &ClipboardHistory,
    blobs: &BlobStore,
    entry_id: &String,
) -> (r: Result<ClipboardWrite, String>)
    requires
        old(state).wf(),
        blobs.wf(),
    ensures
        final(state).wf(),
        r is Ok <==> exists|i: int|
            0 <= i < history.entries@.len() && (#[trigger] history.entries@[i].id@) == entry_id@,
        r is Err ==> *final(state) == *old(state),
        r matches Ok(w) ==> {
            let content = if blobs.view().contains_key(entry_id@) {
                blobs.view()[entry_id@]
            } else {
                Seq::<u8>::empty()
            };
            &&& w.data@ == content
            &&& w.mime == spec_write_mime(content)
            &&& final(state).spec_cache() == spec_cache_after(old(state).spec_cache(), content)
            &&& final(state).spec_marker() == spec_marker_after(
                old(state).spec_marker(),
                content,
                true,
            )
        },
{
    match history.get_entry_content(blobs, entry_id) {
        Some(content) => {
            cache_clipboard_data(state, content.as_slice());
            let w = set_clipboard(state, content.as_slice());
            Ok(w)
        },
        None => Err(String::from_str("Entry not found")),
    }
}

/// The running total of recorded payload sizes.
pub open spec fn spec_total_size(entries: Seq<ClipboardEntry>) -> int
    decreases entries.len(),
{
    if entries.len() == 0 {
        0
    } else {
        spec_total_size(entries.drop_last()) + entries.last().content_size
    }
}

/// The total is never negative.
proof fn lemma_total_size_nonneg(entries: Seq<ClipboardEntry>)
    ensures
        spec_total_size(entries) >= 0,
    decreases entries.len(),
{
    if entries.len() > 0 {
        lemma_total_size_nonneg(entries.drop_last());
    }
}

/// Aggregate the history for the UI: entry count, cap, and the sum of
/// recorded sizes, saturating at the machine limit.
pub fn get_history_stats(history: &ClipboardHistory) -> (r: HistoryStats)
    ensures
        r.total_entries == history.entries@.len(),
        r.max_entries == history.max_entries,
        r.total_size_bytes == (if spec_total_size(history.entries@) <= usize::MAX as int {
            spec_total_size(history.entries@)
        } else {
            usize::MAX as int
        }),
{
    let n = history.entries.len();
    let mut total: usize = 0;
    let mut i: usize = 0;
    while i < n
        invariant
            0 <= i <= n,
            n == history.entries@.len(),
            total as int == (if spec_total_size(history.entries@.take(i as int)) <= usize::MAX
                as int {
                spec_total_size(history.entries@.take(i as int))
            } else {
                usize::MAX as int
            }),
        decreases n - i,
    {
        let sz = history.entries[i].content_size;
        proof {
            assert(history.entries@.take(i + 1).drop_last() == history.entries@.take(i as int));
            assert(history.entries@.take(i + 1).last() == history.entries@[i as int]);
            lemma_total_size_nonneg(history.entries@.take(i as int));
        }
        if total <= usize::MAX - sz {
            total = total + sz;
        } else {
            total = usize::MAX;
        }
        i = i + 1;
    }
    proof {
        assert(history.entries@.take(n as int) == history.entries@);
    }
    HistoryStats { total_entries: n, max_entries: history.max_entries, total_size_bytes: total }
}

} // verus!
