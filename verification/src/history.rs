//! The history store: a bounded, deduplicated ring of clipboard entries
//! with out-of-line content storage.
//!
//! Entry metadata lives in the ring; entry content lives in a blob store
//! keyed by entry id, one blob per entry, and is never held inside an
//! entry in memory. The caller mirrors blob-store operations onto the
//! on-disk blob directory and persists the metadata through its keyed
//! store.
use std::collections::VecDeque;
use vstd::prelude::*;

verus! {

broadcast use vstd::std_specs::vecdeque::group_vec_dequeue_axioms;

/// Maximum payload size accepted into the history (5 MiB).
pub const MAX_ENTRY_SIZE: usize = 5 * 1024 * 1024;

/// One stored blob: an entry id and the raw content bytes.
struct BlobFile {
    id: String,
    data: Vec<u8>,
}

/// The id-keyed content store backing the history: the model of the blob
/// directory, one file per entry id.
pub struct BlobStore {
    files: Vec<BlobFile>,
}

/// The map an association list denotes; later bindings win.
spec fn assoc_map(files: Seq<BlobFile>) -> Map<Seq<char>, Seq<u8>>
    decreases files.len(),
{
    if files.len() == 0 {
        Map::<Seq<char>, Seq<u8>>::empty()
    } else {
        assoc_map(files.drop_last()).insert(files.last().id@, files.last().data@)
    }
}

/// No two blobs share an id.
spec fn distinct_ids(files: Seq<BlobFile>) -> bool {
    forall|i: int, j: int|
        0 <= i < j < files.len() ==> (#[trigger] files[i].id@) != (#[trigger] files[j].id@)
}

/// A key is in the association map exactly when some blob carries it.
proof fn lemma_assoc_contains(files: Seq<BlobFile>, k: Seq<char>)
    ensures
        assoc_map(files).contains_key(k) <==> exists|i: int|
            0 <= i < files.len() && (#[trigger] files[i].id@) == k,
    decreases files.len(),
{
    if files.len() > 0 {
        lemma_assoc_contains(files.drop_last(), k);
        if assoc_map(files).contains_key(k) {
            if files.last().id@ == k {
                assert(files[files.len() - 1].id@ == k);
            } else {
                let i = choose|i: int|
                    0 <= i < files.drop_last().len() && (#[trigger] files.drop_last()[i].id@) == k;
                assert(files[i].id@ == k);
            }
        }
        if exists|i: int| 0 <= i < files.len() && (#[trigger] files[i].id@) == k {
            let i = choose|i: int| 0 <= i < files.len() && (#[trigger] files[i].id@) == k;
            if i < files.len() - 1 {
                assert(files.drop_last()[i].id@ == k);
            }
        }
    }
}

/// Under distinct ids, each blob's id maps to its own data.
proof fn lemma_assoc_lookup(files: Seq<BlobFile>, i: int)
    requires
        distinct_ids(files),
        0 <= i < files.len(),
    ensures
        assoc_map(files).contains_key(files[i].id@),
        assoc_map(files)[files[i].id@] == files[i].data@,
    decreases files.len(),
{
    if i == files.len() - 1 {
    } else {
        assert(distinct_ids(files.drop_last())) by {
            assert(forall|x: int, y: int|
                0 <= x < y < files.drop_last().len() ==> (#[trigger] files.drop_last()[x].id@)
                    == files[x].id@ && (#[trigger] files.drop_last()[y].id@) == files[y].id@);
        }
        lemma_assoc_lookup(files.drop_last(), i);
        assert(files.drop_last()[i] == files[i]);
        assert(files[i].id@ != files.last().id@) by {
            assert(files.last() == files[files.len() - 1]);
        }
    }
}

impl BlobStore {
    /// The store's contents: a map from entry id to content bytes.
    pub closed spec fn view(self) -> Map<Seq<char>, Seq<u8>> {
        assoc_map(self.files@)
    }

    /// No two blobs share an id.
    pub closed spec fn wf(self) -> bool {
        distinct_ids(self.files@)
    }

    /// An empty store.
    pub fn new() -> (r: BlobStore)
        ensures
            r.view() == Map::<Seq<char>, Seq<u8>>::empty(),
            r.wf(),
    {
        BlobStore { files: Vec::new() }
    }

    /// Whether a blob with this id exists.
    pub fn contains(&self, id: &String) -> (r: bool)
        requires
            self.wf(),
        ensures
            r == self.view().contains_key(id@),
    {
        let n = self.files.len();
        let mut i: usize = 0;
        while i < n
            invariant
                0 <= i <= n,
                n == self.files@.len(),
                forall|j: int| 0 <= j < i ==> (#[trigger] self.files@[j].id@) != id@,
            decreases n - i,
        {
            if self.files[i].id == *id {
                proof {
                    lemma_assoc_contains(self.files@, id@);
                }
                return true;
            }
            i = i + 1;
        }
        proof {
            lemma_assoc_contains(self.files@, id@);
        }
        false
    }

    /// The content bytes stored under this id, if any.
    pub fn read(&self, id: &String) -> (r: Option<Vec<u8>>)
        requires
            self.wf(),
        ensures
            r is Some <==> self.view().contains_key(id@),
            r is Some ==> r->0@ == self.view()[id@],
    {
        let n = self.files.len();
        let mut i: usize = 0;
        while i < n
            invariant
                0 <= i <= n,
                n == self.files@.len(),
                distinct_ids(self.files@),
                forall|j: int| 0 <= j < i ==> (#[trigger] self.files@[j].id@) != id@,
            decreases n - i,
        {
            if self.files[i].id == *id {
                proof {
                    lemma_assoc_lookup(self.files@, i as int);
                }
                return Some(self.files[i].data.clone());
            }
            i = i + 1;
        }
        proof {
            lemma_assoc_contains(self.files@, id@);
        }
        None
    }

    /// Remove the blob with this id, if present.
    pub fn remove(&mut self, id: &String)
        requires
            old(self).wf(),
        ensures
            final(self).wf(),
            final(self).view() == old(self).view().remove(id@),
    {
        let ghost pre = self.files@;
        let n = self.files.len();
        let mut i: usize = 0;
        while i < n
            invariant
                0 <= i <= n,
                n == self.files@.len(),
                self.files@ == pre,
                pre == old(self).files@,
                distinct_ids(pre),
                forall|j: int| 0 <= j < i ==> (#[trigger] pre[j].id@) != id@,
            decreases n - i,
        {
            if self.files[i].id == *id {
                self.files.remove(i);
                proof {
                    assert(pre[i as int].id@ == id@);
                    lemma_assoc_remove_at(pre, i as int);
                    lemma_assoc_lookup(pre, i as int);
                    assert(distinct_ids(self.files@)) by {
                        assert(forall|x: int|
                            0 <= x < pre.len() - 1 ==> (#[trigger] self.files@[x].id@) == (if x < i
                                as int {
                                pre[x].id@
                            } else {
                                pre[x + 1].id@
                            }));
                    }
                }
                return ;
            }
            i = i + 1;
        }
        proof {
            lemma_assoc_contains(pre, id@);
            assert(old(self).view().remove(id@) =~= old(self).view());
        }
    }

    /// Store content under an id, replacing any previous blob with that id.
    pub fn write(&mut self, id: String, data: Vec<u8>)
        requires
            old(self).wf(),
        ensures
            final(self).wf(),
            final(self).view() == old(self).view().insert(id@, data@),
    {
        self.remove(&id);
        proof {
            lemma_assoc_contains(self.files@, id@);
        }
        let ghost mid = self.files@;
        self.files.push(BlobFile { id, data });
        proof {
            assert(self.files@.drop_last() == mid);
            assert(distinct_ids(self.files@)) by {
                lemma_assoc_contains(mid, self.files@.last().id@);
            }
        }
    }
}

/// Removing the entry at `i` removes exactly its key from the map.
proof fn lemma_assoc_remove_at(files: Seq<BlobFile>, i: int)
    requires
        distinct_ids(files),
        0 <= i < files.len(),
    ensures
        assoc_map(files.remove(i)) == assoc_map(files).remove(files[i].id@),
    decreases files.len(),
{
    let k = files[i].id@;
    if i == files.len() - 1 {
        assert(files.remove(i) == files.drop_last());
        assert(distinct_ids(files.drop_last())) by {
            assert(forall|x: int, y: int|
                0 <= x < y < files.drop_last().len() ==> (#[trigger] files.drop_last()[x].id@)
                    == files[x].id@ && (#[trigger] files.drop_last()[y].id@) == files[y].id@);
        }
        assert(forall|x: int| 0 <= x < files.len() - 1 ==> (#[trigger] files[x].id@) != k);
        lemma_assoc_contains(files.drop_last(), k);
        assert(assoc_map(files).remove(k) =~= assoc_map(files.drop_last()));
    } else {
        assert(distinct_ids(files.drop_last())) by {
            assert(forall|x: int, y: int|
                0 <= x < y < files.drop_last().len() ==> (#[trigger] files.drop_last()[x].id@)
                    == files[x].id@ && (#[trigger] files.drop_last()[y].id@) == files[y].id@);
        }
        assert(files.drop_last()[i] == files[i]);
        lemma_assoc_remove_at(files.drop_last(), i);
        assert(files.remove(i).drop_last() == files.drop_last().remove(i));
        assert(files.remove(i).last() == files.last());
        assert(files.last().id@ != k) by {
            assert(files.last() == files[files.len() - 1]);
        }
        assert(assoc_map(files.remove(i)) == assoc_map(files.drop_last().remove(i)).insert(
            files.last().id@,
            files.last().data@,
        ));
        assert(assoc_map(files).remove(k) =~= assoc_map(files.drop_last()).remove(k).insert(
            files.last().id@,
            files.last().data@,
        ));
    }
}

/// One clipboard capture: immutable metadata plus an out-of-line payload.
/// `content` is kept empty in memory; the payload lives in the blob store
/// under `id` and is materialized only by `get_entry_content`.
pub struct ClipboardEntry {
    pub id: String,
    pub timestamp_ms: i64,
    pub content_type: String,
    pub source_path: Option<String>,
    pub content_size: usize,
    pub content: Vec<u8>,
}

/// View of an optional string.
pub open spec fn opt_str_view(o: Option<String>) -> Option<Seq<char>> {
    match o {
        Some(s) => Some(s@),
        None => None,
    }
}

/// Two entries carry the same data, field by field.
pub open spec fn entry_like(a: ClipboardEntry, b: ClipboardEntry) -> bool {
    &&& a.id@ == b.id@
    &&& a.timestamp_ms == b.timestamp_ms
    &&& a.content_type@ == b.content_type@
    &&& opt_str_view(a.source_path) == opt_str_view(b.source_path)
    &&& a.content_size == b.content_size
    &&& a.content@ == b.content@
}

/// Two entries carry the same metadata; the in-memory payload may differ.
pub open spec fn entry_meta_like(a: ClipboardEntry, b: ClipboardEntry) -> bool {
    &&& a.id@ == b.id@
    &&& a.timestamp_ms == b.timestamp_ms
    &&& a.content_type@ == b.content_type@
    &&& opt_str_view(a.source_path) == opt_str_view(b.source_path)
    &&& a.content_size == b.content_size
}

impl Clone for ClipboardEntry {
    fn clone(&self) -> (r: Self)
        ensures
            entry_like(*self, r),
    {
        ClipboardEntry {
            id: self.id.clone(),
            timestamp_ms: self.timestamp_ms,
            content_type: self.content_type.clone(),
            source_path: match &self.source_path {
                Some(s) => Some(s.clone()),
                None => None,
            },
            content_size: self.content_size,
            content: self.content.clone(),
        }
    }
}

/// The bounded ring of entry metadata, most recent first.
pub struct ClipboardHistory {
    pub entries: VecDeque<ClipboardEntry>,
    pub max_entries: usize,
}

impl ClipboardHistory {
    /// Well-formedness against the blob store: entry ids are distinct,
    /// every entry has a blob of exactly its recorded size, and no entry
    /// holds content in memory.
    pub open spec fn wf(self, blobs: BlobStore) -> bool {
        &&& forall|i: int, j: int|
            0 <= i < j < self.entries@.len() ==> (#[trigger] self.entries@[i].id@) != (
            #[trigger] self.entries@[j].id@)
        &&& forall|i: int|
            0 <= i < self.entries@.len() ==> blobs.view().contains_key(
                #[trigger] self.entries@[i].id@,
            )
        &&& forall|i: int|
            0 <= i < self.entries@.len() ==> blobs.view()[#[trigger] self.entries@[i].id@].len()
                == self.entries@[i].content_size
        &&& forall|i: int|
            0 <= i < self.entries@.len() ==> (#[trigger] self.entries@[i].content@).len() == 0
    }

    /// No two adjacent entries hold byte-identical content.
    pub open spec fn adjacent_distinct(self, blobs: BlobStore) -> bool {
        forall|i: int|
            0 <= i < self.entries@.len() - 1 ==> blobs.view()[(#[trigger] self.entries@[i]).id@]
                != blobs.view()[self.entries@[i + 1].id@]
    }

    /// An empty history with the given cap.
    pub fn new(max_entries: usize) -> (r: ClipboardHistory)
        ensures
            r.entries@.len() == 0,
            r.max_entries == max_entries,
    {
        ClipboardHistory { entries: VecDeque::new(), max_entries }
    }

    /// Whether some entry carries this id.
    pub fn contains_entry_id(&self, id: &String) -> (r: bool)
        ensures
            r == exists|i: int|
                0 <= i < self.entries@.len() && (#[trigger] self.entries@[i].id@) == id@,
    {
        let n = self.entries.len();
        let mut i: usize = 0;
        while i < n
            invariant
                0 <= i <= n,
                n == self.entries@.len(),
                forall|j: int| 0 <= j < i ==> (#[trigger] self.entries@[j].id@) != id@,
            decreases n - i,
        {
            if self.entries[i].id == *id {
                return true;
            }
            i = i + 1;
        }
        false
    }

    /// The content of the entry with this id: nothing when no such entry
    /// exists, the stored bytes when its blob is present, and the empty
    /// buffer when the blob has gone missing.
    pub fn get_entry_content(&self, blobs: &BlobStore, id: &String) -> (r: Option<Vec<u8>>)
        requires
            blobs.wf(),
        ensures
            r is Some <==> exists|i: int|
                0 <= i < self.entries@.len() && (#[trigger] self.entries@[i].id@) == id@,
            r is Some ==> r->0@ == (if blobs.view().contains_key(id@) {
                blobs.view()[id@]
            } else {
                Seq::<u8>::empty()
            }),
    {
        if !self.contains_entry_id(id) {
            return None;
        }
        match blobs.read(id) {
            Some(d) => Some(d),
            None => Some(Vec::new()),
        }
    }

    /// The first `limit` entries (all of them without a limit), most
    /// recent first, metadata only.
    pub fn get_entries(&self, limit: Option<usize>) -> (r: Vec<ClipboardEntry>)
        ensures
            r@.len() == (match limit {
                Some(n) => if n < self.entries@.len() {
                    n as int
                } else {
                    self.entries@.len() as int
                },
                None => self.entries@.len() as int,
            }),
            forall|i: int| 0 <= i < r@.len() ==> entry_like(self.entries@[i], #[trigger] r@[i]),
    {
        let n = self.entries.len();
        let count = match limit {
            Some(lim) => if lim < n {
                lim
            } else {
                n
            },
            None => n,
        };
        let mut out: Vec<ClipboardEntry> = Vec::new();
        let mut i: usize = 0;
        while i < count
            invariant
                0 <= i <= count <= n,
                n == self.entries@.len(),
                out@.len() == i,
                forall|j: int|
                    0 <= j < i ==> entry_like(self.entries@[j], #[trigger] out@[j]),
            decreases count - i,
        {
            out.push(self.entries[i].clone());
            i = i + 1;
        }
        out
    }
}

impl Default for ClipboardHistory {
    /// An empty history with the default cap of 100 entries.
    fn default() -> (r: Self)
        ensures
            r.entries@.len() == 0,
            r.max_entries == 100,
    {
        ClipboardHistory { entries: VecDeque::new(), max_entries: 100 }
    }
}


/// The append is skipped: the payload is oversized, the drawn id already
/// names a blob, or the payload duplicates the current head's content.
pub open spec fn spec_add_skipped(
    h: ClipboardHistory,
    b: BlobStore,
    id: Seq<char>,
    content: Seq<u8>,
) -> bool {
    ||| content.len() > MAX_ENTRY_SIZE
    ||| b.view().contains_key(id)
    ||| (h.entries@.len() > 0 && h.entries@[0].content_size == content.len() && b.view()[h.entries@[0].id@] == content)
}

/// The entry at old index `i` is evicted by the cap after a fresh insert:
/// the new entry takes index 0, so old entries from index
/// `max_entries - 1` on fall off the tail.
pub open spec fn spec_evicted_id(h: ClipboardHistory, k: Seq<char>) -> bool {
    exists|i: int|
        0 <= i < h.entries@.len() && i >= h.max_entries - 1 && (#[trigger] h.entries@[i].id@) == k
}

/// What one append does: nothing when skipped; otherwise the new entry is
/// inserted at the head with its content stored out of line, the tail is
/// trimmed to the cap, and evicted entries lose their blobs.
pub open spec fn spec_add_outcome(
    pre_h: ClipboardHistory,
    pre_b: BlobStore,
    post_h: ClipboardHistory,
    post_b: BlobStore,
    id: Seq<char>,
    timestamp_ms: i64,
    content: Seq<u8>,
    content_type: Seq<char>,
    source_path: Option<Seq<char>>,
) -> bool {
    &&& post_h.max_entries == pre_h.max_entries
    &&& if spec_add_skipped(pre_h, pre_b, id, content) {
        post_h.entries@ == pre_h.entries@ && post_b.view() == pre_b.view()
    } else {
        let kept = if pre_h.entries@.len() + 1 <= pre_h.max_entries {
            pre_h.entries@.len() + 1 as int
        } else {
            pre_h.max_entries as int
        };
        &&& post_h.entries@.len() == kept
        &&& (kept > 0 ==> {
            let e = post_h.entries@[0];
            &&& e.id@ == id
            &&& e.timestamp_ms == timestamp_ms
            &&& e.content_type@ == content_type
            &&& opt_str_view(e.source_path) == source_path
            &&& e.content_size == content.len()
            &&& e.content@.len() == 0
        })
        &&& forall|i: int| 1 <= i < kept ==> post_h.entries@[i] == pre_h.entries@[i - 1]
        &&& (kept > 0 ==> post_b.view().contains_key(id) && post_b.view()[id] == content)
        &&& (kept == 0 ==> !post_b.view().contains_key(id))
        &&& forall|k: Seq<char>|
            k != id ==> (#[trigger] post_b.view().contains_key(k) <==> (
            pre_b.view().contains_key(k) && !spec_evicted_id(pre_h, k)))
        &&& forall|k: Seq<char>|
            k != id && post_b.view().contains_key(k) ==> (#[trigger] post_b.view()[k])
                == pre_b.view()[k]
    }
}

impl ClipboardHistory {
    /// Append one capture under a caller-supplied fresh id and timestamp.
    /// Oversized payloads are dropped, a payload identical to the head is
    /// skipped, and after an insert the tail is trimmed to the cap with
    /// the evicted entries' blobs deleted.
    #[verifier::loop_isolation(false)]
    pub fn add_entry_with_id(
        &mut self,
        blobs: &mut BlobStore,
        id: String,
        timestamp_ms: i64,
        content: Vec<u8>,
        content_type: String,
        source_path: Option<String>,
    )
        requires
            old(blobs).wf(),
            old(self).wf(*old(blobs)),
        ensures
            final(blobs).wf(),
            final(self).wf(*final(blobs)),
            spec_add_outcome(
                *old(self),
                *old(blobs),
                *final(self),
                *final(blobs),
                id@,
                timestamp_ms,
                content@,
                content_type@,
                opt_str_view(source_path),
            ),
            old(self).adjacent_distinct(*old(blobs)) ==> final(self).adjacent_distinct(
                *final(blobs),
            ),
    {
        if content.len() > MAX_ENTRY_SIZE {
            return ;
        }
        if blobs.contains(&id) {
            return ;
        }
        if self.entries.len() > 0 {
            if self.entries[0].content_size == content.len() {
                if let Some(prev) = blobs.read(&self.entries[0].id) {
                    if prev == content {
                        proof {
                            assert(prev@ =~= content@);
                        }
                        return ;
                    }
                }
            }
        }
        proof {
            assert(!spec_add_skipped(*old(self), *old(blobs), id@, content@)) by {
                if old(self).entries@.len() > 0 && old(self).entries@[0].content_size
                    == content@.len() && old(blobs).view()[old(self).entries@[0].id@] == content@ {
                    assert(old(blobs).view().contains_key(old(self).entries@[0].id@));
                }
            }
        }
        let size = content.len();
        let ghost old_entries = self.entries@;
        let ghost old_map = blobs.view();
        blobs.write(id.clone(), content);
        let entry = ClipboardEntry {
            id,
            timestamp_ms,
            content_type,
            source_path,
            content_size: size,
            content: Vec::new(),
        };
        self.entries.push_front(entry);
        let ghost base = self.entries@;
        let ghost mid_map = blobs.view();
        proof {
            assert(forall|i: int|
                0 <= i < old_entries.len() ==> (#[trigger] old_entries[i].id@) != base[0].id@) by {
                assert(forall|i: int|
                    0 <= i < old_entries.len() ==> old_map.contains_key(
                        #[trigger] old_entries[i].id@,
                    ));
            }
            assert(forall|i: int, j: int|
                0 <= i < j < base.len() ==> (#[trigger] base[i].id@) != (#[trigger] base[j].id@))
                by {
                assert(forall|i: int| 1 <= i < base.len() ==> base[i] == old_entries[i - 1]);
            }
        }
        while self.entries.len() > self.max_entries
            invariant
                blobs.wf(),
                self.max_entries == old(self).max_entries,
                base == seq![base[0]] + old_entries,
                forall|i: int, j: int|
                    0 <= i < j < base.len() ==> (#[trigger] base[i].id@) != (
                    #[trigger] base[j].id@),
                self.max_entries <= self.entries@.len() || self.entries@.len() == base.len(),
                self.entries@.len() <= base.len(),
                self.entries@ == base.take(self.entries@.len() as int),
                forall|k: Seq<char>|
                    #[trigger] blobs.view().contains_key(k) <==> (mid_map.contains_key(k)
                        && !(exists|i: int|
                        self.entries@.len() <= i < base.len() && (#[trigger] base[i].id@) == k)),
                forall|k: Seq<char>|
                    blobs.view().contains_key(k) ==> (#[trigger] blobs.view()[k]) == mid_map[k],
            decreases self.entries@.len(),
        {
            let ghost cur = self.entries@.len() as int;
            if let Some(old_e) = self.entries.pop_back() {
                blobs.remove(&old_e.id);
                proof {
                    assert(base.take(cur).subrange(0, cur - 1) =~= base.take(cur - 1));
                    assert(self.entries@ == base.take(cur - 1));
                    assert(old_e == base.take(cur)[cur - 1]);
                    assert(old_e == base[cur - 1]);
                    assert forall|k: Seq<char>| #[trigger]
                        blobs.view().contains_key(k) <==> (mid_map.contains_key(k) && !(
                        exists|i: int|
                            cur - 1 <= i < base.len() && (#[trigger] base[i].id@) == k)) by {
                        if k == old_e.id@ {
                            assert(base[cur - 1].id@ == k);
                        } else {
                            if exists|i: int|
                                cur - 1 <= i < base.len() && (#[trigger] base[i].id@) == k {
                                let i = choose|i: int|
                                    cur - 1 <= i < base.len() && (#[trigger] base[i].id@) == k;
                                assert(i >= cur);
                            }
                        }
                    }
                }
            }
        }
        proof {
            let kept = self.entries@.len() as int;
            assert(kept == if base.len() <= old(self).max_entries {
                base.len() as int
            } else {
                old(self).max_entries as int
            });
            assert forall|k: Seq<char>|
                k != base[0].id@ implies (#[trigger] blobs.view().contains_key(k) <==> (
            old_map.contains_key(k) && !spec_evicted_id(*old(self), k))) by {
                if exists|i: int| kept <= i < base.len() && (#[trigger] base[i].id@) == k {
                    let i = choose|i: int| kept <= i < base.len() && (#[trigger] base[i].id@) == k;
                    assert(old_entries[i - 1].id@ == k);
                    assert(i - 1 >= old(self).max_entries - 1);
                    assert(spec_evicted_id(*old(self), k));
                }
                if spec_evicted_id(*old(self), k) {
                    let i = choose|i: int|
                        0 <= i < old_entries.len() && i >= old(self).max_entries - 1 && (
                        #[trigger] old_entries[i].id@) == k;
                    assert(base[i + 1].id@ == k);
                    assert(i + 1 >= kept);
                }
            }
            if kept > 0 {
                assert(blobs.view().contains_key(base[0].id@)) by {
                    if exists|i: int| kept <= i < base.len() && (#[trigger] base[i].id@)
                        == base[0].id@ {
                        let i = choose|i: int|
                            kept <= i < base.len() && (#[trigger] base[i].id@) == base[0].id@;
                        assert(base[i].id@ != base[0].id@);
                    }
                }
            } else {
                assert(base[0].id@ == base[0].id@);
                assert(!blobs.view().contains_key(base[0].id@)) by {
                    assert(0 <= 0 < base.len() && (base[0].id@) == base[0].id@);
                }
            }
            assert(final(self).wf(*final(blobs))) by {
                assert(forall|i: int|
                    0 <= i < self.entries@.len() ==> blobs.view().contains_key(
                        #[trigger] self.entries@[i].id@,
                    )) by {
                    assert forall|i: int|
                        0 <= i < self.entries@.len() implies blobs.view().contains_key(
                        #[trigger] self.entries@[i].id@,
                    ) by {
                        assert(self.entries@[i] == base[i]);
                        if exists|j: int|
                            self.entries@.len() <= j < base.len() && (#[trigger] base[j].id@)
                                == base[i].id@ {
                            let j = choose|j: int|
                                self.entries@.len() <= j < base.len() && (#[trigger] base[j].id@)
                                    == base[i].id@;
                            assert(base[j].id@ != base[i].id@);
                        }
                    }
                }
            }
            assert(old(self).adjacent_distinct(*old(blobs)) ==> final(self).adjacent_distinct(
                *final(blobs),
            )) by {
                if old(self).adjacent_distinct(*old(blobs)) {
                    assert forall|i: int|
                        0 <= i < self.entries@.len() - 1 implies blobs.view()[(
                    #[trigger] self.entries@[i]).id@] != blobs.view()[self.entries@[i + 1].id@] by {
                        assert(self.entries@[i] == base[i]);
                        assert(self.entries@[i + 1] == base[i + 1]);
                        if i == 0 {
                            assert(blobs.view()[base[0].id@] == content@);
                            assert(base[1] == old_entries[0]);
                            assert(blobs.view()[base[1].id@] == old_map[base[1].id@]);
                            assert(old_map[old_entries[0].id@].len()
                                == old_entries[0].content_size);
                        } else {
                            assert(base[i] == old_entries[i - 1]);
                            assert(base[i + 1] == old_entries[i]);
                            assert(blobs.view()[base[i].id@] == old_map[base[i].id@]);
                            assert(blobs.view()[base[i + 1].id@] == old_map[base[i + 1].id@]);
                        }
                    }
                }
            }
        }
    }
}


/// The index of the entry carrying `id`, when one exists.
pub open spec fn spec_index_of_id(entries: Seq<ClipboardEntry>, id: Seq<char>) -> int {
    choose|i: int| 0 <= i < entries.len() && (#[trigger] entries[i].id@) == id
}

/// Relies on `uuid::Uuid::new_v4`: a random version-4 UUID, rendered by
/// its `Display` in the hyphenated form, which is always 36 characters.
#[verifier::external_body]
fn new_entry_id() -> (r: String)
    ensures
        r@.len() == 36,
{
    uuid::Uuid::new_v4().to_string()
}

/// Relies on `chrono::Utc::now`: the current wall-clock time, handed on
/// as whole milliseconds since the Unix epoch. Nothing is assumed of the
/// value; the call aborts only on a system clock before the epoch.
#[verifier::external_body]
fn now_timestamp_ms() -> (r: i64) {
    chrono::Utc::now().timestamp_millis()
}

impl ClipboardHistory {
    /// Append one capture, drawing a fresh random id and the current time.
    pub fn add_entry(
        &mut self,
        blobs: &mut BlobStore,
        content: Vec<u8>,
        content_type: String,
        source_path: Option<String>,
    )
        requires
            old(blobs).wf(),
            old(self).wf(*old(blobs)),
        ensures
            final(blobs).wf(),
            final(self).wf(*final(blobs)),
            final(self).max_entries == old(self).max_entries,
            exists|id: Seq<char>, ts: i64|
                #[trigger] spec_add_outcome(
                    *old(self),
                    *old(blobs),
                    *final(self),
                    *final(blobs),
                    id,
                    ts,
                    content@,
                    content_type@,
                    opt_str_view(source_path),
                ),
            old(self).adjacent_distinct(*old(blobs)) ==> final(self).adjacent_distinct(
                *final(blobs),
            ),
    {
        let id = new_entry_id();
        let ts = now_timestamp_ms();
        let ghost id_view = id@;
        self.add_entry_with_id(blobs, id, ts, content, content_type, source_path);
        proof {
            assert(spec_add_outcome(
                *old(self),
                *old(blobs),
                *self,
                *blobs,
                id_view,
                ts,
                content@,
                content_type@,
                opt_str_view(source_path),
            ));
        }
    }

    /// Remove the entry carrying `id` from the ring and delete its blob;
    /// report whether a removal occurred.
    #[verifier::loop_isolation(false)]
    pub fn remove_entry(&mut self, blobs: &mut BlobStore, id: &String) -> (r: bool)
        requires
            old(blobs).wf(),
            old(self).wf(*old(blobs)),
        ensures
            final(blobs).wf(),
            final(self).wf(*final(blobs)),
            final(self).max_entries == old(self).max_entries,
            r == exists|i: int|
                0 <= i < old(self).entries@.len() && (#[trigger] old(self).entries@[i].id@) == id@,
            !r ==> final(self).entries@ == old(self).entries@ && final(blobs).view() == old(
                blobs,
            ).view(),
            r ==> final(self).entries@ == old(self).entries@.remove(
                spec_index_of_id(old(self).entries@, id@),
            ) && final(blobs).view() == old(blobs).view().remove(id@),
    {
        let n = self.entries.len();
        let mut i: usize = 0;
        while i < n
            invariant
                0 <= i <= n,
                n == self.entries@.len(),
                self.entries@ == old(self).entries@,
                *blobs == *old(blobs),
                self.max_entries == old(self).max_entries,
                forall|j: int| 0 <= j < i ==> (#[trigger] self.entries@[j].id@) != id@,
            decreases n - i,
        {
            if self.entries[i].id == *id {
                let ghost pre = self.entries@;
                self.entries.remove(i);
                blobs.remove(id);
                proof {
                    let w = spec_index_of_id(pre, id@);
                    assert(pre[i as int].id@ == id@);
                    assert(exists|x: int| 0 <= x < pre.len() && (#[trigger] pre[x].id@) == id@);
                    assert(0 <= w < pre.len() && pre[w].id@ == id@);
                    assert(w == i as int);
                    assert forall|x: int|
                        0 <= x < self.entries@.len() implies (#[trigger] self.entries@[x]) == (
                    if x < i as int {
                        pre[x]
                    } else {
                        pre[x + 1]
                    }) by {}
                    assert(final(blobs).wf());
                }
                return true;
            }
            i = i + 1;
        }
        false
    }

    /// Delete every entry's blob and empty the ring. Blobs that belong to
    /// no entry (orphans of an earlier format reset) are left alone.
    pub fn clear(&mut self, blobs: &mut BlobStore)
        requires
            old(blobs).wf(),
            old(self).wf(*old(blobs)),
        ensures
            final(blobs).wf(),
            final(self).wf(*final(blobs)),
            final(self).entries@.len() == 0,
            final(self).max_entries == old(self).max_entries,
            forall|i: int|
                0 <= i < old(self).entries@.len() ==> !final(blobs).view().contains_key(
                    #[trigger] old(self).entries@[i].id@,
                ),
            forall|k: Seq<char>|
                #[trigger] final(blobs).view().contains_key(k) <==> (old(
                    blobs,
                ).view().contains_key(k) && !(exists|i: int|
                    0 <= i < old(self).entries@.len() && (#[trigger] old(self).entries@[i].id@)
                        == k)),
            forall|k: Seq<char>|
                final(blobs).view().contains_key(k) ==> (#[trigger] final(blobs).view()[k]) == old(
                    blobs,
                ).view()[k],
    {
        let ghost pre = self.entries@;
        let ghost pre_map = blobs.view();
        let ghost mut j: int = 0;
        proof {
            assert(pre.skip(0) == pre);
        }
        loop
            invariant
                blobs.wf(),
                self.max_entries == old(self).max_entries,
                0 <= j <= pre.len(),
                self.entries@ == pre.skip(j),
                forall|k: Seq<char>|
                    #[trigger] blobs.view().contains_key(k) <==> (pre_map.contains_key(k) && !(
                    exists|i: int| 0 <= i < j && (#[trigger] pre[i].id@) == k)),
                forall|k: Seq<char>|
                    blobs.view().contains_key(k) ==> (#[trigger] blobs.view()[k]) == pre_map[k],
            ensures
                j == pre.len(),
                self.entries@.len() == 0,
            decreases self.entries@.len(),
        {
            match self.entries.pop_front() {
                Some(e) => {
                    blobs.remove(&e.id);
                    proof {
                        assert(e == pre.skip(j)[0]);
                        assert(e == pre[j]);
                        assert(pre.skip(j).subrange(1, pre.skip(j).len() as int) =~= pre.skip(
                            j + 1,
                        ));
                        assert forall|k: Seq<char>| #[trigger]
                            blobs.view().contains_key(k) <==> (pre_map.contains_key(k) && !(
                        exists|i: int| 0 <= i < j + 1 && (#[trigger] pre[i].id@) == k)) by {
                            if k == e.id@ {
                                assert(pre[j].id@ == k);
                            } else {
                                if exists|i: int| 0 <= i < j + 1 && (#[trigger] pre[i].id@) == k {
                                    let i = choose|i: int|
                                        0 <= i < j + 1 && (#[trigger] pre[i].id@) == k;
                                    assert(i < j);
                                }
                            }
                        }
                        j = j + 1;
                    }
                },
                None => {
                    proof {
                        assert(pre.skip(j).len() == 0);
                        assert(j == pre.len());
                    }
                    break ;
                },
            }
        }
    }

    /// Re-establish the in-memory shape after metadata has been read back
    /// from persistence: set the cap and force every entry's in-memory
    /// content empty (content is only ever materialized from the blobs).
    pub fn sanitize_after_load(&mut self, max_entries: usize)
        ensures
            final(self).max_entries == max_entries,
            final(self).entries@.len() == old(self).entries@.len(),
            forall|i: int|
                0 <= i < old(self).entries@.len() ==> entry_meta_like(
                    old(self).entries@[i],
                    #[trigger] final(self).entries@[i],
                ) && final(self).entries@[i].content@.len() == 0,
    {
        self.max_entries = max_entries;
        let ghost pre = self.entries@;
        let n = self.entries.len();
        let mut rebuilt: VecDeque<ClipboardEntry> = VecDeque::new();
        let mut i: usize = 0;
        while i < n
            invariant
                0 <= i <= n,
                n == self.entries@.len(),
                self.entries@ == pre,
                rebuilt@.len() == i,
                forall|j: int|
                    0 <= j < i ==> entry_meta_like(pre[j], #[trigger] rebuilt@[j]) && rebuilt@[j].content@.len()
                        == 0,
            decreases n - i,
        {
            let e = &self.entries[i];
            let cleaned = ClipboardEntry {
                id: e.id.clone(),
                timestamp_ms: e.timestamp_ms,
                content_type: e.content_type.clone(),
                source_path: match &e.source_path {
                    Some(s) => Some(s.clone()),
                    None => None,
                },
                content_size: e.content_size,
                content: Vec::new(),
            };
            rebuilt.push_back(cleaned);
            i = i + 1;
        }
        self.entries = rebuilt;
    }
}

/// Appending never lifts the ring above its cap: an insert trims to the
/// cap, and a skipped append leaves the ring unchanged.
pub proof fn lemma_append_bounded(
    pre_h: ClipboardHistory,
    pre_b: BlobStore,
    post_h: ClipboardHistory,
    post_b: BlobStore,
    id: Seq<char>,
    timestamp_ms: i64,
    content: Seq<u8>,
    content_type: Seq<char>,
    source_path: Option<Seq<char>>,
)
    requires
        spec_add_outcome(
            pre_h,
            pre_b,
            post_h,
            post_b,
            id,
            timestamp_ms,
            content,
            content_type,
            source_path,
        ),
        pre_h.entries@.len() <= pre_h.max_entries,
    ensures
        post_h.entries@.len() <= post_h.max_entries,
{
}

/// The content round trip: after an append that inserted (the payload
/// was within bounds, the id fresh, and the head not a duplicate) under a
/// cap of at least one, the new head carries the appended id and the blob
/// store returns exactly the appended bytes for it.
pub proof fn lemma_append_content_round_trip(
    pre_h: ClipboardHistory,
    pre_b: BlobStore,
    post_h: ClipboardHistory,
    post_b: BlobStore,
    id: Seq<char>,
    timestamp_ms: i64,
    content: Seq<u8>,
    content_type: Seq<char>,
    source_path: Option<Seq<char>>,
)
    requires
        spec_add_outcome(
            pre_h,
            pre_b,
            post_h,
            post_b,
            id,
            timestamp_ms,
            content,
            content_type,
            source_path,
        ),
        !spec_add_skipped(pre_h, pre_b, id, content),
        pre_h.max_entries >= 1,
    ensures
        post_h.entries@.len() >= 1,
        post_h.entries@[0].id@ == id,
        post_b.view().contains_key(id),
        post_b.view()[id] == content,
{
}

} // verus!
