//! Junk filtering and canonical normalization of clipboard payloads.
//!
//! Display servers sometimes append synthetic trailers (the ASCII triple
//! `0,0` or NUL bytes) to a selection. Normalization strips those trailers
//! so that the same logical payload hashes identically across reads.
use crate::classify::spec_classify;
use crate::classify::classify;
use vstd::prelude::*;

verus! {

/// ASCII whitespace, as the byte-level whitespace test of the standard
/// library defines it: space, tab, line feed, form feed, carriage return.
pub open spec fn is_ws(c: u8) -> bool {
    c == 0x20u8 || c == 0x09u8 || c == 0x0au8 || c == 0x0cu8 || c == 0x0du8
}

/// ASCII whitespace test.
pub fn is_ascii_ws(c: u8) -> (r: bool)
    ensures
        r == is_ws(c),
{
    c == 0x20u8 || c == 0x09u8 || c == 0x0au8 || c == 0x0cu8 || c == 0x0du8
}

/// Keep everything but NUL bytes.
pub open spec fn keep_non_nul(c: u8) -> bool {
    c != 0u8
}

/// Keep everything but NUL bytes and ASCII whitespace.
pub open spec fn keep_non_nul_non_ws(c: u8) -> bool {
    c != 0u8 && !is_ws(c)
}

/// `b` with every NUL byte removed.
pub open spec fn spec_strip_nul(b: Seq<u8>) -> Seq<u8> {
    b.filter(|c: u8| keep_non_nul(c))
}

/// `b` with every NUL byte and every ASCII whitespace byte removed.
pub open spec fn spec_strip_nul_ws(b: Seq<u8>) -> Seq<u8> {
    b.filter(|c: u8| keep_non_nul_non_ws(c))
}

/// `b` without its leading ASCII whitespace.
pub open spec fn spec_trim_front(b: Seq<u8>) -> Seq<u8>
    decreases b.len(),
{
    if b.len() > 0 && is_ws(b[0]) {
        spec_trim_front(b.drop_first())
    } else {
        b
    }
}

/// `b` without its trailing ASCII whitespace.
pub open spec fn spec_trim_back(b: Seq<u8>) -> Seq<u8>
    decreases b.len(),
{
    if b.len() > 0 && is_ws(b.last()) {
        spec_trim_back(b.drop_last())
    } else {
        b
    }
}

/// The cleaned form the filter inspects: NUL bytes removed, then ASCII
/// whitespace trimmed from both ends.
pub open spec fn spec_clean(b: Seq<u8>) -> Seq<u8> {
    spec_trim_back(spec_trim_front(spec_strip_nul(b)))
}

/// `b` starts with the shebang marker `#!`.
pub open spec fn starts_shebang(b: Seq<u8>) -> bool {
    b.len() >= 2 && b[0] == 0x23u8 && b[1] == 0x21u8
}

/// `b` is exactly the ASCII triple `0,0`, a known selection artifact.
pub open spec fn is_artifact_triple(b: Seq<u8>) -> bool {
    b.len() == 3 && b[0] == 0x30u8 && b[1] == 0x2cu8 && b[2] == 0x30u8
}

/// `b` starts with the ASCII prefix `file://`.
pub open spec fn starts_file_uri(b: Seq<u8>) -> bool {
    b.len() >= 7 && b[0] == 0x66u8 && b[1] == 0x69u8 && b[2] == 0x6cu8 && b[3] == 0x65u8 && b[4]
        == 0x3au8 && b[5] == 0x2fu8 && b[6] == 0x2fu8
}

/// `b` is exactly the ASCII bytes `file://`.
pub open spec fn is_file_uri_exact(b: Seq<u8>) -> bool {
    b.len() == 7 && starts_file_uri(b)
}

/// `b` starts with the ASCII prefix `<meta`.
pub open spec fn starts_meta(b: Seq<u8>) -> bool {
    b.len() >= 5 && b[0] == 0x3cu8 && b[1] == 0x6du8 && b[2] == 0x65u8 && b[3] == 0x74u8 && b[4]
        == 0x61u8
}

/// A payload the manager discards instead of storing or caching:
/// empty buffers, the bare `0,0` artifact, browser `<meta` micro-fragments,
/// buffers that are junk once NULs are removed and whitespace trimmed,
/// `file://` with nothing behind it, and classified images under 100
/// bytes, judged on the NUL-stripped buffer with its leading whitespace
/// skipped. Shebang scripts are explicitly allowed.
pub open spec fn spec_should_ignore(b: Seq<u8>) -> bool {
    if b.len() == 0 {
        true
    } else if starts_shebang(b) {
        false
    } else if is_artifact_triple(b) {
        true
    } else if starts_file_uri(b) {
        spec_strip_nul_ws(b).len() == 0 || is_file_uri_exact(spec_strip_nul_ws(b))
    } else if starts_meta(b) {
        true
    } else {
        let c = spec_clean(b);
        let lead = spec_trim_front(spec_strip_nul(b));
        c.len() == 0 || is_artifact_triple(c) || (spec_classify(lead).spec_is_image()
            && lead.len() < 100)
    }
}

/// True when `b` ends with the ASCII sentinel triple `0,0`.
pub open spec fn ends_with_sentinel(b: Seq<u8>) -> bool {
    b.len() >= 3 && b[b.len() - 3] == 0x30u8 && b[b.len() - 2] == 0x2cu8 && b[b.len() - 1]
        == 0x30u8
}

/// True when `b` ends with a NUL byte.
pub open spec fn ends_with_nul(b: Seq<u8>) -> bool {
    b.len() >= 1 && b[b.len() - 1] == 0x00u8
}

/// Canonical form of a clipboard payload: trailing `0,0` sentinel triples
/// and trailing NUL bytes are stripped, repeatedly, until neither remains.
pub open spec fn spec_normalize(b: Seq<u8>) -> Seq<u8>
    decreases b.len(),
{
    if ends_with_sentinel(b) {
        spec_normalize(b.take(b.len() - 3))
    } else if ends_with_nul(b) {
        spec_normalize(b.take(b.len() - 1))
    } else {
        b
    }
}

/// The canonical form carries no trailer, so normalizing twice is the
/// same as normalizing once.
pub proof fn lemma_normalize_idempotent(b: Seq<u8>)
    ensures
        spec_normalize(spec_normalize(b)) == spec_normalize(b),
    decreases b.len(),
{
    if ends_with_sentinel(b) {
        lemma_normalize_idempotent(b.take(b.len() - 3));
    } else if ends_with_nul(b) {
        lemma_normalize_idempotent(b.take(b.len() - 1));
    }
}

/// Dropping a trailing ASCII byte from a well-formed UTF-8 buffer keeps
/// it well-formed: an ASCII byte is never part of a longer encoding.
proof fn lemma_valid_utf8_drop_last_ascii(b: Seq<u8>, i: int)
    requires
        0 <= i <= b.len(),
        b.len() > 0,
        b.last() < 0x80u8,
        crate::classify::spec_valid_utf8_from(b, i),
    ensures
        crate::classify::spec_valid_utf8_from(b.drop_last(), i),
    decreases b.len() - i,
{
    if i >= b.len() - 1 {
    } else {
        let c = b[i];
        if c < 0x80u8 {
            lemma_valid_utf8_drop_last_ascii(b, i + 1);
        } else if c < 0xe0u8 {
            lemma_valid_utf8_drop_last_ascii(b, i + 2);
        } else if c < 0xf0u8 {
            lemma_valid_utf8_drop_last_ascii(b, i + 3);
        } else {
            lemma_valid_utf8_drop_last_ascii(b, i + 4);
        }
    }
}

/// Normalization strips only ASCII bytes, so it keeps UTF-8 validity.
pub proof fn lemma_normalize_preserves_valid_utf8(b: Seq<u8>)
    requires
        crate::classify::spec_valid_utf8(b),
    ensures
        crate::classify::spec_valid_utf8(spec_normalize(b)),
    decreases b.len(),
{
    let l = b.len() as int;
    if ends_with_sentinel(b) {
        lemma_valid_utf8_drop_last_ascii(b, 0);
        let b1 = b.drop_last();
        lemma_valid_utf8_drop_last_ascii(b1, 0);
        let b2 = b1.drop_last();
        lemma_valid_utf8_drop_last_ascii(b2, 0);
        assert(b2.drop_last() == b.take(l - 3));
        lemma_normalize_preserves_valid_utf8(b.take(l - 3));
    } else if ends_with_nul(b) {
        lemma_valid_utf8_drop_last_ascii(b, 0);
        assert(b.drop_last() == b.take(l - 1));
        lemma_normalize_preserves_valid_utf8(b.take(l - 1));
    }
}

/// Classification commutes with normalization on buffers that carry no
/// trailing sentinel, where normalization is the identity.
pub proof fn lemma_classify_normalize(b: Seq<u8>)
    requires
        spec_normalize(b) == b,
    ensures
        spec_classify(spec_normalize(b)) == spec_classify(b),
{
}

/// A buffer classified as text stays text after normalization: magic-byte
/// prefixes are decided by bytes normalization keeps, and stripping
/// trailing ASCII preserves UTF-8 validity.
pub proof fn lemma_classify_text_preserved(b: Seq<u8>)
    requires
        spec_classify(b) == crate::classify::ContentType::Text,
    ensures
        spec_classify(spec_normalize(b)) == crate::classify::ContentType::Text,
{
    let nb = spec_normalize(b);
    lemma_normalize_prefix(b);
    if b.len() < 4 {
        assert(nb.len() < 4);
    } else if nb.len() < 4 {
    } else {
        assert forall|j: int| 0 <= j < nb.len() implies nb[j] == b[j] by {
            assert(nb[j] == b.take(nb.len() as int)[j]);
        }
        lemma_normalize_preserves_valid_utf8(b);
    }
}

/// The canonical form is a prefix of the input.
pub proof fn lemma_normalize_prefix(b: Seq<u8>)
    ensures
        spec_normalize(b).len() <= b.len(),
        spec_normalize(b) == b.take(spec_normalize(b).len() as int),
    decreases b.len(),
{
    if ends_with_sentinel(b) {
        lemma_normalize_prefix(b.take(b.len() - 3));
        assert(b.take(b.len() - 3).take(spec_normalize(b).len() as int) == b.take(
            spec_normalize(b).len() as int,
        ));
    } else if ends_with_nul(b) {
        lemma_normalize_prefix(b.take(b.len() - 1));
        assert(b.take(b.len() - 1).take(spec_normalize(b).len() as int) == b.take(
            spec_normalize(b).len() as int,
        ));
    } else {
        assert(b == b.take(b.len() as int));
    }
}

/// Remove every NUL byte.
pub fn strip_nul_bytes(b: &[u8]) -> (r: Vec<u8>)
    ensures
        r@ == spec_strip_nul(b@),
{
    let n = b.len();
    let mut acc: Vec<u8> = Vec::new();
    let mut i: usize = 0;
    while i < n
        invariant
            0 <= i <= n,
            n == b@.len(),
            acc@ == b@.take(i as int).filter(|c: u8| keep_non_nul(c)),
        decreases n - i,
    {
        let c = b[i];
        proof {
            reveal(Seq::filter);
            assert(b@.take(i + 1).drop_last() == b@.take(i as int));
            assert(b@.take(i + 1).last() == b@[i as int]);
        }
        if c != 0u8 {
            acc.push(c);
        }
        i = i + 1;
    }
    proof {
        assert(b@.take(n as int) == b@);
    }
    acc
}

/// Remove every NUL byte and every ASCII whitespace byte.
fn strip_nul_ws_bytes(b: &[u8]) -> (r: Vec<u8>)
    ensures
        r@ == spec_strip_nul_ws(b@),
{
    let n = b.len();
    let mut acc: Vec<u8> = Vec::new();
    let mut i: usize = 0;
    while i < n
        invariant
            0 <= i <= n,
            n == b@.len(),
            acc@ == b@.take(i as int).filter(|c: u8| keep_non_nul_non_ws(c)),
        decreases n - i,
    {
        let c = b[i];
        proof {
            reveal(Seq::filter);
            assert(b@.take(i + 1).drop_last() == b@.take(i as int));
            assert(b@.take(i + 1).last() == b@[i as int]);
        }
        if c != 0u8 && !is_ascii_ws(c) {
            acc.push(c);
        }
        i = i + 1;
    }
    proof {
        assert(b@.take(n as int) == b@);
    }
    acc
}

/// A filter that keeps every element leaves the sequence unchanged.
proof fn lemma_filter_all_kept(s: Seq<u8>, pred: spec_fn(u8) -> bool)
    requires
        forall|j: int| 0 <= j < s.len() ==> pred(#[trigger] s[j]),
    ensures
        s.filter(pred) == s,
    decreases s.len(),
{
    reveal(Seq::filter);
    if s.len() > 0 {
        lemma_filter_all_kept(s.drop_last(), pred);
        assert(s.drop_last().push(s.last()) == s);
    }
}

/// A filter that keeps no element empties the sequence.
proof fn lemma_filter_none_kept(s: Seq<u8>, pred: spec_fn(u8) -> bool)
    requires
        forall|j: int| 0 <= j < s.len() ==> !pred(#[trigger] s[j]),
    ensures
        s.filter(pred) == Seq::<u8>::empty(),
    decreases s.len(),
{
    reveal(Seq::filter);
    if s.len() > 0 {
        lemma_filter_none_kept(s.drop_last(), pred);
    }
}

/// Length of the whitespace run at the front.
spec fn ws_prefix_len(s: Seq<u8>) -> int
    decreases s.len(),
{
    if s.len() > 0 && is_ws(s[0]) {
        1 + ws_prefix_len(s.drop_first())
    } else {
        0
    }
}

/// Start of the whitespace run at the back.
spec fn ws_suffix_start(s: Seq<u8>) -> int
    decreases s.len(),
{
    if s.len() > 0 && is_ws(s.last()) {
        ws_suffix_start(s.drop_last())
    } else {
        s.len() as int
    }
}

/// `spec_trim_front` skips exactly the leading whitespace run.
proof fn lemma_ws_prefix(s: Seq<u8>)
    ensures
        0 <= ws_prefix_len(s) <= s.len(),
        forall|j: int| 0 <= j < ws_prefix_len(s) ==> is_ws(#[trigger] s[j]),
        ws_prefix_len(s) == s.len() || !is_ws(s[ws_prefix_len(s)]),
        spec_trim_front(s) == s.skip(ws_prefix_len(s)),
    decreases s.len(),
{
    if s.len() > 0 && is_ws(s[0]) {
        lemma_ws_prefix(s.drop_first());
        assert(s.drop_first().skip(ws_prefix_len(s) - 1) == s.skip(ws_prefix_len(s)));
        assert forall|j: int| 0 <= j < ws_prefix_len(s) implies is_ws(#[trigger] s[j]) by {
            if j > 0 {
                assert(s[j] == s.drop_first()[j - 1]);
            }
        }
    } else {
        assert(s.skip(0) == s);
    }
}

/// `spec_trim_back` cuts exactly before the trailing whitespace run.
proof fn lemma_ws_suffix(s: Seq<u8>)
    ensures
        0 <= ws_suffix_start(s) <= s.len(),
        forall|j: int| ws_suffix_start(s) <= j < s.len() ==> is_ws(#[trigger] s[j]),
        ws_suffix_start(s) == 0 || !is_ws(s[ws_suffix_start(s) - 1]),
        spec_trim_back(s) == s.take(ws_suffix_start(s)),
    decreases s.len(),
{
    if s.len() > 0 && is_ws(s.last()) {
        lemma_ws_suffix(s.drop_last());
        assert(s.drop_last().take(ws_suffix_start(s)) == s.take(ws_suffix_start(s)));
        assert forall|j: int| ws_suffix_start(s) <= j < s.len() implies is_ws(
            #[trigger] s[j],
        ) by {
            if j < s.len() - 1 {
                assert(s[j] == s.drop_last()[j]);
            }
        }
    } else {
        assert(s.take(s.len() as int) == s);
    }
}

/// A buffer whose first byte survives cleaning keeps that byte in front
/// of its cleaned form.
proof fn lemma_clean_first_byte(b: Seq<u8>)
    requires
        b.len() > 0,
        b[0] != 0u8,
        !is_ws(b[0]),
    ensures
        spec_clean(b).len() > 0,
        spec_clean(b)[0] == b[0],
{
    let s = spec_strip_nul(b);
    assert(b == seq![b[0]] + b.skip(1));
    Seq::filter_distributes_over_add(seq![b[0]], b.skip(1), |c: u8| keep_non_nul(c));
    lemma_filter_all_kept(seq![b[0]], |c: u8| keep_non_nul(c));
    assert(s[0] == b[0]);
    lemma_ws_prefix(s);
    assert(ws_prefix_len(s) == 0);
    assert(spec_trim_front(s) == s.skip(0));
    assert(s.skip(0) == s);
    lemma_ws_suffix(s);
    let e = ws_suffix_start(s);
    if e == 0 {
        assert(is_ws(s[0]));
        assert(false);
    }
    assert(spec_clean(b) == s.take(e));
    assert(spec_clean(b)[0] == b[0]);
}

/// Dropping leading whitespace is the same as skipping past it.
proof fn lemma_trim_front_skip(s: Seq<u8>, k: int)
    requires
        0 <= k <= s.len(),
        forall|j: int| 0 <= j < k ==> is_ws(#[trigger] s[j]),
        k == s.len() || !is_ws(s[k]),
    ensures
        spec_trim_front(s) == s.skip(k),
    decreases k,
{
    if k == 0 {
        assert(s.skip(0) == s);
    } else {
        lemma_trim_front_skip(s.drop_first(), k - 1);
        assert(s.drop_first().skip(k - 1) == s.skip(k));
    }
}

/// Dropping trailing whitespace is the same as cutting before it.
proof fn lemma_trim_back_take(s: Seq<u8>, e: int)
    requires
        0 <= e <= s.len(),
        forall|j: int| e <= j < s.len() ==> is_ws(#[trigger] s[j]),
        e == 0 || !is_ws(s[e - 1]),
    ensures
        spec_trim_back(s) == s.take(e),
    decreases s.len() - e,
{
    if e == s.len() {
        assert(s.take(e) == s);
    } else {
        lemma_trim_back_take(s.drop_last(), e);
        assert(s.drop_last().take(e) == s.take(e));
    }
}

/// The cleaned form of `b`: NUL bytes removed, ASCII whitespace trimmed
/// from both ends.
pub fn clean_bytes(b: &[u8]) -> (r: Vec<u8>)
    ensures
        r@ == spec_clean(b@),
{
    let stripped = strip_nul_bytes(b);
    let n = stripped.len();
    let mut start: usize = 0;
    while start < n && is_ascii_ws(stripped[start])
        invariant
            0 <= start <= n,
            n == stripped@.len(),
            forall|j: int| 0 <= j < start ==> is_ws(#[trigger] stripped@[j]),
        decreases n - start,
    {
        start = start + 1;
    }
    let mut end: usize = n;
    while end > start && is_ascii_ws(stripped[end - 1])
        invariant
            start <= end <= n,
            n == stripped@.len(),
            forall|j: int| end <= j < n ==> is_ws(#[trigger] stripped@[j]),
        decreases end,
    {
        end = end - 1;
    }
    proof {
        lemma_trim_front_skip(stripped@, start as int);
        lemma_trim_back_take(stripped@.skip(start as int), end - start);
        assert(stripped@.skip(start as int).take(end - start) == stripped@.subrange(
            start as int,
            end as int,
        ));
    }
    let r = vstd::slice::slice_to_vec(
        vstd::slice::slice_subrange(stripped.as_slice(), start, end),
    );
    r
}

/// Decide whether a clipboard payload is junk the manager must discard.
pub fn should_ignore_bytes(bytes: &[u8]) -> (r: bool)
    ensures
        r == spec_should_ignore(bytes@),
{
    let n = bytes.len();
    if n == 0 {
        return true;
    }
    if n >= 2 && bytes[0] == 0x23u8 && bytes[1] == 0x21u8 {
        return false;
    }
    if n == 3 && bytes[0] == 0x30u8 && bytes[1] == 0x2cu8 && bytes[2] == 0x30u8 {
        return true;
    }
    if n >= 7 && bytes[0] == 0x66u8 && bytes[1] == 0x69u8 && bytes[2] == 0x6cu8 && bytes[3]
        == 0x65u8 && bytes[4] == 0x3au8 && bytes[5] == 0x2fu8 && bytes[6] == 0x2fu8 {
        let sal = strip_nul_ws_bytes(bytes);
        let m = sal.len();
        if m == 0 {
            return true;
        }
        return m == 7 && sal[0] == 0x66u8 && sal[1] == 0x69u8 && sal[2] == 0x6cu8 && sal[3]
            == 0x65u8 && sal[4] == 0x3au8 && sal[5] == 0x2fu8 && sal[6] == 0x2fu8;
    }
    if n >= 5 && bytes[0] == 0x3cu8 && bytes[1] == 0x6du8 && bytes[2] == 0x65u8 && bytes[3]
        == 0x74u8 && bytes[4] == 0x61u8 {
        return true;
    }
    let stripped = strip_nul_bytes(bytes);
    let sn = stripped.len();
    let mut start: usize = 0;
    while start < sn && is_ascii_ws(stripped[start])
        invariant
            0 <= start <= sn,
            sn == stripped@.len(),
            forall|j: int| 0 <= j < start ==> is_ws(#[trigger] stripped@[j]),
        decreases sn - start,
    {
        start = start + 1;
    }
    let mut end: usize = sn;
    while end > start && is_ascii_ws(stripped[end - 1])
        invariant
            start <= end <= sn,
            sn == stripped@.len(),
            forall|j: int| end <= j < sn ==> is_ws(#[trigger] stripped@[j]),
        decreases end,
    {
        end = end - 1;
    }
    proof {
        lemma_trim_front_skip(stripped@, start as int);
        lemma_trim_back_take(stripped@.skip(start as int), end - start);
        assert(stripped@.skip(start as int).take(end - start) == stripped@.subrange(
            start as int,
            end as int,
        ));
    }
    if end == start {
        return true;
    }
    if end - start == 3 && stripped[start] == 0x30u8 && stripped[start + 1] == 0x2cu8
        && stripped[start + 2] == 0x30u8 {
        proof {
            assert(spec_clean(bytes@) == stripped@.subrange(start as int, end as int));
            assert(is_artifact_triple(spec_clean(bytes@)));
        }
        return true;
    }
    let lead = vstd::slice::slice_subrange(stripped.as_slice(), start, sn);
    proof {
        assert(lead@ == stripped@.skip(start as int)) by {
            assert(stripped@.subrange(start as int, sn as int) =~= stripped@.skip(start as int));
        }
    }
    let ct = classify(lead);
    if ct.is_image() && lead.len() < 100 {
        return true;
    }
    proof {
        assert(spec_clean(bytes@) == stripped@.subrange(start as int, end as int));
        assert(!is_artifact_triple(spec_clean(bytes@)));
    }
    false
}

/// Normalization of a `file://` buffer whose tail is all NUL or
/// whitespace keeps the prefix and the shape of the tail.
proof fn lemma_normalize_file_uri(b: Seq<u8>)
    requires
        starts_file_uri(b),
        forall|j: int| 7 <= j < b.len() ==> (b[j] == 0u8 || is_ws(#[trigger] b[j])),
    ensures
        starts_file_uri(spec_normalize(b)),
        forall|j: int|
            7 <= j < spec_normalize(b).len() ==> (spec_normalize(b)[j] == 0u8 || is_ws(
                #[trigger] spec_normalize(b)[j],
            )),
    decreases b.len(),
{
    if ends_with_sentinel(b) {
        let l = b.len() as int;
        assert(b[l - 1] == 0x30u8);
        if l - 1 >= 7 {
            assert(b[l - 1] == 0u8 || is_ws(b[l - 1]));
            assert(false);
        } else {
            assert(b[6] == 0x2fu8);
            assert(false);
        }
    } else if ends_with_nul(b) {
        let l = b.len() as int;
        assert(b[6] == 0x2fu8);
        assert(l >= 8);
        lemma_normalize_file_uri(b.take(l - 1));
    }
}

/// Normalization keeps a `<meta` prefix.
proof fn lemma_normalize_meta(b: Seq<u8>)
    requires
        starts_meta(b),
    ensures
        starts_meta(spec_normalize(b)),
    decreases b.len(),
{
    let l = b.len() as int;
    if ends_with_sentinel(b) {
        if l - 3 < 5 {
            assert(b[l - 3] == 0x30u8);
            assert(false);
        } else {
            lemma_normalize_meta(b.take(l - 3));
        }
    } else if ends_with_nul(b) {
        if l == 5 {
            assert(b[4] == 0x61u8);
            assert(false);
        } else {
            lemma_normalize_meta(b.take(l - 1));
        }
    }
}

/// Normalization keeps a cleaned form that is empty or the bare `0,0`
/// artifact empty-or-artifact.
proof fn lemma_normalize_clean_junk(b: Seq<u8>)
    requires
        spec_clean(b).len() == 0 || is_artifact_triple(spec_clean(b)),
    ensures
        spec_clean(spec_normalize(b)).len() == 0 || is_artifact_triple(
            spec_clean(spec_normalize(b)),
        ),
    decreases b.len(),
{
    let l = b.len() as int;
    let keep = |c: u8| keep_non_nul(c);
    if ends_with_sentinel(b) {
        let bp = b.take(l - 3);
        let s = spec_strip_nul(b);
        let triple = seq![0x30u8, 0x2cu8, 0x30u8];
        assert(b == bp + triple);
        Seq::filter_distributes_over_add(bp, triple, keep);
        lemma_filter_all_kept(triple, keep);
        assert(s == spec_strip_nul(bp) + triple);
        assert(s.len() >= 3);
        assert(s.last() == 0x30u8);
        lemma_ws_prefix(s);
        let k = ws_prefix_len(s);
        lemma_ws_suffix(s.skip(k));
        let t = s.skip(k);
        if t.len() == 0 {
            // then every byte of s is whitespace, but s ends in `0`
            assert(is_ws(s[s.len() - 1]));
            assert(false);
        }
        assert(t.last() == s.last());
        assert(ws_suffix_start(t) == t.len()) by {
            if ws_suffix_start(t) < t.len() {
                assert(is_ws(t[t.len() - 1]));
            }
        }
        assert(spec_clean(b) == t.take(t.len() as int));
        assert(t.take(t.len() as int) == t);
        // clean(b) == t is nonempty, so by the premise it is the artifact
        assert(is_artifact_triple(t));
        assert(s.len() == k + 3);
        // the nul-stripped prefix is exactly the leading whitespace run
        assert(spec_strip_nul(bp) == s.take(k)) by {
            assert(s.take(k) + triple == s) by {
                assert(t == triple);
                assert(s.take(k) + s.skip(k) == s);
            }
            assert(spec_strip_nul(bp) + triple == s);
            assert(spec_strip_nul(bp) == s.take(k));
        }
        assert(forall|j: int|
            0 <= j < spec_strip_nul(bp).len() ==> is_ws(#[trigger] spec_strip_nul(bp)[j]));
        lemma_ws_prefix(spec_strip_nul(bp));
        assert(ws_prefix_len(spec_strip_nul(bp)) == k) by {
            if ws_prefix_len(spec_strip_nul(bp)) < k {
                assert(!is_ws(spec_strip_nul(bp)[ws_prefix_len(spec_strip_nul(bp))]));
            }
        }
        assert(spec_trim_front(spec_strip_nul(bp)) == spec_strip_nul(bp).skip(k));
        assert(spec_strip_nul(bp).skip(k).len() == 0);
        assert(spec_strip_nul(bp).skip(k) == Seq::<u8>::empty());
        assert(spec_clean(bp).len() == 0);
        lemma_normalize_clean_junk(bp);
    } else if ends_with_nul(b) {
        let bp = b.take(l - 1);
        assert(b == bp + seq![0u8]);
        Seq::filter_distributes_over_add(bp, seq![0u8], keep);
        lemma_filter_none_kept(seq![0u8], keep);
        assert(spec_strip_nul(b) == spec_strip_nul(bp) + Seq::<u8>::empty());
        assert(spec_strip_nul(b) == spec_strip_nul(bp));
        assert(spec_clean(bp) == spec_clean(b));
        lemma_normalize_clean_junk(bp);
    }
}

/// Filter stability: a payload the filter rejects is still rejected after
/// normalization, except when the rejection came from the small-image rule
/// and normalization strips bytes off the image.
pub open spec fn ignored_as_small_image(b: Seq<u8>) -> bool {
    &&& b.len() != 0
    &&& !starts_shebang(b)
    &&& !is_artifact_triple(b)
    &&& !starts_file_uri(b)
    &&& !starts_meta(b)
    &&& spec_clean(b).len() != 0
    &&& !is_artifact_triple(spec_clean(b))
}

/// Filter stability: junk stays junk under normalization. The one family
/// of inputs left out: buffers rejected only as undersized images, where
/// stripping a trailing sentinel can cut the image below the magic-byte
/// threshold and turn it into accepted text.
pub proof fn lemma_should_ignore_stable(b: Seq<u8>)
    requires
        spec_should_ignore(b),
        spec_normalize(b) == b || !ignored_as_small_image(b),
    ensures
        spec_should_ignore(spec_normalize(b)),
{
    if spec_normalize(b) == b {
    } else if b.len() == 0 {
        assert(spec_normalize(b) == b);
    } else if starts_shebang(b) {
        assert(!spec_should_ignore(b));
    } else if is_artifact_triple(b) {
        assert(ends_with_sentinel(b));
        assert(b.take(0) == Seq::<u8>::empty());
        assert(spec_normalize(b) == spec_normalize(Seq::<u8>::empty()));
        assert(spec_normalize(b).len() == 0);
    } else if starts_file_uri(b) {
        let sal = spec_strip_nul_ws(b);
        let keep = |c: u8| keep_non_nul_non_ws(c);
        let head = b.take(7);
        assert(b == head + b.skip(7));
        Seq::filter_distributes_over_add(head, b.skip(7), keep);
        lemma_filter_all_kept(head, keep);
        assert(sal == head + spec_strip_nul_ws(b.skip(7)));
        assert(sal.len() >= 7);
        assert(is_file_uri_exact(sal));
        assert(spec_strip_nul_ws(b.skip(7)).len() == 0);
        assert forall|j: int| 7 <= j < b.len() implies (b[j] == 0u8 || is_ws(#[trigger] b[j])) by {
            let rest = b.skip(7);
            assert(rest[j - 7] == b[j]);
            if b[j] != 0u8 && !is_ws(b[j]) {
                Seq::lemma_filter_contains(rest, keep, j - 7);
            }
        }
        lemma_normalize_file_uri(b);
        let nb = spec_normalize(b);
        assert(nb == head + nb.skip(7)) by {
            lemma_normalize_prefix(b);
            assert(nb.take(7) == head) by {
                assert forall|j: int| 0 <= j < 7 implies nb.take(7)[j] == head[j] by {
                    assert(nb[j] == b.take(nb.len() as int)[j]);
                }
                assert(nb.take(7) =~= head);
            }
            assert(nb.take(7) + nb.skip(7) == nb);
        }
        Seq::filter_distributes_over_add(head, nb.skip(7), keep);
        lemma_filter_all_kept(head, keep);
        assert forall|j: int| 0 <= j < nb.skip(7).len() implies !keep(#[trigger] nb.skip(7)[j]) by {
            assert(nb.skip(7)[j] == nb[j + 7]);
        }
        lemma_filter_none_kept(nb.skip(7), keep);
        assert(spec_strip_nul_ws(nb) == head + Seq::<u8>::empty());
        assert(spec_strip_nul_ws(nb).len() == 7);
        assert(is_file_uri_exact(spec_strip_nul_ws(nb)));
        assert(!starts_shebang(nb));
        assert(!is_artifact_triple(nb));
        assert(spec_should_ignore(nb));
    } else if starts_meta(b) {
        lemma_normalize_meta(b);
        let nb = spec_normalize(b);
        assert(!starts_shebang(nb));
        assert(!is_artifact_triple(nb));
        assert(!starts_file_uri(nb));
        assert(spec_should_ignore(nb));
    } else {
        // the general branch; the small-image reason is excluded, so the
        // cleaned form is empty or the bare artifact
        assert(spec_clean(b).len() == 0 || is_artifact_triple(spec_clean(b)));
        lemma_normalize_clean_junk(b);
        let nb = spec_normalize(b);
        if nb.len() == 0 {
        } else if is_artifact_triple(nb) {
        } else if starts_shebang(nb) {
            lemma_clean_first_byte(nb);
            assert(spec_clean(nb)[0] == 0x23u8);
            assert(false);
        } else if starts_file_uri(nb) {
            lemma_clean_first_byte(nb);
            assert(spec_clean(nb)[0] == 0x66u8);
            assert(false);
        } else if starts_meta(nb) {
        } else {
            assert(spec_should_ignore(nb));
        }
    }
}

/// Strip trailing `0,0` sentinel triples and trailing NUL bytes.
pub fn normalize_clipboard_bytes(bytes: &[u8]) -> (r: Vec<u8>)
    ensures
        r@ == spec_normalize(bytes@),
{
    let mut trimmed: Vec<u8> = vstd::slice::slice_to_vec(bytes);
    loop
        invariant
            spec_normalize(trimmed@) == spec_normalize(bytes@),
        ensures
            !ends_with_sentinel(trimmed@),
            !ends_with_nul(trimmed@),
            spec_normalize(trimmed@) == spec_normalize(bytes@),
        decreases trimmed@.len(),
    {
        let n = trimmed.len();
        if n >= 3 && trimmed[n - 3] == 0x30u8 && trimmed[n - 2] == 0x2cu8 && trimmed[n - 1]
            == 0x30u8 {
            trimmed.truncate(n - 3);
        } else if n >= 1 && trimmed[n - 1] == 0x00u8 {
            trimmed.pop();
        } else {
            break ;
        }
    }
    trimmed
}

} // verus!
