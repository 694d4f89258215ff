//! Text operations on symbol names, stated over sequences of characters.

use vstd::prelude::*;

verus! {

/// Whether `text` begins with `prefix`, character by character.
pub fn starts_with(text: &str, prefix: &str) -> (hit: bool)
    ensures
        hit == prefix@.is_prefix_of(text@),
{
    let n: usize = prefix.unicode_len();
    let m: usize = text.unicode_len();
    if n > m {
        return false;
    }
    let mut i: usize = 0;
    while i < n
        invariant
            n == prefix@.len(),
            m == text@.len(),
            n <= m,
            i <= n,
            forall|k: int| 0 <= k < i ==> prefix@[k] == text@[k],
        decreases n - i,
    {
        if prefix.get_char(i) != text.get_char(i) {
            assert(text@.subrange(0, n as int)[i as int] != prefix@[i as int]);
            return false;
        }
        i += 1;
    }
    assert(prefix@ =~= text@.subrange(0, n as int));
    true
}

/// Whether the two texts are the same.
pub fn same_text(a: &str, b: &str) -> (same: bool)
    ensures
        same == (a@ == b@),
{
    if a.unicode_len() != b.unicode_len() {
        return false;
    }
    let same = starts_with(a, b);
    proof {
        if same {
            assert(a@.subrange(0, b@.len() as int) =~= a@);
        }
    }
    same
}

/// The reserved ending of the name of a signature-hash marker.
pub open spec fn marker_suffix() -> Seq<char> {
    "__reloady_sighash"@
}

/// The reserved ending of the name of a signature-hash marker, as a string.
pub fn marker_suffix_str() -> (suffix: &'static str)
    ensures
        suffix@ == marker_suffix(),
{
    "__reloady_sighash"
}

/// Whether the path separator `::` stands at position `i` of `s`.
pub open spec fn separator_at(s: Seq<char>, i: int) -> bool {
    0 <= i && i + 1 < s.len() && s[i] == ':' && s[i + 1] == ':'
}

/// The segments of `s` from a segment that began at `start`, read from `pos`
/// on: separators are taken leftmost first and do not overlap.
pub open spec fn split_from(s: Seq<char>, start: int, pos: int) -> Seq<Seq<char>>
    recommends
        0 <= start <= pos <= s.len(),
    decreases s.len() - pos,
{
    if pos < 0 || pos >= s.len() {
        seq![s.subrange(start, s.len() as int)]
    } else if separator_at(s, pos) {
        seq![s.subrange(start, pos)] + split_from(s, pos + 2, pos + 2)
    } else {
        split_from(s, start, pos + 1)
    }
}

/// The segments of a path: what lies between its `::` separators.
pub open spec fn path_segments(s: Seq<char>) -> Seq<Seq<char>> {
    split_from(s, 0, 0)
}

/// Whether one of `segments` ends with the marker suffix.
pub open spec fn any_marked(segments: Seq<Seq<char>>) -> bool {
    exists|k: int|
        0 <= k < segments.len() && marker_suffix().is_suffix_of(#[trigger] segments[k])
}

/// Whether `s` names a signature-hash marker: one of its path segments ends
/// with the marker suffix.
pub open spec fn is_marker_path(s: Seq<char>) -> bool {
    any_marked(path_segments(s))
}

/// A segment list is marked when its head or its tail is.
pub proof fn lemma_any_marked_cons(head: Seq<char>, tail: Seq<Seq<char>>)
    ensures
        any_marked(seq![head] + tail) == (marker_suffix().is_suffix_of(head) || any_marked(tail)),
{
    let all = seq![head] + tail;
    if marker_suffix().is_suffix_of(head) {
        assert(all[0] == head);
    }
    if any_marked(tail) {
        let k = choose|k: int|
            0 <= k < tail.len() && marker_suffix().is_suffix_of(#[trigger] tail[k]);
        assert(all[k + 1] == tail[k]);
    }
    if any_marked(all) {
        let k = choose|k: int|
            0 <= k < all.len() && marker_suffix().is_suffix_of(#[trigger] all[k]);
        if k > 0 {
            assert(tail[k - 1] == all[k]);
        }
    }
}

/// Whether the characters of `name` from `start` up to `end` end with the
/// marker suffix.
pub fn ends_with_marker(name: &str, start: usize, end: usize) -> (hit: bool)
    requires
        start <= end <= name@.len(),
    ensures
        hit == marker_suffix().is_suffix_of(name@.subrange(start as int, end as int)),
{
    let suffix = marker_suffix_str();
    let k: usize = suffix.unicode_len();
    if end - start < k {
        return false;
    }
    let base: usize = end - k;
    let ghost segment = name@.subrange(start as int, end as int);
    let mut j: usize = 0;
    while j < k
        invariant
            k == suffix@.len(),
            suffix@ == marker_suffix(),
            start <= base,
            base + k == end,
            end <= name@.len(),
            j <= k,
            segment == name@.subrange(start as int, end as int),
            forall|t: int| 0 <= t < j ==> suffix@[t] == name@[base + t],
        decreases k - j,
    {
        if suffix.get_char(j) != name.get_char(base + j) {
            assert(segment.subrange(segment.len() - k, segment.len() as int)[j as int]
                == name@[base + j]);
            return false;
        }
        j += 1;
    }
    assert(suffix@ =~= segment.subrange(segment.len() - k, segment.len() as int));
    true
}

/// Whether `name` is the path of a signature-hash marker.
pub fn has_marker_segment(name: &str) -> (hit: bool)
    ensures
        hit == is_marker_path(name@),
{
    let n: usize = name.unicode_len();
    let mut start: usize = 0;
    let mut pos: usize = 0;
    while pos < n
        invariant
            n == name@.len(),
            start <= pos <= n,
            is_marker_path(name@) == any_marked(split_from(name@, start as int, pos as int)),
        decreases n - pos,
    {
        if pos + 1 < n && name.get_char(pos) == ':' && name.get_char(pos + 1) == ':' {
            proof {
                lemma_any_marked_cons(
                    name@.subrange(start as int, pos as int),
                    split_from(name@, pos + 2, pos + 2),
                );
            }
            if ends_with_marker(name, start, pos) {
                return true;
            }
            pos = pos + 2;
            start = pos;
        } else {
            pos = pos + 1;
        }
    }
    proof {
        lemma_any_marked_cons(name@.subrange(start as int, n as int), Seq::empty());
        assert(seq![name@.subrange(start as int, n as int)] + Seq::<Seq<char>>::empty()
            =~= seq![name@.subrange(start as int, n as int)]);
    }
    ends_with_marker(name, start, n)
}

/// The three texts written one after another.
pub fn concat3(a: &str, b: &str, c: &str) -> (joined: String)
    ensures
        joined@ == a@ + b@ + c@,
{
    let mut joined = String::from_str(a);
    joined.append(b);
    joined.append(c);
    joined
}

/// The qualified name of a function: its declaring scope, `::`, its name.
pub open spec fn qualified(scope: Seq<char>, fn_name: Seq<char>) -> Seq<char> {
    scope + "::"@ + fn_name
}

/// The qualified name under which a function's symbols are looked up.
pub fn qualified_name(scope: &str, fn_name: &str) -> (name: String)
    ensures
        name@ == qualified(scope@, fn_name@),
{
    concat3(scope, "::", fn_name)
}

/// The name under which the marker of `name` is looked up.
pub open spec fn marker_of(name: Seq<char>) -> Seq<char> {
    name + marker_suffix()
}

/// The name under which the signature-hash marker of `name` is looked up.
pub fn marker_name(name: &str) -> (marker: String)
    ensures
        marker@ == marker_of(name@),
{
    let mut marker = String::from_str(name);
    marker.append(marker_suffix_str());
    marker
}

} // verus!
