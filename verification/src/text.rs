//! Character-level helpers on text: bounding a text to a number of characters,
//! suffix tests, and the last segment of a `/`-separated reference.
//!
//! Every contract is stated over the text's view, a `Seq<char>`, so lengths and
//! positions count characters, never bytes.

use vstd::prelude::*;
use vstd::string::StringSliceAdditionalSpecFns;
use vstd::utf8::{encode_utf8, valid_utf8};

verus! {

/// The first `n` characters of `s`, or all of `s` where it has no more than `n`.
pub open spec fn prefix_within(s: Seq<char>, n: nat) -> Seq<char> {
    if s.len() <= n {
        s
    } else {
        s.take(n as int)
    }
}

/// The part of `s` behind its last `/`; all of `s` where it holds none.
pub open spec fn last_segment(s: Seq<char>) -> Seq<char>
    decreases s.len(),
{
    if s.len() == 0 || s.last() == '/' {
        Seq::empty()
    } else {
        last_segment(s.drop_last()).push(s.last())
    }
}

/// The encoding of two texts in a row is the encoding of the first followed by
/// the encoding of the second.
pub proof fn lemma_encoding_of_concatenation(first: Seq<char>, second: Seq<char>)
    ensures
        encode_utf8(first + second) == encode_utf8(first) + encode_utf8(second),
    decreases first.len(),
{
    if first.len() == 0 {
        assert(first + second =~= second);
        assert(encode_utf8(first) + encode_utf8(second) =~= encode_utf8(second));
    } else {
        lemma_encoding_of_concatenation(first.drop_first(), second);
        assert((first + second).drop_first() =~= first.drop_first() + second);
        assert(encode_utf8(first + second) =~= encode_utf8(first) + encode_utf8(second));
    }
}

/// What bounding a text to `n` characters gives: a prefix of the text of at most
/// `n` characters, the text itself where it is short enough, and the longest
/// prefix that there is within the bound. Its bytes are the first bytes of the
/// text's and are well-formed UTF-8 on their own: no character is split.
pub proof fn lemma_prefix_within(s: Seq<char>, n: nat)
    ensures
        prefix_within(s, n).is_prefix_of(s),
        prefix_within(s, n).len() <= n,
        s.len() <= n ==> prefix_within(s, n) == s,
        s.len() > n ==> prefix_within(s, n).len() == n,
        forall|p: Seq<char>|
            p.is_prefix_of(s) && p.len() <= n ==> #[trigger] p.len() <= prefix_within(s, n).len(),
        encode_utf8(prefix_within(s, n)).is_prefix_of(encode_utf8(s)),
        valid_utf8(encode_utf8(prefix_within(s, n))),
{
    let kept = prefix_within(s, n);
    let rest = s.subrange(kept.len() as int, s.len() as int);
    assert(s =~= kept + rest);
    lemma_encoding_of_concatenation(kept, rest);
    vstd::utf8::encode_utf8_valid_utf8(kept);
}

/// Bounds `s` to at most `max_chars` characters.
///
/// The result is the longest prefix of `s` with no more than `max_chars`
/// characters: `s` itself where it is short enough, and nothing where
/// `max_chars` is 0. It is cut between characters, so its bytes are well-formed
/// UTF-8.
pub fn truncate(s: &str, max_chars: usize) -> (r: &str)
    ensures
        r@ == prefix_within(s@, max_chars as nat),
        r@.is_prefix_of(s@),
        r@.len() <= max_chars,
        s@.len() <= max_chars ==> r@ == s@,
        r.spec_bytes().is_prefix_of(s.spec_bytes()),
        valid_utf8(r.spec_bytes()),
{
    proof {
        lemma_prefix_within(s@, max_chars as nat);
    }
    let n: usize = s.unicode_len();
    if n <= max_chars {
        s
    } else {
        s.substring_char(0, max_chars)
    }
}

/// The characters of `s`, in order.
pub fn chars_of(s: &str) -> (v: Vec<char>)
    ensures
        v@ == s@,
{
    let mut v: Vec<char> = Vec::new();
    for c in it: s.chars()
        invariant
            it.seq() == s@,
            v@ == s@.take(it.index() as int),
    {
        v.push(c);
        assert(s@.take(it.index() + 1) == s@.take(it.index() as int).push(c));
    }
    v
}

/// Whether `s` ends with `suffix`, compared character by character.
pub fn ends_with(s: &str, suffix: &str) -> (b: bool)
    ensures
        b == suffix@.is_suffix_of(s@),
{
    let text = chars_of(s);
    let tail = chars_of(suffix);
    if tail.len() > text.len() {
        return false;
    }
    let offset: usize = text.len() - tail.len();
    let mut i: usize = 0;
    while i < tail.len()
        invariant
            i <= tail.len(),
            text@ == s@,
            tail@ == suffix@,
            offset + tail.len() == text.len(),
            forall|j: int| 0 <= j < i ==> text@[offset + j] == tail@[j],
        decreases tail.len() - i,
    {
        if text[offset + i] != tail[i] {
            assert(s@.subrange(offset as int, s@.len() as int)[i as int] != suffix@[i as int]);
            return false;
        }
        i = i + 1;
    }
    assert(suffix@ =~= s@.subrange(offset as int, s@.len() as int));
    true
}

/// What `last_segment` yields is the one suffix of `s` without a `/` that either
/// is all of `s` or stands right behind a `/`.
pub proof fn lemma_last_segment(s: Seq<char>)
    ensures
        last_segment(s).is_suffix_of(s),
        !last_segment(s).contains('/'),
        last_segment(s).len() < s.len() ==> s[s.len() - last_segment(s).len() - 1] == '/',
    decreases s.len(),
{
    if s.len() == 0 || s.last() == '/' {
        assert(last_segment(s) =~= s.subrange(s.len() as int, s.len() as int));
    } else {
        let init = s.drop_last();
        lemma_last_segment(init);
        let seg = last_segment(init);
        assert(seg == init.subrange(init.len() - seg.len(), init.len() as int));
        assert(seg.push(s.last()) =~= s.subrange(s.len() - (seg.len() + 1), s.len() as int));
        assert forall|i: int| 0 <= i < seg.len() + 1 implies seg.push(s.last())[i] != '/' by {
            if i < seg.len() {
                assert(seg.contains(seg[i]));
            }
        }
    }
}

/// Behind position `start` the text holds no `/`, and `start` is 0 or stands right
/// behind one: then the last segment is what follows `start`.
proof fn lemma_last_segment_from(s: Seq<char>, start: int)
    requires
        0 <= start <= s.len(),
        start == 0 || s[start - 1] == '/',
        forall|j: int| start <= j < s.len() ==> s[j] != '/',
    ensures
        last_segment(s) == s.subrange(start, s.len() as int),
    decreases s.len(),
{
    if start == s.len() {
        assert(s.subrange(start, s.len() as int) =~= Seq::<char>::empty());
    } else {
        let init = s.drop_last();
        lemma_last_segment_from(init, start);
        assert(init.subrange(start, init.len() as int).push(s.last()) =~= s.subrange(
            start,
            s.len() as int,
        ));
    }
}

/// The last segment of a `/`-separated reference: what follows its last `/`, or the
/// whole reference where it holds none.
pub fn last_path_segment(reference: &str) -> (r: &str)
    ensures
        r@ == last_segment(reference@),
{
    let n: usize = reference.unicode_len();
    let mut start: usize = 0;
    let mut i: usize = 0;
    for c in it: reference.chars()
        invariant
            it.seq() == reference@,
            n == reference@.len(),
            i == it.index(),
            start <= i,
            start == 0 || reference@[start - 1] == '/',
            forall|j: int| start <= j < i ==> reference@[j] != '/',
    {
        i = i + 1;
        if c == '/' {
            start = i;
        }
    }
    proof {
        lemma_last_segment_from(reference@, start as int);
    }
    reference.substring_char(start, n)
}

} // verus!
