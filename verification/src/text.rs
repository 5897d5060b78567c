//! Trimming of white space.

use vstd::prelude::*;
use vstd::string::StrSliceExecFns;

verus! {

/// Whether `c` is white space: the characters with the Unicode property
/// `White_Space`.
pub open spec fn is_whitespace(c: char) -> bool {
    let n = c as u32;
    ||| 0x09 <= n <= 0x0D
    ||| n == 0x20
    ||| n == 0x85
    ||| n == 0xA0
    ||| n == 0x1680
    ||| 0x2000 <= n <= 0x200A
    ||| n == 0x2028
    ||| n == 0x2029
    ||| n == 0x202F
    ||| n == 0x205F
    ||| n == 0x3000
}

/// `s` without the white space at its start.
pub open spec fn trim_start(s: Seq<char>) -> Seq<char>
    decreases s.len(),
{
    if s.len() > 0 && is_whitespace(s.first()) {
        trim_start(s.drop_first())
    } else {
        s
    }
}

/// `s` without the white space at its end.
pub open spec fn trim_end(s: Seq<char>) -> Seq<char>
    decreases s.len(),
{
    if s.len() > 0 && is_whitespace(s.last()) {
        trim_end(s.drop_last())
    } else {
        s
    }
}

/// `s` without the white space at its start and at its end.
pub open spec fn trimmed(s: Seq<char>) -> Seq<char> {
    trim_end(trim_start(s))
}

/// [`trim_start`] drops white space only, from the start only, and all of
/// it: the result is the `count` that it returns shorter than `s`.
pub proof fn lemma_trim_start_shape(s: Seq<char>) -> (count: int)
    ensures
        0 <= count <= s.len(),
        trim_start(s) == s.subrange(count, s.len() as int),
        forall|i: int| 0 <= i < count ==> is_whitespace(#[trigger] s[i]),
        count < s.len() ==> !is_whitespace(s[count]),
    decreases s.len(),
{
    if s.len() > 0 && is_whitespace(s.first()) {
        let rest = s.drop_first();
        let inner = lemma_trim_start_shape(rest);
        assert forall|i: int| 0 <= i < inner + 1 implies is_whitespace(#[trigger] s[i]) by {
            if i > 0 {
                assert(s[i] == rest[i - 1]);
            }
        }
        assert(rest.subrange(inner, rest.len() as int) =~= s.subrange(inner + 1, s.len() as int));
        inner + 1
    } else {
        assert(s.subrange(0, s.len() as int) =~= s);
        0
    }
}

/// [`trim_end`] drops white space only, from the end only, and all of it:
/// the result has the length that is returned.
pub proof fn lemma_trim_end_shape(s: Seq<char>) -> (len: int)
    ensures
        0 <= len <= s.len(),
        trim_end(s) == s.subrange(0, len),
        forall|i: int| len <= i < s.len() ==> is_whitespace(#[trigger] s[i]),
        0 < len ==> !is_whitespace(s[len - 1]),
    decreases s.len(),
{
    if s.len() > 0 && is_whitespace(s.last()) {
        let rest = s.drop_last();
        let inner = lemma_trim_end_shape(rest);
        assert forall|i: int| inner <= i < s.len() implies is_whitespace(#[trigger] s[i]) by {
            if i < rest.len() {
                assert(s[i] == rest[i]);
            }
        }
        assert(rest.subrange(0, inner) =~= s.subrange(0, inner));
        inner
    } else {
        assert(s.subrange(0, s.len() as int) =~= s);
        s.len() as int
    }
}

/// The trimmed text is the part of `s` between the two positions that are
/// returned. Before the first and from the second on `s` holds white space
/// only, and the part neither starts nor ends with white space.
pub proof fn lemma_trimmed_is_the_middle(s: Seq<char>) -> (bounds: (int, int))
    ensures
        0 <= bounds.0 <= bounds.1 <= s.len(),
        trimmed(s) == s.subrange(bounds.0, bounds.1),
        forall|i: int| 0 <= i < bounds.0 ==> is_whitespace(#[trigger] s[i]),
        forall|i: int| bounds.1 <= i < s.len() ==> is_whitespace(#[trigger] s[i]),
        bounds.0 < bounds.1 ==> !is_whitespace(s[bounds.0]) && !is_whitespace(s[bounds.1 - 1]),
{
    let from = lemma_trim_start_shape(s);
    let tail = s.subrange(from, s.len() as int);
    let len = lemma_trim_end_shape(tail);
    assert(tail.subrange(0, len) =~= s.subrange(from, from + len));
    assert forall|i: int| from + len <= i < s.len() implies is_whitespace(#[trigger] s[i]) by {
        assert(s[i] == tail[i - from]);
    }
    if len > 0 {
        assert(tail[len - 1] == s[from + len - 1]);
    }
    (from, from + len)
}

/// Nothing is left of a text once trimmed exactly when the text holds
/// white space only; the empty text is such a text.
pub proof fn lemma_trimmed_is_empty_iff_blank(s: Seq<char>)
    ensures
        trimmed(s).len() == 0 <==> forall|i: int| 0 <= i < s.len() ==> is_whitespace(#[trigger] s[i]),
        trimmed(Seq::<char>::empty()).len() == 0,
{
    let (from, to) = lemma_trimmed_is_the_middle(s);
    if from < to {
        assert(!is_whitespace(s[from]));
    }
}

/// Trimming a trimmed text changes nothing.
pub proof fn lemma_trimmed_is_idempotent(s: Seq<char>)
    ensures
        trimmed(trimmed(s)) == trimmed(s),
{
    let (from, to) = lemma_trimmed_is_the_middle(s);
    let text = trimmed(s);
    let (first, last) = lemma_trimmed_is_the_middle(text);
    if from < to {
        assert(text[0] == s[from]);
        assert(text[text.len() - 1] == s[to - 1]);
        assert(first == 0) by {
            if first > 0 {
                assert(is_whitespace(text[0]));
            }
        }
        assert(last == text.len()) by {
            if last < text.len() {
                assert(is_whitespace(text[text.len() - 1]));
            }
        }
    }
    assert(text.subrange(first, last) =~= text);
}

/// Whether `c` is white space.
pub fn char_is_whitespace(c: char) -> (b: bool)
    ensures
        b == is_whitespace(c),
{
    let n: u32 = c as u32;
    (0x09 <= n && n <= 0x0D) || n == 0x20 || n == 0x85 || n == 0xA0 || n == 0x1680 || (0x2000 <= n
        && n <= 0x200A) || n == 0x2028 || n == 0x2029 || n == 0x202F || n == 0x205F || n == 0x3000
}

/// The part of `s` between the white space at its start and the white space
/// at its end; empty if `s` holds nothing else.
pub fn trim(s: &str) -> (t: &str)
    ensures
        t@ == trimmed(s@),
{
    let len = s.unicode_len();
    let mut from: usize = 0;
    let mut to: usize = 0;
    let mut at: usize = 0;
    for c in it: s.chars()
        invariant
            it.seq() == s@,
            len == s@.len(),
            at == it.index(),
            from <= to <= at <= len,
            to == 0 ==> from == 0,
            to == 0 ==> forall|i: int| 0 <= i < at ==> is_whitespace(#[trigger] s@[i]),
            to > 0 ==> !is_whitespace(s@[from as int]) && !is_whitespace(s@[to - 1]) && from < to,
            to > 0 ==> forall|i: int| 0 <= i < from ==> is_whitespace(#[trigger] s@[i]),
            to > 0 ==> forall|i: int| to <= i < at ==> is_whitespace(#[trigger] s@[i]),
    {
        if !char_is_whitespace(c) {
            if to == 0 {
                from = at;
            }
            to = at + 1;
        }
        at = at + 1;
    }
    proof {
        let text = s@;
        let (first, last) = lemma_trimmed_is_the_middle(text);
        if to == 0 {
            assert(first == last) by {
                if first < last {
                    assert(is_whitespace(text[first]));
                }
            }
            assert(text.subrange(0, 0) =~= text.subrange(first, last));
        } else {
            assert(first == from) by {
                if first < from {
                    assert(is_whitespace(text[first]));
                } else if from < first {
                    assert(is_whitespace(text[from as int]));
                }
            }
            assert(last == to) by {
                if last < to {
                    assert(is_whitespace(text[to - 1]));
                } else if to < last {
                    assert(is_whitespace(text[last - 1]));
                }
            }
        }
    }
    s.substring_char(from, to)
}

} // verus!
