//! Texts and byte strings: comparing them, and dividing a text at a separator.

use vstd::prelude::*;
use vstd::std_specs::iter::IteratorSpec;
use vstd::string::*;

verus! {

/// The part of `s` before its first `sep`, or all of `s` where `sep` does not occur.
pub open spec fn leading_segment(s: Seq<char>, sep: char) -> Seq<char>
    decreases s.len(),
{
    if s.len() == 0 || s[0] == sep {
        Seq::empty()
    } else {
        seq![s[0]] + leading_segment(s.drop_first(), sep)
    }
}

/// Whether two byte strings are equal.
pub fn same_bytes(a: &[u8], b: &[u8]) -> (same: bool)
    ensures
        same == (a@ == b@),
{
    if a.len() != b.len() {
        return false;
    }
    let mut i: usize = 0;
    while i < a.len()
        invariant
            i <= a.len(),
            a.len() == b.len(),
            forall|k: int| 0 <= k < i ==> a@[k] == b@[k],
        decreases a.len() - i,
    {
        if a[i] != b[i] {
            return false;
        }
        i += 1;
    }
    assert(a@ =~= b@);
    true
}

/// Whether two texts hold the same characters.
pub fn same_text(a: &str, b: &str) -> (same: bool)
    ensures
        same == (a@ == b@),
{
    let x = a.as_bytes();
    let y = b.as_bytes();
    proof {
        vstd::utf8::encode_utf8_decode_utf8(a@);
        vstd::utf8::encode_utf8_decode_utf8(b@);
    }
    same_bytes(x, y)
}

/// `leading_segment` is the longest front of `s` that holds no `sep`.
pub proof fn lemma_leading_segment(s: Seq<char>, sep: char, k: int)
    requires
        0 <= k <= s.len(),
        forall|j: int| 0 <= j < k ==> s[j] != sep,
        k < s.len() ==> s[k] == sep,
    ensures
        leading_segment(s, sep) == s.subrange(0, k),
    decreases k,
{
    if k > 0 {
        let rest = s.drop_first();
        assert forall|j: int| 0 <= j < k - 1 implies rest[j] != sep by {
            assert(rest[j] == s[j + 1]);
        }
        lemma_leading_segment(rest, sep, k - 1);
        assert(s.subrange(0, k) =~= seq![s[0]] + rest.subrange(0, k - 1));
    } else {
        assert(s.subrange(0, 0) =~= Seq::<char>::empty());
    }
}

/// Whether the part of `path` before its first `/` is `name`.
pub fn leading_segment_is(path: &str, name: &str) -> (same: bool)
    ensures
        same == (leading_segment(path@, '/') == name@),
{
    let length = path.unicode_len();
    let mut k: usize = 0;
    let mut chars = path.chars();
    let ghost all = path@;
    loop
        invariant_except_break
            chars.remaining() == all.skip(k as int),
        invariant
            k <= length == all.len(),
            all == path@,
            forall|j: int| 0 <= j < k ==> all[j] != '/',
        ensures
            k < all.len() ==> all[k as int] == '/',
        decreases all.len() - k,
    {
        match chars.next() {
            Some(c) => {
                if c == '/' {
                    break;
                }
                k += 1;
            },
            None => {
                break;
            },
        }
    }
    proof {
        lemma_leading_segment(all, '/', k as int);
    }
    same_text(path.substring_char(0, k), name)
}

/// The parts into which the occurrences of `sep` divide `s`. There is one part more than
/// there are occurrences: a text without `sep` is its own single part, and where `sep` stands
/// last, the last part is empty.
pub open spec fn split_on(s: Seq<char>, sep: char) -> Seq<Seq<char>>
    decreases s.len(),
{
    let head = leading_segment(s, sep);
    if head.len() >= s.len() {
        seq![head]
    } else {
        seq![head] + split_on(s.skip(head.len() as int + 1), sep)
    }
}

/// The views of `texts`, in their order.
pub open spec fn text_views(texts: Seq<String>) -> Seq<Seq<char>> {
    texts.map_values(|t: String| t@)
}

/// Divides `text` at each line feed.
pub fn split_lines(text: &str) -> (lines: Vec<String>)
    ensures
        text_views(lines@) == split_on(text@, '\n'),
{
    let length = text.unicode_len();
    let mut lines: Vec<String> = Vec::new();
    let mut start: usize = 0;
    let mut k: usize = 0;
    let mut chars = text.chars();
    let ghost all = text@;
    assert(all.skip(0) =~= all);
    loop
        invariant_except_break
            chars.remaining() == all.skip(k as int),
        invariant
            start <= k <= length == all.len(),
            all == text@,
            forall|j: int| start <= j < k ==> all[j] != '\n',
            split_on(all, '\n') == text_views(lines@) + split_on(all.skip(start as int), '\n'),
        ensures
            k == length,
        decreases all.len() - k,
    {
        match chars.next() {
            Some(c) => {
                if c == '\n' {
                    let line = text.substring_char(start, k).to_string();
                    proof {
                        let rest = all.skip(start as int);
                        lemma_leading_segment(rest, '\n', k - start);
                        assert(rest.subrange(0, k - start) =~= all.subrange(
                            start as int,
                            k as int,
                        ));
                        assert(rest.skip(k - start + 1) =~= all.skip(k + 1));
                        assert(text_views(lines@).push(line@) + split_on(all.skip(k + 1), '\n')
                            =~= text_views(lines@) + (seq![line@] + split_on(
                            all.skip(k + 1),
                            '\n',
                        )));
                    }
                    lines.push(line);
                    start = k + 1;
                }
                k += 1;
            },
            None => {
                break;
            },
        }
    }
    let line = text.substring_char(start, k).to_string();
    proof {
        let rest = all.skip(start as int);
        lemma_leading_segment(rest, '\n', k - start);
        assert(rest.subrange(0, k - start) =~= all.subrange(start as int, k as int));
    }
    lines.push(line);
    lines
}

} // verus!
