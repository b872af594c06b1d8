//! Small verified helpers on strings, stated over their `Seq<char>` views.

use vstd::prelude::*;
use vstd::utf8::{encode_utf8, encode_utf8_decode_utf8};

verus! {

/// Whether two strings hold the same characters.
pub fn same_text(a: &str, b: &str) -> (r: bool)
    ensures
        r == (a@ == b@),
{
    let x = a.as_bytes();
    let y = b.as_bytes();
    if x.len() != y.len() {
        return false;
    }
    let mut i: usize = 0;
    while i < x.len()
        invariant
            i <= x.len(),
            x@.len() == y@.len(),
            x@ == encode_utf8(a@),
            y@ == encode_utf8(b@),
            forall|k: int| 0 <= k < i ==> x@[k] == y@[k],
        decreases x.len() - i,
    {
        if x[i] != y[i] {
            return false;
        }
        i += 1;
    }
    proof {
        assert(x@ =~= y@);
        encode_utf8_decode_utf8(a@);
        encode_utf8_decode_utf8(b@);
    }
    true
}

/// The characters of a string, in order.
pub fn chars_of(s: &str) -> (v: Vec<char>)
    ensures
        v@ == s@,
{
    let mut v: Vec<char> = Vec::new();
    for c in it: s.chars()
        invariant
            it.seq() == s@,
            v@ == it.seq().take(it.index()),
    {
        v.push(c);
    }
    v
}

/// Whether `c` is white space in the sense of `char::is_whitespace`: a
/// character with the Unicode property `White_Space`.
pub open spec fn is_white_space(c: char) -> bool {
    let u = c as u32;
    ||| 0x09 <= u <= 0x0d
    ||| u == 0x20
    ||| u == 0x85
    ||| u == 0xa0
    ||| u == 0x1680
    ||| 0x2000 <= u <= 0x200a
    ||| u == 0x2028
    ||| u == 0x2029
    ||| u == 0x202f
    ||| u == 0x205f
    ||| u == 0x3000
}

/// The number of white-space characters at the start of `s`.
pub open spec fn leading_white_space(s: Seq<char>) -> nat
    decreases s.len(),
{
    if s.len() > 0 && is_white_space(s[0]) {
        1 + leading_white_space(s.drop_first())
    } else {
        0
    }
}

/// The number of white-space characters at the end of `s`.
pub open spec fn trailing_white_space(s: Seq<char>) -> nat
    decreases s.len(),
{
    if s.len() > 0 && is_white_space(s.last()) {
        1 + trailing_white_space(s.drop_last())
    } else {
        0
    }
}

/// `s` without the white space at its start and at its end.
pub open spec fn trimmed(s: Seq<char>) -> Seq<char> {
    let rest = s.skip(leading_white_space(s) as int);
    rest.take(rest.len() - trailing_white_space(rest))
}

/// The number of characters of `s` that stand before its first `stop`; all
/// of them where it holds none.
pub open spec fn length_before(s: Seq<char>, stop: char) -> nat
    decreases s.len(),
{
    if s.len() > 0 && s[0] != stop {
        1 + length_before(s.drop_first(), stop)
    } else {
        0
    }
}

/// The part of `s` before its first `stop`; all of `s` where it holds none.
pub open spec fn text_before(s: Seq<char>, stop: char) -> Seq<char> {
    s.take(length_before(s, stop) as int)
}

/// White space at the start of `s` ends at the first character that is none.
pub proof fn lemma_leading_white_space(s: Seq<char>, n: int)
    requires
        0 <= n <= s.len(),
        forall|k: int| 0 <= k < n ==> is_white_space(#[trigger] s[k]),
        n == s.len() || !is_white_space(s[n]),
    ensures
        leading_white_space(s) == n,
    decreases n,
{
    if n > 0 {
        let rest = s.drop_first();
        assert forall|k: int| 0 <= k < n - 1 implies is_white_space(#[trigger] rest[k]) by {
            assert(rest[k] == s[k + 1]);
        }
        lemma_leading_white_space(rest, n - 1);
    }
}

/// White space at the end of `s` starts behind the last character that is
/// none.
pub proof fn lemma_trailing_white_space(s: Seq<char>, n: int)
    requires
        0 <= n <= s.len(),
        forall|k: int| s.len() - n <= k < s.len() ==> is_white_space(#[trigger] s[k]),
        n == s.len() || !is_white_space(s[s.len() - n - 1]),
    ensures
        trailing_white_space(s) == n,
    decreases n,
{
    if n > 0 {
        let rest = s.drop_last();
        assert forall|k: int| rest.len() - (n - 1) <= k < rest.len() implies is_white_space(
            #[trigger] rest[k],
        ) by {
            assert(rest[k] == s[k]);
        }
        lemma_trailing_white_space(rest, n - 1);
    }
}

/// The part before the first `stop` ends at the first position that holds it.
pub proof fn lemma_length_before(s: Seq<char>, stop: char, n: int)
    requires
        0 <= n <= s.len(),
        forall|k: int| 0 <= k < n ==> #[trigger] s[k] != stop,
        n == s.len() || s[n] == stop,
    ensures
        length_before(s, stop) == n,
    decreases n,
{
    if n > 0 {
        let rest = s.drop_first();
        assert forall|k: int| 0 <= k < n - 1 implies #[trigger] rest[k] != stop by {
            assert(rest[k] == s[k + 1]);
        }
        lemma_length_before(rest, stop, n - 1);
    }
}

/// Whether `c` is white space, as `char::is_whitespace` tells it.
pub fn is_whitespace(c: char) -> (r: bool)
    ensures
        r == is_white_space(c),
{
    let u: u32 = c as u32;
    (0x09 <= u && u <= 0x0d) || u == 0x20 || u == 0x85 || u == 0xa0 || u == 0x1680 || (0x2000 <= u
        && u <= 0x200a) || u == 0x2028 || u == 0x2029 || u == 0x202f || u == 0x205f || u == 0x3000
}

/// Whether `text`, cut at its first `stop` and trimmed of white space,
/// reads `expected`.
pub fn trimmed_prefix_is(text: &str, stop: char, expected: &str) -> (r: bool)
    ensures
        r == (trimmed(text_before(text@, stop)) == expected@),
{
    let chars = chars_of(text);
    let want = chars_of(expected);
    let mut end: usize = 0;
    while end < chars.len() && chars[end] != stop
        invariant
            end <= chars.len(),
            forall|k: int| 0 <= k < end ==> #[trigger] chars@[k] != stop,
        decreases chars.len() - end,
    {
        end += 1;
    }
    proof {
        lemma_length_before(chars@, stop, end as int);
    }
    let ghost segment = chars@.take(end as int);
    let mut start: usize = 0;
    while start < end && is_whitespace(chars[start])
        invariant
            start <= end <= chars.len(),
            forall|k: int| 0 <= k < start ==> is_white_space(#[trigger] chars@[k]),
        decreases end - start,
    {
        start += 1;
    }
    proof {
        assert forall|k: int| 0 <= k < start implies is_white_space(#[trigger] segment[k]) by {
            assert(segment[k] == chars@[k]);
        }
        lemma_leading_white_space(segment, start as int);
    }
    let ghost rest = segment.skip(start as int);
    let mut stop_at: usize = end;
    while stop_at > start && is_whitespace(chars[stop_at - 1])
        invariant
            start <= stop_at <= end <= chars.len(),
            forall|k: int| stop_at <= k < end ==> is_white_space(#[trigger] chars@[k]),
        decreases stop_at - start,
    {
        stop_at -= 1;
    }
    proof {
        assert forall|k: int| rest.len() - (end - stop_at) <= k < rest.len() implies is_white_space(
            #[trigger] rest[k],
        ) by {
            assert(rest[k] == chars@[k + start]);
        }
        if stop_at > start {
            assert(rest[rest.len() - (end - stop_at) - 1] == chars@[stop_at - 1]);
        }
        lemma_trailing_white_space(rest, (end - stop_at) as int);
        assert(trimmed(segment) =~= chars@.subrange(start as int, stop_at as int));
    }
    let found = stop_at - start;
    if found != want.len() {
        return false;
    }
    let mut i: usize = 0;
    while i < found
        invariant
            i <= found,
            found == want.len(),
            found == stop_at - start,
            start <= stop_at <= chars.len(),
            want@ == expected@,
            trimmed(text_before(text@, stop)) == chars@.subrange(start as int, stop_at as int),
            forall|k: int| 0 <= k < i ==> chars@[start + k] == want@[k],
        decreases found - i,
    {
        if chars[start + i] != want[i] {
            assert(chars@.subrange(start as int, stop_at as int)[i as int] != want@[i as int]);
            return false;
        }
        i += 1;
    }
    assert(chars@.subrange(start as int, stop_at as int) =~= want@);
    true
}

} // verus!
