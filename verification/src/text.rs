//! Characters of a line of text, and the white space around it.

use vstd::prelude::*;
use vstd::std_specs::iter::IteratorSpec;
use vstd::string::*;

verus! {

broadcast use vstd::string::group_string_axioms;

/// Whether `c` is white space: the characters with the Unicode property
/// `White_Space`.
pub open spec fn is_space(c: char) -> bool {
    let n = c as u32;
    ||| 0x09 <= n <= 0x0d
    ||| n == 0x20
    ||| n == 0x85
    ||| n == 0xa0
    ||| n == 0x1680
    ||| 0x2000 <= n <= 0x200a
    ||| n == 0x2028
    ||| n == 0x2029
    ||| n == 0x202f
    ||| n == 0x205f
    ||| n == 0x3000
}

/// `s` without the white space it starts with.
pub open spec fn trim_start(s: Seq<char>) -> Seq<char>
    decreases s.len(),
{
    if s.len() > 0 && is_space(s[0]) {
        trim_start(s.drop_first())
    } else {
        s
    }
}

/// `s` without the white space it ends with.
pub open spec fn trim_end(s: Seq<char>) -> Seq<char>
    decreases s.len(),
{
    if s.len() > 0 && is_space(s.last()) {
        trim_end(s.drop_last())
    } else {
        s
    }
}

/// `s` without the white space on either side.
pub open spec fn trimmed(s: Seq<char>) -> Seq<char> {
    trim_end(trim_start(s))
}

/// Tests a character for white space.
pub fn is_whitespace(c: char) -> (space: bool)
    ensures
        space == is_space(c),
{
    let n: u32 = c as u32;
    (0x09 <= n && n <= 0x0d) || n == 0x20 || n == 0x85 || n == 0xa0 || n == 0x1680 || (0x2000 <= n
        && n <= 0x200a) || n == 0x2028 || n == 0x2029 || n == 0x202f || n == 0x205f || n == 0x3000
}

/// The characters of `s`, in order.
pub fn chars_of(s: &str) -> (chars: Vec<char>)
    ensures
        chars@ == s@,
{
    let mut chars: Vec<char> = Vec::new();
    let mut rest = s.chars();
    loop
        invariant
            chars@ + rest.remaining() == s@,
            rest.decrease() is Some,
        ensures
            chars@ == s@,
        decreases rest.decrease()->0,
    {
        match rest.next() {
            Some(c) => {
                chars.push(c);
            },
            None => {
                assert(chars@ + rest.remaining() =~= chars@);
                break ;
            },
        }
    }
    chars
}

/// White space in front of a first character that is none is all that
/// `trim_start` takes away.
pub proof fn lemma_trim_start_at(s: Seq<char>, start: int)
    requires
        0 <= start <= s.len(),
        forall|i: int| 0 <= i < start ==> is_space(#[trigger] s[i]),
        start == s.len() || !is_space(s[start]),
    ensures
        trim_start(s) == s.subrange(start, s.len() as int),
    decreases start,
{
    if start == 0 {
        assert(s.subrange(0, s.len() as int) =~= s);
    } else {
        let rest = s.drop_first();
        assert forall|i: int| 0 <= i < start - 1 implies is_space(#[trigger] rest[i]) by {
            assert(rest[i] == s[i + 1]);
        }
        lemma_trim_start_at(rest, start - 1);
        assert(rest.subrange(start - 1, rest.len() as int) =~= s.subrange(start, s.len() as int));
    }
}

/// White space behind a last character that is none is all that `trim_end`
/// takes away.
pub proof fn lemma_trim_end_at(s: Seq<char>, end: int)
    requires
        0 <= end <= s.len(),
        forall|i: int| end <= i < s.len() ==> is_space(#[trigger] s[i]),
        end == 0 || !is_space(s[end - 1]),
    ensures
        trim_end(s) == s.subrange(0, end),
    decreases s.len() - end,
{
    if end == s.len() {
        assert(s.subrange(0, end) =~= s);
    } else {
        let rest = s.drop_last();
        assert forall|i: int| end <= i < rest.len() implies is_space(#[trigger] rest[i]) by {
            assert(rest[i] == s[i]);
        }
        lemma_trim_end_at(rest, end);
        assert(rest.subrange(0, end) =~= s.subrange(0, end));
    }
}

/// Where the text of `chars` begins and ends once the white space on either
/// side is left out.
pub fn trim_bounds(chars: &Vec<char>) -> (bounds: (usize, usize))
    ensures
        bounds.0 <= bounds.1 <= chars.len(),
        chars@.subrange(bounds.0 as int, bounds.1 as int) == trimmed(chars@),
{
    let len = chars.len();
    let mut start: usize = 0;
    while start < len && is_whitespace(chars[start])
        invariant
            len == chars.len(),
            start <= len,
            forall|i: int| 0 <= i < start ==> is_space(#[trigger] chars@[i]),
        decreases len - start,
    {
        start = start + 1;
    }
    let mut end: usize = len;
    while end > start && is_whitespace(chars[end - 1])
        invariant
            len == chars.len(),
            start <= end <= len,
            forall|i: int| end <= i < len ==> is_space(#[trigger] chars@[i]),
        decreases end,
    {
        end = end - 1;
    }
    proof {
        let whole = chars@;
        let tail = whole.subrange(start as int, len as int);
        lemma_trim_start_at(whole, start as int);
        assert forall|i: int| end - start <= i < tail.len() implies is_space(
            #[trigger] tail[i],
        ) by {
            assert(tail[i] == whole[i + start]);
        }
        if end > start {
            assert(tail[end - start - 1] == whole[end - 1]);
        }
        lemma_trim_end_at(tail, end - start);
        assert(tail.subrange(0, end - start) =~= whole.subrange(start as int, end as int));
    }
    (start, end)
}

} // verus!
