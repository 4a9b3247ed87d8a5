//! Text of table cells: joining the pieces of an element's text and
//! stripping the white space around it.

use vstd::prelude::*;
use vstd::string::*;

verus! {

/// Whether `c` is white space in the sense of std's `char::is_whitespace`,
/// that is, whether it has the Unicode property `White_Space`.
///
/// Which characters those are is not spelled out here; the library only
/// relies on the answer being the same for the same character.
pub uninterp spec fn is_white_space(c: char) -> bool;

/// Trusted: `char::is_whitespace` answers `is_white_space`. The function is
/// a pure test on the character and never panics.
pub assume_specification[ char::is_whitespace ](c: char) -> (b: bool)
    ensures
        b == is_white_space(c),
;

/// Every character of `s` is white space.
pub open spec fn is_blank(s: Seq<char>) -> bool {
    forall|i: int| 0 <= i < s.len() ==> is_white_space(#[trigger] s[i])
}

/// The number of white-space characters `s` starts with.
pub open spec fn leading_blank(s: Seq<char>) -> nat
    decreases s.len(),
{
    if s.len() > 0 && is_white_space(s.first()) {
        1 + leading_blank(s.drop_first())
    } else {
        0
    }
}

/// The number of white-space characters `s` ends with.
pub open spec fn trailing_blank(s: Seq<char>) -> nat
    decreases s.len(),
{
    if s.len() > 0 && is_white_space(s.last()) {
        1 + trailing_blank(s.drop_last())
    } else {
        0
    }
}

/// `s` without the white space it starts and ends with. A blank `s` gives
/// the empty text.
pub open spec fn trimmed(s: Seq<char>) -> Seq<char> {
    if leading_blank(s) == s.len() {
        Seq::empty()
    } else {
        s.subrange(leading_blank(s) as int, s.len() - trailing_blank(s))
    }
}

/// `leading_blank(s)` is the one position `a` such that everything before
/// `a` is white space and `s` ends at `a` or has another character there.
pub proof fn lemma_leading_blank_is(s: Seq<char>, a: int)
    requires
        0 <= a <= s.len(),
        forall|j: int| 0 <= j < a ==> is_white_space(#[trigger] s[j]),
        a < s.len() ==> !is_white_space(s[a]),
    ensures
        leading_blank(s) == a,
    decreases s.len(),
{
    if a > 0 {
        let rest = s.drop_first();
        assert forall|j: int| 0 <= j < a - 1 implies is_white_space(#[trigger] rest[j]) by {
            assert(rest[j] == s[j + 1]);
        }
        lemma_leading_blank_is(rest, a - 1);
    }
}

/// `trailing_blank(s)` is the one count `n` such that the last `n`
/// characters are white space and `s` has none before them or another
/// character there.
pub proof fn lemma_trailing_blank_is(s: Seq<char>, n: int)
    requires
        0 <= n <= s.len(),
        forall|j: int| s.len() - n <= j < s.len() ==> is_white_space(#[trigger] s[j]),
        n < s.len() ==> !is_white_space(s[s.len() - n - 1]),
    ensures
        trailing_blank(s) == n,
    decreases s.len(),
{
    if n > 0 {
        let rest = s.drop_last();
        assert forall|j: int| rest.len() - (n - 1) <= j < rest.len() implies is_white_space(
            #[trigger] rest[j],
        ) by {
            assert(rest[j] == s[j]);
        }
        lemma_trailing_blank_is(rest, n - 1);
    }
}

/// The white space `s` starts with is white space, and what follows it is
/// not.
pub proof fn lemma_leading_blank_bounds(s: Seq<char>)
    ensures
        leading_blank(s) <= s.len(),
        forall|j: int| 0 <= j < leading_blank(s) ==> is_white_space(#[trigger] s[j]),
        leading_blank(s) < s.len() ==> !is_white_space(s[leading_blank(s) as int]),
    decreases s.len(),
{
    if s.len() > 0 && is_white_space(s.first()) {
        let rest = s.drop_first();
        lemma_leading_blank_bounds(rest);
        assert forall|j: int| 0 <= j < leading_blank(s) implies is_white_space(#[trigger] s[j]) by {
            if j > 0 {
                assert(s[j] == rest[j - 1]);
            }
        }
        if leading_blank(s) < s.len() {
            assert(s[leading_blank(s) as int] == rest[leading_blank(rest) as int]);
        }
    }
}

/// The white space `s` ends with is white space, and what stands before it
/// is not.
pub proof fn lemma_trailing_blank_bounds(s: Seq<char>)
    ensures
        trailing_blank(s) <= s.len(),
        forall|j: int|
            s.len() - trailing_blank(s) <= j < s.len() ==> is_white_space(#[trigger] s[j]),
        trailing_blank(s) < s.len() ==> !is_white_space(s[s.len() - trailing_blank(s) - 1]),
    decreases s.len(),
{
    if s.len() > 0 && is_white_space(s.last()) {
        let rest = s.drop_last();
        lemma_trailing_blank_bounds(rest);
        assert forall|j: int| s.len() - trailing_blank(s) <= j < s.len() implies is_white_space(
            #[trigger] s[j],
        ) by {
            if j < s.len() - 1 {
                assert(s[j] == rest[j]);
            }
        }
        if trailing_blank(s) < s.len() {
            assert(s[s.len() - trailing_blank(s) - 1] == rest[rest.len() - trailing_blank(rest)
                - 1]);
        }
    }
}

/// Trimming takes away white space at the two ends and nothing else. A
/// blank text, and no other, is trimmed to nothing. Any other text is its
/// leading white space, then the trimmed text, then its trailing white
/// space; and the trimmed text neither starts nor ends with white space.
pub proof fn lemma_trimmed_frames(s: Seq<char>)
    ensures
        is_blank(s) <==> trimmed(s).len() == 0,
        is_blank(s.take(leading_blank(s) as int)),
        is_blank(s.skip(s.len() - trailing_blank(s))),
        !is_blank(s) ==> s == s.take(leading_blank(s) as int) + trimmed(s) + s.skip(
            s.len() - trailing_blank(s),
        ),
        !is_blank(s) ==> !is_white_space(trimmed(s).first()) && !is_white_space(
            trimmed(s).last(),
        ),
{
    lemma_leading_blank_bounds(s);
    lemma_trailing_blank_bounds(s);
    let a = leading_blank(s) as int;
    let n = trailing_blank(s) as int;
    if a < s.len() {
        // The character at `a` is no white space, so the trailing white
        // space starts after it.
        assert(!is_white_space(s[a]));
        assert(a < s.len() - n);
        assert(s =~= s.take(a) + trimmed(s) + s.skip(s.len() - n));
        assert(trimmed(s).first() == s[a]);
        assert(trimmed(s).last() == s[s.len() - n - 1]);
    }
}

/// Trimming a trimmed text changes nothing.
pub proof fn lemma_trimmed_twice(s: Seq<char>)
    ensures
        trimmed(trimmed(s)) == trimmed(s),
{
    lemma_trimmed_frames(s);
    let t = trimmed(s);
    if t.len() > 0 {
        lemma_leading_blank_is(t, 0);
        lemma_trailing_blank_is(t, 0);
        assert(t.subrange(0, t.len() as int) =~= t);
    }
}

/// The text with the white space at both ends taken away, as a new string.
pub fn trim(text: &str) -> (stripped: String)
    ensures
        stripped@ == trimmed(text@),
{
    let len = text.unicode_len();
    // `start` counts the white space seen before any other character;
    // `end` is one past the last character seen that is no white space.
    let mut start: usize = 0;
    let mut end: usize = 0;
    let mut i: usize = 0;
    for c in chars: text.chars()
        invariant
            chars.seq() == text@,
            len == text@.len(),
            i == chars.index(),
            start <= i,
            forall|j: int| 0 <= j < start ==> is_white_space(#[trigger] text@[j]),
            start < i ==> !is_white_space(text@[start as int]),
            start < i ==> start < end <= i && !is_white_space(text@[end - 1]),
            start == i ==> end == 0,
            forall|j: int| end <= j < i && start < i ==> is_white_space(#[trigger] text@[j]),
    {
        if c.is_whitespace() {
            if start == i {
                start = i + 1;
            }
        } else {
            end = i + 1;
        }
        i = i + 1;
    }
    proof {
        lemma_leading_blank_is(text@, start as int);
    }
    if start == len {
        String::new()
    } else {
        proof {
            lemma_trailing_blank_is(text@, len - end);
        }
        text.substring_char(start, end).to_owned()
    }
}

/// The pieces one after another, with nothing between them.
pub fn join(pieces: &Vec<&str>) -> (joined: String)
    ensures
        joined@ == pieces.deep_view().flatten(),
{
    let mut joined = String::new();
    let ghost parts = pieces.deep_view();
    for i in 0..pieces.len()
        invariant
            parts == pieces.deep_view(),
            joined@ == parts.take(i as int).flatten(),
    {
        proof {
            assert(parts.take(i + 1) =~= parts.take(i as int).push(parts[i as int]));
            parts.take(i as int).lemma_flatten_push(parts[i as int]);
        }
        joined.append(pieces[i]);
    }
    assert(parts.take(pieces.len() as int) =~= parts);
    joined
}

} // verus!
