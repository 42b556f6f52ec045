//! Character-level helpers for the one-line texts found in sysfs files.

use vstd::prelude::*;

verus! {

/// Whether `c` has the Unicode property `White_Space`.
pub open spec fn is_whitespace(c: char) -> bool {
    ||| ('\u{0009}' <= c && c <= '\u{000D}')
    ||| c == '\u{0020}'
    ||| c == '\u{0085}'
    ||| c == '\u{00A0}'
    ||| c == '\u{1680}'
    ||| ('\u{2000}' <= c && c <= '\u{200A}')
    ||| c == '\u{2028}'
    ||| c == '\u{2029}'
    ||| c == '\u{202F}'
    ||| c == '\u{205F}'
    ||| c == '\u{3000}'
}

/// `s` without its trailing whitespace.
pub open spec fn trim_end(s: Seq<char>) -> Seq<char>
    decreases s.len(),
{
    if s.len() > 0 && is_whitespace(s.last()) {
        trim_end(s.drop_last())
    } else {
        s
    }
}

/// `s` without its leading whitespace.
pub open spec fn trim_start(s: Seq<char>) -> Seq<char>
    decreases s.len(),
{
    if s.len() > 0 && is_whitespace(s.first()) {
        trim_start(s.drop_first())
    } else {
        s
    }
}

/// `s` without the whitespace at either end.
pub open spec fn trim(s: Seq<char>) -> Seq<char> {
    trim_start(trim_end(s))
}

/// `s` up to, and without, its first line feed; all of `s` where it has none.
pub open spec fn first_line(s: Seq<char>) -> Seq<char>
    decreases s.len(),
{
    if s.len() == 0 || s.first() == '\n' {
        Seq::empty()
    } else {
        seq![s.first()] + first_line(s.drop_first())
    }
}

/// What `trim_end` leaves is the longest beginning of `s` that does not end
/// in whitespace: it is a beginning of `s`, everything after it is
/// whitespace, and its last character, if it has one, is not.
pub proof fn lemma_trim_end_is_longest(s: Seq<char>)
    ensures
        trim_end(s).is_prefix_of(s),
        forall|i: int| trim_end(s).len() <= i < s.len() ==> is_whitespace(#[trigger] s[i]),
        trim_end(s).len() > 0 ==> !is_whitespace(trim_end(s).last()),
    decreases s.len(),
{
    if s.len() > 0 && is_whitespace(s.last()) {
        let front = s.drop_last();
        lemma_trim_end_is_longest(front);
        assert forall|i: int| trim_end(s).len() <= i < s.len() implies is_whitespace(
            #[trigger] s[i],
        ) by {
            if i < front.len() {
                assert(s[i] == front[i]);
            }
        }
    }
}

/// Whitespace in front of a text does not decide whether the text ends with
/// `suffix`, as long as `suffix` is not empty and does not itself start with
/// whitespace.
pub proof fn lemma_suffix_ignores_leading_whitespace(s: Seq<char>, suffix: Seq<char>)
    requires
        suffix.len() > 0,
        !is_whitespace(suffix.first()),
    ensures
        suffix.is_suffix_of(trim_start(s)) == suffix.is_suffix_of(s),
    decreases s.len(),
{
    if s.len() > 0 && is_whitespace(s.first()) {
        let rest = s.drop_first();
        lemma_suffix_ignores_leading_whitespace(rest, suffix);
        if suffix.len() <= rest.len() {
            assert(rest.subrange(rest.len() - suffix.len(), rest.len() as int) == s.subrange(
                s.len() - suffix.len(),
                s.len() as int,
            ));
        } else if suffix.len() <= s.len() {
            assert(s.subrange(s.len() - suffix.len(), s.len() as int)[0] == s.first());
        }
    }
}

/// Decides whether a character is whitespace.
pub fn whitespace(c: char) -> (r: bool)
    ensures
        r == is_whitespace(c),
{
    ('\u{0009}' <= c && c <= '\u{000D}') || c == '\u{0020}' || c == '\u{0085}' || c == '\u{00A0}'
        || c == '\u{1680}' || ('\u{2000}' <= c && c <= '\u{200A}') || c == '\u{2028}' || c
        == '\u{2029}' || c == '\u{202F}' || c == '\u{205F}' || c == '\u{3000}'
}

/// The characters of a string, in order.
pub fn chars_of(s: &str) -> (out: Vec<char>)
    ensures
        out@ == s@,
{
    let mut out: Vec<char> = Vec::new();
    for c in it: s.chars()
        invariant
            it.seq() == s@,
            out@ == s@.take(it.index()),
    {
        out.push(c);
    }
    out
}

/// The length of `text` once its trailing whitespace is removed.
pub fn trimmed_len(text: &[char]) -> (n: usize)
    ensures
        n <= text@.len(),
        text@.take(n as int) == trim_end(text@),
{
    let mut n: usize = text.len();
    assert(text@.take(n as int) == text@);
    while n > 0 && whitespace(text[n - 1])
        invariant
            n <= text@.len(),
            trim_end(text@.take(n as int)) == trim_end(text@),
        decreases n,
    {
        proof {
            assert(text@.take(n as int).drop_last() == text@.take(n as int - 1));
        }
        n = n - 1;
    }
    n
}

/// The number of whitespace characters at the start of `text`.
pub fn leading_whitespace_len(text: &[char]) -> (n: usize)
    ensures
        n <= text@.len(),
        text@.skip(n as int) == trim_start(text@),
{
    let mut n: usize = 0;
    assert(text@.skip(0) == text@);
    while n < text.len() && whitespace(text[n])
        invariant
            n <= text@.len(),
            trim_start(text@.skip(n as int)) == trim_start(text@),
        decreases text@.len() - n,
    {
        proof {
            assert(text@.skip(n as int).drop_first() == text@.skip(n as int + 1));
        }
        n = n + 1;
    }
    n
}

/// The length of the first line of `text`, its line feed not counted.
pub fn first_line_len(text: &[char]) -> (n: usize)
    ensures
        n <= text@.len(),
        text@.take(n as int) == first_line(text@),
{
    let mut n: usize = 0;
    assert(text@.skip(0) == text@);
    assert(text@.take(0) + first_line(text@) == first_line(text@));
    while n < text.len() && text[n] != '\n'
        invariant
            n <= text@.len(),
            first_line(text@) == text@.take(n as int) + first_line(text@.skip(n as int)),
        decreases text@.len() - n,
    {
        proof {
            let rest = text@.skip(n as int);
            assert(rest.drop_first() == text@.skip(n as int + 1));
            assert(text@.take(n as int) + seq![rest.first()] == text@.take(n as int + 1));
        }
        n = n + 1;
    }
    assert(text@.take(n as int) + Seq::<char>::empty() == text@.take(n as int));
    n
}

/// Whether `text` ends with `suffix`.
pub fn ends_with(text: &[char], suffix: &[char]) -> (r: bool)
    ensures
        r == suffix@.is_suffix_of(text@),
{
    if suffix.len() > text.len() {
        return false;
    }
    let start: usize = text.len() - suffix.len();
    let mut i: usize = 0;
    while i < suffix.len()
        invariant
            start + suffix.len() == text.len(),
            i <= suffix.len(),
            forall|j: int| 0 <= j < i ==> suffix@[j] == text@[start + j],
        decreases suffix@.len() - i,
    {
        if suffix[i] != text[start + i] {
            return false;
        }
        i = i + 1;
    }
    true
}

} // verus!
