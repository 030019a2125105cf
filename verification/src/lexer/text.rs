//! Texts as sequences of characters: what it means to trim a text, to unwrap
//! a value and to split a text into lines, with executable counterparts that
//! work on slices of characters.

use vstd::prelude::*;
use vstd::slice::slice_subrange;

verus! {

/// Whether `c` is white space: a character with the Unicode property
/// `White_Space`.
pub open spec fn is_whitespace(c: char) -> bool {
    let n = c as u32;
    ||| 0x09 <= n <= 0x0D
    ||| n == 0x20
    ||| n == 0x85
    ||| n == 0xA0
    ||| n == 0x1680
    ||| 0x2000 <= n <= 0x200A
    ||| n == 0x2028
    ||| n == 0x2029
    ||| n == 0x202F
    ||| n == 0x205F
    ||| n == 0x3000
}

/// Whether `c` is a semicolon or a brace.
pub open spec fn is_semicolon_or_brace(c: char) -> bool {
    c == ';' || c == '{' || c == '}'
}

/// `s` without the white space at its start.
pub open spec fn trim_start(s: Seq<char>) -> Seq<char>
    decreases s.len(),
{
    if s.len() > 0 && is_whitespace(s.first()) {
        trim_start(s.drop_first())
    } else {
        s
    }
}

/// `s` without the white space at its end.
pub open spec fn trim_end(s: Seq<char>) -> Seq<char>
    decreases s.len(),
{
    if s.len() > 0 && is_whitespace(s.last()) {
        trim_end(s.drop_last())
    } else {
        s
    }
}

/// `s` without the white space at its two ends.
pub open spec fn trim(s: Seq<char>) -> Seq<char> {
    trim_end(trim_start(s))
}

/// `s` without the semicolons and braces at its start and, if `quote` holds,
/// without one double quote that stands among them.
pub open spec fn unwrapped_start(s: Seq<char>, quote: bool) -> Seq<char>
    decreases s.len(),
{
    if s.len() > 0 && is_semicolon_or_brace(s.first()) {
        unwrapped_start(s.drop_first(), quote)
    } else if s.len() > 0 && s.first() == '"' && quote {
        unwrapped_start(s.drop_first(), false)
    } else {
        s
    }
}

/// `s` without the semicolons and braces at its end and, if `quote` holds,
/// without one double quote that stands among them.
pub open spec fn unwrapped_end(s: Seq<char>, quote: bool) -> Seq<char>
    decreases s.len(),
{
    if s.len() > 0 && is_semicolon_or_brace(s.last()) {
        unwrapped_end(s.drop_last(), quote)
    } else if s.len() > 0 && s.last() == '"' && quote {
        unwrapped_end(s.drop_last(), false)
    } else {
        s
    }
}

/// `s` without what wraps it: at each end the semicolons and braces are
/// removed, and one double quote among them. A second double quote at an end
/// stays, with all that stands inside it.
pub open spec fn unwrapped(s: Seq<char>) -> Seq<char> {
    unwrapped_end(unwrapped_start(s, true), true)
}

/// `s` without `suffix` at its end, if it ends with `suffix`; otherwise `s`.
/// At most one occurrence is removed.
pub open spec fn without_suffix(s: Seq<char>, suffix: Seq<char>) -> Seq<char> {
    if suffix.is_suffix_of(s) {
        s.take(s.len() - suffix.len())
    } else {
        s
    }
}

/// The number of characters of `s` that stand before the first `c`; the
/// length of `s` if `c` does not occur in it.
pub open spec fn position(s: Seq<char>, c: char) -> nat
    decreases s.len(),
{
    if s.len() == 0 || s.first() == c {
        0
    } else {
        1 + position(s.drop_first(), c)
    }
}

/// The lines of `s`. A line ends before a line feed or at the end of the
/// text; the line feed belongs to no line. A text that ends with a line feed
/// has no further, empty line after it, and the empty text has no line.
pub open spec fn lines(s: Seq<char>) -> Seq<Seq<char>>
    decreases s.len(),
{
    if s.len() == 0 {
        Seq::empty()
    } else {
        let k = position(s, '\n');
        if k < s.len() {
            seq![s.take(k as int)] + lines(s.skip((k + 1) as int))
        } else {
            seq![s]
        }
    }
}

/// `position` counts characters of the text that all differ from `c`, and
/// stops at a `c` or at the end.
pub proof fn lemma_position(s: Seq<char>, c: char)
    ensures
        position(s, c) <= s.len(),
        position(s, c) < s.len() ==> s[position(s, c) as int] == c,
        forall|i: int| 0 <= i < position(s, c) ==> s[i] != c,
    decreases s.len(),
{
    if s.len() == 0 || s.first() == c {
    } else {
        lemma_position(s.drop_first(), c);
        let k = position(s.drop_first(), c);
        assert forall|i: int| 0 <= i < k + 1 implies s[i] != c by {
            if i > 0 {
                assert(s[i] == s.drop_first()[i - 1]);
            }
        }
    }
}

/// The number of times that `c` occurs in `s`.
pub open spec fn occurrences(s: Seq<char>, c: char) -> nat
    decreases s.len(),
{
    if s.len() == 0 {
        0
    } else if s.first() == c {
        1 + occurrences(s.drop_first(), c)
    } else {
        occurrences(s.drop_first(), c)
    }
}

/// The first `c` of a text is one occurrence, and the others stand behind
/// it.
proof fn lemma_occurrences(s: Seq<char>, c: char)
    ensures
        position(s, c) <= s.len(),
        position(s, c) < s.len() ==> occurrences(s, c) == 1 + occurrences(
            s.skip((position(s, c) + 1) as int),
            c,
        ),
        position(s, c) == s.len() ==> occurrences(s, c) == 0,
    decreases s.len(),
{
    if s.len() > 0 && s.first() != c {
        let tail = s.drop_first();
        lemma_occurrences(tail, c);
        if position(tail, c) < tail.len() {
            assert(tail.skip((position(tail, c) + 1) as int) == s.skip(
                (position(s, c) + 1) as int,
            ));
        }
    }
}

/// A text has one line for each of its line feeds, and one more if
/// something stands behind the last line feed, or if it is not empty and has
/// none.
pub proof fn lemma_line_count(s: Seq<char>)
    ensures
        lines(s).len() == occurrences(s, '\n') + if s.len() > 0 && s.last() != '\n' {
            1nat
        } else {
            0nat
        },
    decreases s.len(),
{
    if s.len() > 0 {
        lemma_occurrences(s, '\n');
        lemma_position(s, '\n');
        let k = position(s, '\n');
        if k < s.len() {
            let rest = s.skip((k + 1) as int);
            lemma_line_count(rest);
        }
    }
}

/// `String::push`: the string afterwards is the string before with `c` appended
/// at its end.
pub assume_specification[ String::push ](s: &mut String, c: char)
    ensures
        final(s)@ == old(s)@.push(c),
;

/// The characters of `s`, in order.
pub fn to_chars(s: &str) -> (v: Vec<char>)
    ensures
        v@ == s@,
{
    let mut v: Vec<char> = Vec::new();
    for c in it: s.chars()
        invariant
            it.seq() == s@,
            v@ == it.seq().take(it.index() as int),
    {
        v.push(c);
    }
    v
}

/// The string made of the characters of `s`, in order.
pub fn to_string(s: &[char]) -> (r: String)
    ensures
        r@ == s@,
{
    let mut r = String::new();
    let mut i: usize = 0;
    while i < s.len()
        invariant
            i <= s.len(),
            r@ == s@.take(i as int),
        decreases s.len() - i,
    {
        r.push(s[i]);
        i += 1;
    }
    r
}

/// Tests whether `marker` stands in `s` at index `at`.
pub fn matches_at(s: &[char], at: usize, marker: &str) -> (b: bool)
    ensures
        b == (at + marker@.len() <= s@.len() && s@.subrange(
            at as int,
            at + marker@.len(),
        ) == marker@),
{
    if at > s.len() {
        return false;
    }
    let mut i: usize = at;
    for c in it: marker.chars()
        invariant
            it.seq() == marker@,
            i == at + it.index(),
            i <= s.len(),
            forall|j: int| 0 <= j < it.index() ==> s@[at + j] == marker@[j],
    {
        if i >= s.len() || s[i] != c {
            return false;
        }
        i += 1;
    }
    assert(s@.subrange(at as int, at + marker@.len()) =~= marker@);
    true
}

/// Tests whether `s` begins with `marker`.
pub fn starts_with(s: &[char], marker: &str) -> (b: bool)
    ensures
        b == marker@.is_prefix_of(s@),
{
    matches_at(s, 0, marker)
}

/// Tests whether `s` is `marker`.
pub fn equals(s: &[char], marker: &str) -> (b: bool)
    ensures
        b == (s@ == marker@),
{
    let b = matches_at(s, 0, marker);
    let n = marker.unicode_len();
    assert(s@.subrange(0, s@.len() as int) == s@);
    b && n == s.len()
}

/// `s` without one `marker` at its end, if it ends with one.
pub fn drop_suffix<'a>(s: &'a [char], marker: &str) -> (r: &'a [char])
    ensures
        r@ == without_suffix(s@, marker@),
{
    let n = marker.unicode_len();
    if n <= s.len() && matches_at(s, s.len() - n, marker) {
        slice_subrange(s, 0, s.len() - n)
    } else {
        s
    }
}

/// The index of the first `c` in `s`, or the length of `s` if there is none.
pub fn find(s: &[char], c: char) -> (k: usize)
    ensures
        k == position(s@, c),
        k <= s@.len(),
{
    proof {
        lemma_position(s@, c);
    }
    let mut k: usize = 0;
    assert(s@.skip(0) == s@);
    while k < s.len() && s[k] != c
        invariant
            k <= s.len(),
            position(s@, c) == k + position(s@.skip(k as int), c),
        decreases s.len() - k,
    {
        assert(s@.skip(k as int).drop_first() == s@.skip(k + 1));
        k += 1;
    }
    k
}

/// Tests whether `c` is white space.
pub fn is_space(c: char) -> (b: bool)
    ensures
        b == is_whitespace(c),
{
    let n: u32 = c as u32;
    (0x09 <= n && n <= 0x0D) || n == 0x20 || n == 0x85 || n == 0xA0 || n == 0x1680 || (0x2000 <= n
        && n <= 0x200A) || n == 0x2028 || n == 0x2029 || n == 0x202F || n == 0x205F || n == 0x3000
}

/// `s` without the white space at its two ends.
pub fn trim_chars<'a>(s: &'a [char]) -> (r: &'a [char])
    ensures
        r@ == trim(s@),
{
    let mut lo: usize = 0;
    assert(s@.skip(0) == s@);
    while lo < s.len() && is_space(s[lo])
        invariant
            lo <= s.len(),
            trim_start(s@) == trim_start(s@.skip(lo as int)),
        decreases s.len() - lo,
    {
        assert(s@.skip(lo as int).drop_first() == s@.skip(lo + 1));
        lo += 1;
    }
    let mut hi: usize = s.len();
    while hi > lo && is_space(s[hi - 1])
        invariant
            lo <= hi <= s.len(),
            trim(s@) == trim_end(s@.subrange(lo as int, hi as int)),
        decreases hi - lo,
    {
        assert(s@.subrange(lo as int, hi as int).drop_last() == s@.subrange(lo as int, hi - 1));
        hi -= 1;
    }
    slice_subrange(s, lo, hi)
}

/// `s` without what wraps it: the semicolons and braces at its two ends, and
/// one double quote among them at each end.
pub fn unwrap_value<'a>(s: &'a [char]) -> (r: &'a [char])
    ensures
        r@ == unwrapped(s@),
{
    let mut lo: usize = 0;
    let mut quote = true;
    assert(s@.skip(0) == s@);
    while lo < s.len() && (s[lo] == ';' || s[lo] == '{' || s[lo] == '}' || (quote && s[lo] == '"'))
        invariant
            lo <= s.len(),
            unwrapped_start(s@, true) == unwrapped_start(s@.skip(lo as int), quote),
        decreases s.len() - lo,
    {
        assert(s@.skip(lo as int).drop_first() == s@.skip(lo + 1));
        if s[lo] == '"' {
            quote = false;
        }
        lo += 1;
    }
    let mut hi: usize = s.len();
    quote = true;
    while hi > lo && (s[hi - 1] == ';' || s[hi - 1] == '{' || s[hi - 1] == '}' || (quote && s[hi
        - 1] == '"'))
        invariant
            lo <= hi <= s.len(),
            unwrapped(s@) == unwrapped_end(s@.subrange(lo as int, hi as int), quote),
        decreases hi - lo,
    {
        assert(s@.subrange(lo as int, hi as int).drop_last() == s@.subrange(lo as int, hi - 1));
        if s[hi - 1] == '"' {
            quote = false;
        }
        hi -= 1;
    }
    slice_subrange(s, lo, hi)
}

} // verus!
