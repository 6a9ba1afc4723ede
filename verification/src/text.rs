//! Characters and words of a line of text.
//!
//! A word is a longest run of characters that holds no white space. Words
//! are addressed by character positions in the line they come from.

use vstd::prelude::*;

verus! {

/// Whether `c` is white space: one of the code points with the Unicode
/// property `White_Space`.
pub open spec fn is_space(c: char) -> bool {
    ||| '\u{9}' <= c && c <= '\u{D}'
    ||| c == ' '
    ||| c == '\u{85}'
    ||| c == '\u{A0}'
    ||| c == '\u{1680}'
    ||| '\u{2000}' <= c && c <= '\u{200A}'
    ||| c == '\u{2028}'
    ||| c == '\u{2029}'
    ||| c == '\u{202F}'
    ||| c == '\u{205F}'
    ||| c == '\u{3000}'
}

/// Tells white space from other characters.
pub fn is_whitespace(c: char) -> (b: bool)
    ensures
        b == is_space(c),
{
    ('\u{9}' <= c && c <= '\u{D}') || c == ' ' || c == '\u{85}' || c == '\u{A0}' || c
        == '\u{1680}' || ('\u{2000}' <= c && c <= '\u{200A}') || c == '\u{2028}' || c
        == '\u{2029}' || c == '\u{202F}' || c == '\u{205F}' || c == '\u{3000}'
}

/// The upper-case form of an ASCII letter; any other character is itself.
pub open spec fn ascii_upper(c: char) -> char {
    if 'a' <= c && c <= 'z' {
        ((c as u8) - 32) as u8 as char
    } else {
        c
    }
}

/// Maps an ASCII lower-case letter to its upper-case form.
pub fn to_ascii_upper(c: char) -> (u: char)
    ensures
        u == ascii_upper(c),
{
    if 'a' <= c && c <= 'z' {
        ((c as u8) - 32) as char
    } else {
        c
    }
}

/// Whether two texts are the same up to the case of ASCII letters.
pub open spec fn same_ignoring_case(a: Seq<char>, b: Seq<char>) -> bool {
    &&& a.len() == b.len()
    &&& forall|i: int| 0 <= i < a.len() ==> ascii_upper(#[trigger] a[i]) == ascii_upper(b[i])
}

/// Whether `text` begins with `prefix`.
pub open spec fn has_prefix(text: Seq<char>, prefix: Seq<char>) -> bool {
    prefix.len() <= text.len() && text.take(prefix.len() as int) == prefix
}

/// Whether `line` ends with a carriage return and a line feed.
pub open spec fn ends_with_crlf(line: Seq<char>) -> bool {
    line.len() >= 2 && line[line.len() - 2] == '\r' && line[line.len() - 1] == '\n'
}

/// The first position at or after `i` that holds no white space, or the end
/// of the text.
pub open spec fn skip_spaces(s: Seq<char>, i: int) -> int
    decreases s.len() - i,
{
    if 0 <= i < s.len() && is_space(s[i]) {
        skip_spaces(s, i + 1)
    } else {
        i
    }
}

/// The first position at or after `i` that holds white space, or the end of
/// the text.
pub open spec fn word_end(s: Seq<char>, i: int) -> int
    decreases s.len() - i,
{
    if 0 <= i < s.len() && !is_space(s[i]) {
        word_end(s, i + 1)
    } else {
        i
    }
}

/// Where the scans stop: inside the text, on the first character of the
/// other kind.
pub proof fn lemma_scan_bounds(s: Seq<char>, i: int)
    requires
        0 <= i <= s.len(),
    ensures
        i <= skip_spaces(s, i) <= s.len(),
        skip_spaces(s, i) < s.len() ==> !is_space(s[skip_spaces(s, i)]),
        forall|j: int| i <= j < skip_spaces(s, i) ==> is_space(#[trigger] s[j]),
        i <= word_end(s, i) <= s.len(),
        word_end(s, i) < s.len() ==> is_space(s[word_end(s, i)]),
        forall|j: int| i <= j < word_end(s, i) ==> !is_space(#[trigger] s[j]),
        i < s.len() && !is_space(s[i]) ==> i < word_end(s, i),
    decreases s.len() - i,
{
    if i < s.len() {
        lemma_scan_bounds(s, i + 1);
    }
}

/// The words of `s` that begin at or after position `i`, in order.
pub open spec fn words_from(s: Seq<char>, i: int) -> Seq<Seq<char>>
    decreases s.len() - i,
{
    let start = skip_spaces(s, i);
    if 0 <= i && start < s.len() {
        let end = word_end(s, start);
        proof {
            lemma_scan_bounds(s, i);
            lemma_scan_bounds(s, start);
        }
        seq![s.subrange(start, end)] + words_from(s, end)
    } else {
        Seq::empty()
    }
}

/// The words of `s`: its longest runs of characters other than white space.
pub open spec fn words(s: Seq<char>) -> Seq<Seq<char>> {
    words_from(s, 0)
}

/// The characters of `s`, in order.
pub fn chars_of(s: &str) -> (v: Vec<char>)
    ensures
        v@ == s@,
{
    let mut v: Vec<char> = Vec::new();
    for c in it: s.chars()
        invariant
            v@ == it.seq().take(it.index() as int),
    {
        v.push(c);
    }
    v
}

/// Finds the next word at or after position `from`: the positions of its
/// first character and of the character after its last.
pub fn next_word(chars: &Vec<char>, from: usize) -> (r: Option<(usize, usize)>)
    requires
        from <= chars.len(),
    ensures
        match r {
            None => words_from(chars@, from as int) == Seq::<Seq<char>>::empty(),
            Some((start, end)) => {
                &&& from <= start < end <= chars.len()
                &&& start == skip_spaces(chars@, from as int)
                &&& end == word_end(chars@, start as int)
                &&& words_from(chars@, from as int) == seq![
                    chars@.subrange(start as int, end as int),
                ] + words_from(chars@, end as int)
            },
        },
{
    let n = chars.len();
    let mut start: usize = from;
    while start < n && is_whitespace(chars[start])
        invariant
            n == chars.len(),
            from <= start <= n,
            skip_spaces(chars@, from as int) == skip_spaces(chars@, start as int),
        decreases n - start,
    {
        start = start + 1;
    }
    if start >= n {
        return None;
    }
    let mut end: usize = start + 1;
    while end < n && !is_whitespace(chars[end])
        invariant
            n == chars.len(),
            start < end <= n,
            !is_space(chars@[start as int]),
            word_end(chars@, start as int) == word_end(chars@, end as int),
        decreases n - end,
    {
        end = end + 1;
    }
    Some((start, end))
}

/// Whether the characters from `start` up to `end` are `text`.
pub fn range_is(chars: &Vec<char>, start: usize, end: usize, text: &str) -> (b: bool)
    requires
        start <= end <= chars.len(),
    ensures
        b == (chars@.subrange(start as int, end as int) == text@),
{
    let want = chars_of(text);
    if want.len() != end - start {
        return false;
    }
    let ghost have = chars@.subrange(start as int, end as int);
    let mut k: usize = 0;
    while k < want.len()
        invariant
            start <= end <= chars.len(),
            want.len() == end - start,
            want@ == text@,
            have == chars@.subrange(start as int, end as int),
            k <= want.len(),
            forall|j: int| 0 <= j < k ==> have[j] == want@[j],
        decreases want.len() - k,
    {
        if chars[start + k] != want[k] {
            assert(have[k as int] != want@[k as int]);
            return false;
        }
        k = k + 1;
    }
    assert(have =~= want@);
    true
}

/// Whether the characters from `start` up to `end` are `text` up to the case
/// of ASCII letters.
pub fn range_is_ignoring_case(chars: &Vec<char>, start: usize, end: usize, text: &str) -> (b:
    bool)
    requires
        start <= end <= chars.len(),
    ensures
        b == same_ignoring_case(chars@.subrange(start as int, end as int), text@),
{
    let want = chars_of(text);
    if want.len() != end - start {
        return false;
    }
    let ghost have = chars@.subrange(start as int, end as int);
    let mut k: usize = 0;
    while k < want.len()
        invariant
            start <= end <= chars.len(),
            want.len() == end - start,
            want@ == text@,
            have == chars@.subrange(start as int, end as int),
            k <= want.len(),
            forall|j: int| 0 <= j < k ==> ascii_upper(#[trigger] have[j]) == ascii_upper(want@[j]),
        decreases want.len() - k,
    {
        if to_ascii_upper(chars[start + k]) != to_ascii_upper(want[k]) {
            assert(ascii_upper(have[k as int]) != ascii_upper(want@[k as int]));
            return false;
        }
        k = k + 1;
    }
    true
}

/// Whether the characters from `start` up to `end` begin with `prefix`.
pub fn range_has_prefix(chars: &Vec<char>, start: usize, end: usize, prefix: &str) -> (b: bool)
    requires
        start <= end <= chars.len(),
    ensures
        b == has_prefix(chars@.subrange(start as int, end as int), prefix@),
{
    let want = chars_of(prefix);
    if want.len() > end - start {
        return false;
    }
    let b = range_is(chars, start, start + want.len(), prefix);
    assert(chars@.subrange(start as int, end as int).take(want.len() as int) =~= chars@.subrange(
        start as int,
        start + want.len(),
    ));
    b
}

} // verus!
