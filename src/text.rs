//! Character classes and counts over text seen as a sequence of chars.
use vstd::prelude::*;

verus! {

/// The Unicode `White_Space` property: the characters that `char::is_whitespace`
/// accepts.
pub open spec fn is_space(c: char) -> bool {
    let u = c as u32;
    (0x9 <= u && u <= 0xd) || u == 0x20 || u == 0x85 || u == 0xa0 || u == 0x1680 || (0x2000 <= u
        && u <= 0x200a) || u == 0x2028 || u == 0x2029 || u == 0x202f || u == 0x205f || u == 0x3000
}

/// Number of characters of `s[0..n]` that are not whitespace.
pub open spec fn visible_upto(s: Seq<char>, n: int) -> nat
    decreases n,
{
    if n <= 0 {
        0
    } else {
        visible_upto(s, n - 1) + if is_space(s[n - 1]) {
            0nat
        } else {
            1nat
        }
    }
}

/// Number of characters of `s` that are not whitespace.
pub open spec fn visible_count(s: Seq<char>) -> nat {
    visible_upto(s, s.len() as int)
}

/// Position `k` holds the first character of a word: a non-whitespace
/// character at the start or right after whitespace.
pub open spec fn starts_word(s: Seq<char>, k: int) -> bool {
    !is_space(s[k]) && (k == 0 || is_space(s[k - 1]))
}

/// Number of words that start in `s[0..n]`.
pub open spec fn words_upto(s: Seq<char>, n: int) -> nat
    decreases n,
{
    if n <= 0 {
        0
    } else {
        words_upto(s, n - 1) + if starts_word(s, n - 1) {
            1nat
        } else {
            0nat
        }
    }
}

/// Number of maximal runs of non-whitespace characters in `s`.
pub open spec fn word_count(s: Seq<char>) -> nat {
    words_upto(s, s.len() as int)
}

pub proof fn lemma_counts_bounded(s: Seq<char>, n: int)
    requires
        0 <= n <= s.len(),
    ensures
        words_upto(s, n) <= visible_upto(s, n) <= n,
    decreases n,
{
    if n > 0 {
        lemma_counts_bounded(s, n - 1);
    }
}

/// Whether `c` is whitespace in the sense of `is_space`.
pub fn is_space_char(c: char) -> (r: bool)
    ensures
        r == is_space(c),
{
    let u = c as u32;
    (0x9 <= u && u <= 0xd) || u == 0x20 || u == 0x85 || u == 0xa0 || u == 0x1680 || (0x2000 <= u
        && u <= 0x200a) || u == 0x2028 || u == 0x2029 || u == 0x202f || u == 0x205f || u == 0x3000
}

/// Number of whitespace-separated words in `text`.
pub fn count_words(text: &str) -> (r: usize)
    ensures
        r == word_count(text@),
{
    let n = text.unicode_len();
    let mut count: usize = 0;
    let mut prev_space = true;
    let mut i: usize = 0;
    while i < n
        invariant
            n == text@.len(),
            0 <= i <= n,
            count == words_upto(text@, i as int),
            i > 0 ==> prev_space == is_space(text@[i - 1]),
            i == 0 ==> prev_space,
        decreases n - i,
    {
        proof {
            lemma_counts_bounded(text@, i as int);
        }
        let c = text.get_char(i);
        let sp = is_space_char(c);
        if !sp && prev_space {
            count = count + 1;
        }
        prev_space = sp;
        i = i + 1;
    }
    count
}

/// Number of characters of `text` that are not whitespace.
pub fn count_visible(text: &str) -> (r: usize)
    ensures
        r == visible_count(text@),
{
    let n = text.unicode_len();
    let mut count: usize = 0;
    let mut i: usize = 0;
    while i < n
        invariant
            n == text@.len(),
            0 <= i <= n,
            count == visible_upto(text@, i as int),
        decreases n - i,
    {
        proof {
            lemma_counts_bounded(text@, i as int);
        }
        if !is_space_char(text.get_char(i)) {
            count = count + 1;
        }
        i = i + 1;
    }
    count
}

} // verus!
