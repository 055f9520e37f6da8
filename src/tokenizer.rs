//! Splitting a script into speech atoms: runs of text, each with the run of
//! punctuation that ends it.
use vstd::prelude::*;
use crate::config::{weight_in, PacingConfig};
use crate::text::{count_words, is_space, is_space_char, word_count};

verus! {

/// The kind of punctuation that ends a speech atom.
#[derive(Debug, Clone, Copy, PartialEq, Eq, Structural)]
pub enum PunctuationType {
    /// A comma: short pause.
    Comma,
    /// A period, question mark or exclamation mark: standard pause.
    SentenceEnd,
    /// A newline: long pause.
    Paragraph,
    /// No punctuation (end of text).
    NoPunctuation,
}

pub const WEIGHT_COMMA: u32 = 1;

pub const WEIGHT_SENTENCE: u32 = 3;

pub const WEIGHT_PARAGRAPH: u32 = 5;

/// The default pause weight of each kind of punctuation.
pub open spec fn default_weight(p: PunctuationType) -> u32 {
    match p {
        PunctuationType::Comma => 1,
        PunctuationType::SentenceEnd => 3,
        PunctuationType::Paragraph => 5,
        PunctuationType::NoPunctuation => 0,
    }
}

impl PunctuationType {
    /// The default silence weight of this kind of punctuation.
    pub fn weight(&self) -> (r: u32)
        ensures
            r == default_weight(*self),
    {
        match self {
            PunctuationType::Comma => WEIGHT_COMMA,
            PunctuationType::SentenceEnd => WEIGHT_SENTENCE,
            PunctuationType::Paragraph => WEIGHT_PARAGRAPH,
            PunctuationType::NoPunctuation => 0,
        }
    }
}

/// One unit of speech: text followed by punctuation.
#[derive(Debug, Clone)]
pub struct SpeechAtom {
    /// The text content, without its trailing punctuation.
    pub text: String,
    /// The punctuation that ends this atom.
    pub punctuation: PunctuationType,
    /// The punctuation as it is written back out.
    pub punctuation_char: String,
    /// The silence weight of `punctuation`.
    pub weight: u32,
    /// The number of words in `text`.
    pub word_count: usize,
}

/// What a speech atom holds, as mathematical values.
pub struct AtomView {
    pub text: Seq<char>,
    pub punctuation: PunctuationType,
    pub punctuation_char: Seq<char>,
    pub weight: u32,
    pub word_count: nat,
}

impl View for SpeechAtom {
    type V = AtomView;

    open spec fn view(&self) -> AtomView {
        AtomView {
            text: self.text@,
            punctuation: self.punctuation,
            punctuation_char: self.punctuation_char@,
            weight: self.weight,
            word_count: self.word_count as nat,
        }
    }
}

impl SpeechAtom {
    /// An atom with the default weight of `punctuation` and the word count of `text`.
    pub fn new(text: String, punctuation: PunctuationType, punctuation_char: String) -> (r: Self)
        ensures
            r@ == (AtomView {
                text: text@,
                punctuation,
                punctuation_char: punctuation_char@,
                weight: default_weight(punctuation),
                word_count: word_count(text@),
            }),
    {
        let weight = punctuation.weight();
        let word_count = count_words(text.as_str());
        SpeechAtom { text, punctuation, punctuation_char, weight, word_count }
    }
}

/// The characters that end the text of an atom.
pub open spec fn is_mark(c: char) -> bool {
    c == ',' || c == '.' || c == '?' || c == '!' || c == '\n'
}

pub open spec fn is_sentence_mark(c: char) -> bool {
    c == '.' || c == '?' || c == '!'
}

/// The kind of a run of punctuation and how it is written back out: a newline
/// anywhere makes a paragraph, else a sentence mark makes a sentence end (kept
/// as the run's first character), else a comma makes a comma.
pub open spec fn classify(p: Seq<char>) -> (PunctuationType, Seq<char>) {
    if p.contains('\n') {
        (PunctuationType::Paragraph, seq!['\n'])
    } else if exists|k: int| 0 <= k < p.len() && is_sentence_mark(#[trigger] p[k]) {
        (PunctuationType::SentenceEnd, seq![p[0]])
    } else if p.contains(',') {
        (PunctuationType::Comma, seq![','])
    } else {
        (PunctuationType::NoPunctuation, Seq::empty())
    }
}

/// Classifies a run of punctuation (see `classify`).
pub fn classify_punctuation(punct: &str) -> (r: (PunctuationType, String))
    ensures
        r.0 == classify(punct@).0,
        r.1@ == classify(punct@).1,
{
    let n = punct.unicode_len();
    let mut newline = false;
    let mut sentence = false;
    let mut comma = false;
    let mut i: usize = 0;
    while i < n
        invariant
            n == punct@.len(),
            0 <= i <= n,
            newline == exists|k: int| 0 <= k < i && punct@[k] == '\n',
            sentence == exists|k: int| 0 <= k < i && is_sentence_mark(#[trigger] punct@[k]),
            comma == exists|k: int| 0 <= k < i && punct@[k] == ',',
        decreases n - i,
    {
        let c = punct.get_char(i);
        if c == '\n' {
            newline = true;
        }
        if c == '.' || c == '?' || c == '!' {
            sentence = true;
        }
        if c == ',' {
            comma = true;
        }
        i = i + 1;
    }
    if newline {
        proof {
            reveal_strlit("\n");
            assert(seq!['\n'] =~= "\n"@);
        }
        (PunctuationType::Paragraph, String::from_str("\n"))
    } else if sentence {
        let first = String::from_str(punct.substring_char(0, 1));
        proof {
            assert(first@ =~= seq![punct@[0]]);
        }
        (PunctuationType::SentenceEnd, first)
    } else if comma {
        proof {
            reveal_strlit(",");
            assert(seq![','] =~= ","@);
        }
        (PunctuationType::Comma, String::from_str(","))
    } else {
        (PunctuationType::NoPunctuation, String::new())
    }
}

} // verus!

verus! {

/// First index at or after `i` (below `hi`) that is not whitespace, else `hi`.
pub open spec fn skip_space_fwd(s: Seq<char>, i: int, hi: int) -> int
    decreases hi - i,
{
    if i >= hi || !is_space(s[i]) {
        i
    } else {
        skip_space_fwd(s, i + 1, hi)
    }
}

/// Last end at or before `j` (above `lo`) that does not follow whitespace, else `lo`.
pub open spec fn skip_space_back(s: Seq<char>, lo: int, j: int) -> int
    decreases j - lo,
{
    if j <= lo || !is_space(s[j - 1]) {
        j
    } else {
        skip_space_back(s, lo, j - 1)
    }
}

/// `s[lo..hi]` with leading and trailing whitespace removed.
pub open spec fn trim_range(s: Seq<char>, lo: int, hi: int) -> Seq<char> {
    let a = skip_space_fwd(s, lo, hi);
    s.subrange(a, skip_space_back(s, a, hi))
}

/// End of the run of non-punctuation characters that starts at `i`.
pub open spec fn text_end(s: Seq<char>, i: int) -> int
    decreases s.len() - i,
{
    if i >= s.len() || is_mark(s[i]) {
        i
    } else {
        text_end(s, i + 1)
    }
}

/// End of the run of punctuation characters that starts at `i`.
pub open spec fn marks_end(s: Seq<char>, i: int) -> int
    decreases s.len() - i,
{
    if i >= s.len() || !is_mark(s[i]) {
        i
    } else {
        marks_end(s, i + 1)
    }
}

/// The atom made of `text` and the run of punctuation `marks`.
pub open spec fn atom_of(text: Seq<char>, marks: Seq<char>, cfg: PacingConfig) -> AtomView {
    let (p, written) = classify(marks);
    AtomView {
        text,
        punctuation: p,
        punctuation_char: written,
        weight: weight_in(cfg, p),
        word_count: word_count(text),
    }
}

/// The atoms of `s` from index `i` on. A punctuation character that follows no
/// text is skipped; a run of text and the punctuation run after it make one
/// atom, with the text trimmed; a run whose text is all whitespace makes none.
pub open spec fn tokens_from(s: Seq<char>, i: int, cfg: PacingConfig) -> Seq<AtomView>
    decreases s.len() - i,
{
    if i < 0 || i >= s.len() {
        Seq::empty()
    } else if is_mark(s[i]) {
        tokens_from(s, i + 1, cfg)
    } else {
        let e = text_end(s, i);
        let p = marks_end(s, e);
        let body = trim_range(s, i, e);
        if p <= i || p > s.len() {
            Seq::empty()
        } else if body.len() == 0 {
            tokens_from(s, p, cfg)
        } else {
            seq![atom_of(body, s.subrange(e, p), cfg)] + tokens_from(s, p, cfg)
        }
    }
}

/// The atoms of a whole text.
pub open spec fn tokens(s: Seq<char>, cfg: PacingConfig) -> Seq<AtomView> {
    tokens_from(s, 0, cfg)
}

/// Total length of the texts of `atoms`.
pub open spec fn text_len_sum(atoms: Seq<AtomView>) -> nat
    decreases atoms.len(),
{
    if atoms.len() == 0 {
        0
    } else {
        text_len_sum(atoms.drop_last()) + atoms.last().text.len()
    }
}

fn is_mark_char(c: char) -> (r: bool)
    ensures
        r == is_mark(c),
{
    c == ',' || c == '.' || c == '?' || c == '!' || c == '\n'
}

proof fn lemma_text_end_bounds(s: Seq<char>, i: int)
    requires
        0 <= i <= s.len(),
    ensures
        i <= text_end(s, i) <= s.len(),
    decreases s.len() - i,
{
    if i < s.len() && !is_mark(s[i]) {
        lemma_text_end_bounds(s, i + 1);
    }
}

/// Index of the end of the run that starts at `i`, of punctuation when
/// `marks` holds, else of text.
fn scan_run(text: &str, i: usize, n: usize, marks: bool) -> (r: usize)
    requires
        n == text@.len(),
        i <= n,
    ensures
        marks ==> r == marks_end(text@, i as int),
        !marks ==> r == text_end(text@, i as int),
        i <= r <= n,
{
    let mut j = i;
    while j < n && is_mark_char(text.get_char(j)) == marks
        invariant
            n == text@.len(),
            i <= j <= n,
            marks ==> marks_end(text@, i as int) == marks_end(text@, j as int),
            !marks ==> text_end(text@, i as int) == text_end(text@, j as int),
        decreases n - j,
    {
        j = j + 1;
    }
    j
}

/// The bounds of `text[lo..hi]` with surrounding whitespace removed.
fn trim_bounds(text: &str, lo: usize, hi: usize) -> (r: (usize, usize))
    requires
        lo <= hi <= text@.len(),
    ensures
        r.0 == skip_space_fwd(text@, lo as int, hi as int),
        r.1 == skip_space_back(text@, r.0 as int, hi as int),
        lo <= r.0 <= r.1 <= hi,
{
    let mut a = lo;
    while a < hi && is_space_char(text.get_char(a))
        invariant
            lo <= a <= hi <= text@.len(),
            skip_space_fwd(text@, lo as int, hi as int) == skip_space_fwd(text@, a as int, hi as int),
        decreases hi - a,
    {
        a = a + 1;
    }
    let mut b = hi;
    while b > a && is_space_char(text.get_char(b - 1))
        invariant
            a <= b <= hi <= text@.len(),
            skip_space_back(text@, a as int, hi as int) == skip_space_back(text@, a as int, b as int),
        decreases b - a,
    {
        b = b - 1;
    }
    (a, b)
}

/// Splits `text` into speech atoms, weighted by `cfg`.
pub fn atomize(text: &str, cfg: &PacingConfig) -> (r: Vec<SpeechAtom>)
    ensures
        r@.map_values(|a: SpeechAtom| a@) == tokens(text@, *cfg),
        text_len_sum(r@.map_values(|a: SpeechAtom| a@)) <= text@.len(),
        forall|j: int| 0 <= j < r.len() ==> #[trigger] r@[j].word_count == word_count(r@[j].text@),
{
    let n = text.unicode_len();
    let mut atoms: Vec<SpeechAtom> = Vec::new();
    let mut i: usize = 0;
    while i < n
        invariant
            n == text@.len(),
            0 <= i <= n,
            atoms@.map_values(|a: SpeechAtom| a@) + tokens_from(text@, i as int, *cfg) == tokens(
                text@,
                *cfg,
            ),
            text_len_sum(atoms@.map_values(|a: SpeechAtom| a@)) <= i,
            forall|j: int|
                0 <= j < atoms.len() ==> #[trigger] atoms@[j].word_count == word_count(
                    atoms@[j].text@,
                ),
        decreases n - i,
    {
        let ghost prev = atoms@.map_values(|a: SpeechAtom| a@);
        if is_mark_char(text.get_char(i)) {
            i = i + 1;
        } else {
            let e = scan_run(text, i, n, false);
            let p = scan_run(text, e, n, true);
            proof {
                lemma_text_end_bounds(text@, i as int + 1);
            }
            let (a, b) = trim_bounds(text, i, e);
            if a < b {
                let body = String::from_str(text.substring_char(a, b));
                let (punctuation, punctuation_char) = classify_punctuation(
                    text.substring_char(e, p),
                );
                let weight = cfg.weight_of(punctuation);
                let word_count = count_words(body.as_str());
                let atom = SpeechAtom { text: body, punctuation, punctuation_char, weight, word_count };
                atoms.push(atom);
                proof {
                    let cur = atoms@.map_values(|a: SpeechAtom| a@);
                    assert(cur =~= prev.push(atom@));
                    assert(cur.drop_last() =~= prev);
                    assert(atom@ == atom_of(trim_range(text@, i as int, e as int), text@.subrange(e as int, p as int), *cfg));
                    assert(prev + tokens_from(text@, i as int, *cfg) =~= cur + tokens_from(text@, p as int, *cfg));
                }
            } else {
                proof {
                    assert(trim_range(text@, i as int, e as int).len() == 0);
                }
            }
            i = p;
        }
    }
    atoms
}

} // verus!
