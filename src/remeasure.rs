//! Tokenizing the atoms of a text, written out again without pauses, gives
//! back the same texts.
use vstd::prelude::*;
use crate::config::PacingConfig;
use crate::pacer::{markup_upto, pause_after, piece};
use crate::text::{is_space, word_count};
use crate::tokenizer::{
    atom_of, classify, is_mark, marks_end, skip_space_back, skip_space_fwd, text_end, tokens,
    tokens_from, trim_range, AtomView,
};

verus! {

/// The atoms written out without pause directives: each atom's text and
/// punctuation, the atoms separated by single spaces.
pub open spec fn plain_text(atoms: Seq<AtomView>) -> Seq<char>
    decreases atoms.len(),
{
    if atoms.len() == 0 {
        Seq::empty()
    } else if atoms.len() == 1 {
        atoms[0].text + atoms[0].punctuation_char
    } else {
        atoms[0].text + atoms[0].punctuation_char + (seq![' '] + plain_text(atoms.drop_first()))
    }
}

pub open spec fn no_marks(t: Seq<char>) -> bool {
    forall|m: int| 0 <= m < t.len() ==> !is_mark(#[trigger] t[m])
}

pub open spec fn only_marks(t: Seq<char>) -> bool {
    forall|m: int| 0 <= m < t.len() ==> is_mark(#[trigger] t[m])
}

/// Text that an atom can hold: not empty, no punctuation, no surrounding
/// whitespace.
pub open spec fn atom_text(t: Seq<char>) -> bool {
    t.len() > 0 && no_marks(t) && !is_space(t[0]) && !is_space(t.last())
}

/// What every sequence of atoms from `tokens` satisfies.
pub open spec fn well_formed(atoms: Seq<AtomView>) -> bool {
    forall|k: int|
        0 <= k < atoms.len() ==> atom_text(#[trigger] atoms[k].text) && only_marks(
            atoms[k].punctuation_char,
        ) && (k < atoms.len() - 1 ==> atoms[k].punctuation_char.len() > 0) && atoms[k].word_count
            == word_count(atoms[k].text)
}

proof fn lemma_text_end_facts(s: Seq<char>, i: int)
    requires
        0 <= i <= s.len(),
    ensures
        i <= text_end(s, i) <= s.len(),
        forall|m: int| i <= m < text_end(s, i) ==> !is_mark(#[trigger] s[m]),
        text_end(s, i) == s.len() || is_mark(s[text_end(s, i)]),
    decreases s.len() - i,
{
    if i < s.len() && !is_mark(s[i]) {
        lemma_text_end_facts(s, i + 1);
    }
}

proof fn lemma_marks_end_facts(s: Seq<char>, i: int)
    requires
        0 <= i <= s.len(),
    ensures
        i <= marks_end(s, i) <= s.len(),
        forall|m: int| i <= m < marks_end(s, i) ==> is_mark(#[trigger] s[m]),
        marks_end(s, i) == s.len() || !is_mark(s[marks_end(s, i)]),
    decreases s.len() - i,
{
    if i < s.len() && is_mark(s[i]) {
        lemma_marks_end_facts(s, i + 1);
    }
}

proof fn lemma_skip_fwd_facts(s: Seq<char>, i: int, hi: int)
    requires
        i <= hi,
    ensures
        i <= skip_space_fwd(s, i, hi) <= hi,
        skip_space_fwd(s, i, hi) < hi ==> !is_space(s[skip_space_fwd(s, i, hi)]),
    decreases hi - i,
{
    if i < hi && is_space(s[i]) {
        lemma_skip_fwd_facts(s, i + 1, hi);
    }
}

proof fn lemma_skip_back_facts(s: Seq<char>, lo: int, j: int)
    requires
        lo <= j,
    ensures
        lo <= skip_space_back(s, lo, j) <= j,
        skip_space_back(s, lo, j) > lo ==> !is_space(s[skip_space_back(s, lo, j) - 1]),
    decreases j - lo,
{
    if j > lo && is_space(s[j - 1]) {
        lemma_skip_back_facts(s, lo, j - 1);
    }
}

proof fn lemma_classify_marks(m: Seq<char>)
    requires
        only_marks(m),
    ensures
        only_marks(classify(m).1),
        m.len() > 0 ==> classify(m).1.len() > 0,
{
    if m.len() > 0 {
        let c = m[0];
        assert(is_mark(c));
        if c == '\n' {
            assert(m.contains('\n'));
        } else if c == ',' {
            assert(m.contains(','));
        }
    }
}

/// Every atom that `tokens_from` yields is well formed.
proof fn lemma_tokens_well_formed(s: Seq<char>, i: int, cfg: PacingConfig)
    requires
        0 <= i <= s.len(),
    ensures
        well_formed(tokens_from(s, i, cfg)),
    decreases s.len() - i,
{
    if i < s.len() {
        if is_mark(s[i]) {
            lemma_tokens_well_formed(s, i + 1, cfg);
        } else {
            lemma_text_end_facts(s, i);
            let e = text_end(s, i);
            lemma_marks_end_facts(s, e);
            let p = marks_end(s, e);
            lemma_text_end_facts(s, i + 1);
            assert(e > i);
            let a = skip_space_fwd(s, i, e);
            lemma_skip_fwd_facts(s, i, e);
            lemma_skip_back_facts(s, a, e);
            let b = skip_space_back(s, a, e);
            let body = trim_range(s, i, e);
            lemma_tokens_well_formed(s, p, cfg);
            if body.len() > 0 {
                let marks = s.subrange(e, p);
                assert(only_marks(marks));
                lemma_classify_marks(marks);
                let x = atom_of(body, marks, cfg);
                let rest = tokens_from(s, p, cfg);
                assert(atom_text(body));
                if p == e {
                    assert(e == s.len());
                    assert(rest.len() == 0);
                }
                let all = tokens_from(s, i, cfg);
                assert(all == seq![x] + rest);
                assert forall|k: int| 0 <= k < all.len() implies atom_text(#[trigger] all[k].text)
                    && only_marks(all[k].punctuation_char) && (k < all.len() - 1
                    ==> all[k].punctuation_char.len() > 0) && all[k].word_count == word_count(
                    all[k].text,
                ) by {
                    if k > 0 {
                        assert(all[k] == rest[k - 1]);
                    }
                }
            }
        }
    }
}

proof fn lemma_text_end_at(s: Seq<char>, i: int, j: int)
    requires
        0 <= i <= j <= s.len(),
        forall|m: int| i <= m < j ==> !is_mark(#[trigger] s[m]),
        j == s.len() || is_mark(s[j]),
    ensures
        text_end(s, i) == j,
    decreases j - i,
{
    if i < j {
        lemma_text_end_at(s, i + 1, j);
    }
}

proof fn lemma_marks_end_at(s: Seq<char>, i: int, j: int)
    requires
        0 <= i <= j <= s.len(),
        forall|m: int| i <= m < j ==> is_mark(#[trigger] s[m]),
        j == s.len() || !is_mark(s[j]),
    ensures
        marks_end(s, i) == j,
    decreases j - i,
{
    if i < j {
        lemma_marks_end_at(s, i + 1, j);
    }
}

/// One atom: `k` spaces, then text `t`, then punctuation `p`, then the end or a
/// character that is not punctuation.
proof fn lemma_one_atom(
    s: Seq<char>,
    i: int,
    k: int,
    t: Seq<char>,
    p: Seq<char>,
    cfg: PacingConfig,
)
    requires
        0 <= i,
        k == 0 || k == 1,
        i + k + t.len() + p.len() <= s.len(),
        k == 1 ==> s[i] == ' ',
        s.subrange(i + k, i + k + t.len()) == t,
        s.subrange(i + k + t.len(), i + k + t.len() + p.len()) == p,
        atom_text(t),
        only_marks(p),
        i + k + t.len() + p.len() == s.len() || !is_mark(s[i + k + t.len() + p.len()]),
        p.len() == 0 ==> i + k + t.len() == s.len(),
    ensures
        tokens_from(s, i, cfg) == seq![atom_of(t, p, cfg)] + tokens_from(
            s,
            i + k + t.len() + p.len(),
            cfg,
        ),
{
    let a = i + k;
    let e = a + t.len();
    let q = e + p.len();
    assert(s[a] == t[0]);
    assert(!is_mark(s[i]));
    assert forall|m: int| i <= m < e implies !is_mark(#[trigger] s[m]) by {
        if m >= a {
            assert(s[m] == t[m - a]);
        }
    }
    if p.len() > 0 {
        assert(s[e] == p[0]);
    }
    lemma_text_end_at(s, i, e);
    assert forall|m: int| e <= m < q implies is_mark(#[trigger] s[m]) by {
        assert(s[m] == p[m - e]);
    }
    lemma_marks_end_at(s, e, q);
    assert(skip_space_fwd(s, a, e) == a);
    if k == 1 {
        assert(skip_space_fwd(s, i, e) == skip_space_fwd(s, a, e));
    }
    assert(s[e - 1] == t[t.len() - 1]);
    assert(skip_space_back(s, a, e) == e);
    assert(trim_range(s, i, e) == t);
}

/// Tokenizing `[' ']` (when `k` is one) followed by the plain text of
/// well-formed atoms gives those atoms' texts back.
proof fn lemma_retokenize(s: Seq<char>, i: int, k: int, atoms: Seq<AtomView>, cfg: PacingConfig)
    requires
        0 <= i,
        k == 0 || k == 1,
        i + k <= s.len(),
        k == 1 ==> s[i] == ' ',
        s.subrange(i + k, s.len() as int) == plain_text(atoms),
        well_formed(atoms),
        atoms.len() > 0,
    ensures
        tokens_from(s, i, cfg) == atoms.map_values(
            |a: AtomView| atom_of(a.text, a.punctuation_char, cfg),
        ),
    decreases atoms.len(),
{
    let t = atoms[0].text;
    let p = atoms[0].punctuation_char;
    let a = i + k;
    let e = a + t.len();
    let q = e + p.len();
    let pt = plain_text(atoms);
    assert(atom_text(atoms[0].text));
    assert(only_marks(atoms[0].punctuation_char));
    if atoms.len() == 1 {
        assert(pt == t + p);
        assert(s.subrange(a, e) =~= t) by {
            assert forall|m: int| 0 <= m < t.len() implies s.subrange(a, e)[m] == t[m] by {
                assert(s[a + m] == pt[m]);
            }
        }
        assert(s.subrange(e, q) =~= p) by {
            assert forall|m: int| 0 <= m < p.len() implies s.subrange(e, q)[m] == p[m] by {
                assert(s[e + m] == pt[t.len() + m]);
            }
        }
        lemma_one_atom(s, i, k, t, p, cfg);
        assert(tokens_from(s, q, cfg) == Seq::<AtomView>::empty());
        assert(tokens_from(s, i, cfg) =~= atoms.map_values(
            |a: AtomView| atom_of(a.text, a.punctuation_char, cfg),
        ));
    } else {
        let rest = atoms.drop_first();
        assert(pt == t + p + (seq![' '] + plain_text(rest)));
        assert(atoms[0].punctuation_char.len() > 0);
        assert(s.subrange(a, e) =~= t) by {
            assert forall|m: int| 0 <= m < t.len() implies s.subrange(a, e)[m] == t[m] by {
                assert(s[a + m] == pt[m]);
            }
        }
        assert(s.subrange(e, q) =~= p) by {
            assert forall|m: int| 0 <= m < p.len() implies s.subrange(e, q)[m] == p[m] by {
                assert(s[e + m] == pt[t.len() + m]);
            }
        }
        assert(s[q] == pt[(t.len() + p.len()) as int]);
        assert(s[q] == ' ');
        lemma_one_atom(s, i, k, t, p, cfg);
        assert(s.subrange(q + 1, s.len() as int) =~= plain_text(rest)) by {
            assert forall|m: int| 0 <= m < plain_text(rest).len() implies s.subrange(
                q + 1,
                s.len() as int,
            )[m] == plain_text(rest)[m] by {
                assert(s[q + 1 + m] == pt[t.len() + p.len() + 1 + m]);
            }
        }
        assert forall|j: int| 0 <= j < rest.len() implies atom_text(#[trigger] rest[j].text)
            && only_marks(rest[j].punctuation_char) && (j < rest.len() - 1
            ==> rest[j].punctuation_char.len() > 0) && rest[j].word_count == word_count(
            rest[j].text,
        ) by {
            assert(rest[j] == atoms[j + 1]);
            assert(atom_text(atoms[j + 1].text));
        }
        lemma_retokenize(s, q, 1, rest, cfg);
        assert(tokens_from(s, i, cfg) =~= atoms.map_values(
            |a: AtomView| atom_of(a.text, a.punctuation_char, cfg),
        ));
    }
}

proof fn lemma_markup_shift(atoms: Seq<AtomView>, m: int, cfg: PacingConfig)
    requires
        1 <= m <= atoms.len(),
    ensures
        markup_upto(atoms, m, 0, cfg) == piece(atoms, 0, 0, cfg) + markup_upto(
            atoms.drop_first(),
            m - 1,
            0,
            cfg,
        ),
    decreases m,
{
    if m > 1 {
        lemma_markup_shift(atoms, m - 1, cfg);
        assert(piece(atoms, m - 1, 0, cfg) == piece(atoms.drop_first(), m - 2, 0, cfg));
    } else {
        assert(markup_upto(atoms, 0, 0, cfg) =~= Seq::<char>::empty());
    }
}

/// With no silence to place, the markup is the atoms written out without
/// pause directives.
pub proof fn lemma_plain_text_is_silent_markup(atoms: Seq<AtomView>, cfg: PacingConfig)
    ensures
        markup_upto(atoms, atoms.len() as int, 0, cfg) == plain_text(atoms),
    decreases atoms.len(),
{
    if atoms.len() > 0 {
        lemma_markup_shift(atoms, atoms.len() as int, cfg);
        lemma_plain_text_is_silent_markup(atoms.drop_first(), cfg);
        if atoms.len() == 1 {
            assert(markup_upto(atoms.drop_first(), 0, 0, cfg) =~= Seq::<char>::empty());
            assert(plain_text(atoms) =~= piece(atoms, 0, 0, cfg));
        } else {
            assert(pause_after(atoms[0].weight, 0, cfg) == 0);
            assert(plain_text(atoms) =~= piece(atoms, 0, 0, cfg) + plain_text(atoms.drop_first()));
        }
    }
}

/// Tokenizing the markup of a text with its pause directives left out (the
/// markup at no silence per unit of weight) gives back atoms with the same
/// texts and word counts.
pub proof fn lemma_remeasure(text: Seq<char>, cfg: PacingConfig)
    ensures
        ({
            let atoms = tokens(text, cfg);
            let again = tokens(markup_upto(atoms, atoms.len() as int, 0, cfg), cfg);
            &&& again.len() == atoms.len()
            &&& forall|k: int|
                0 <= k < atoms.len() ==> (#[trigger] again[k]).text == atoms[k].text
                    && again[k].word_count == atoms[k].word_count
        }),
{
    let atoms = tokens(text, cfg);
    lemma_plain_text_is_silent_markup(atoms, cfg);
    lemma_tokens_well_formed(text, 0, cfg);
    let s = plain_text(atoms);
    if atoms.len() == 0 {
        assert(tokens(s, cfg) =~= Seq::<AtomView>::empty());
    } else {
        assert(s.subrange(0, s.len() as int) =~= s);
        lemma_retokenize(s, 0, 0, atoms, cfg);
        let again = tokens(s, cfg);
        assert forall|k: int| 0 <= k < atoms.len() implies (#[trigger] again[k]).text
            == atoms[k].text && again[k].word_count == atoms[k].word_count by {
            assert(atom_text(atoms[k].text));
        }
    }
}

} // verus!
