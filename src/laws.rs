//! Properties that hold of every input.
use vstd::prelude::*;
use crate::config::PacingConfig;
use crate::pacer::{buffered, markup_upto, pacing, per_unit, piece, shared_weight};
use crate::tokenizer::{tokens, AtomView};

verus! {

/// The markup ends with the last atom's text and punctuation: no pause and no
/// space follows the last atom.
pub proof fn lemma_markup_ends_with_last_atom(text: Seq<char>, target: nat, cfg: PacingConfig)
    requires
        tokens(text, cfg).len() > 0,
    ensures
        ({
            let atoms = tokens(text, cfg);
            let last = atoms.last();
            let m = pacing(atoms, target, cfg).markup;
            let tail = last.text + last.punctuation_char;
            m.len() >= tail.len() && m.subrange(m.len() - tail.len(), m.len() as int) == tail
        }),
{
    let atoms = tokens(text, cfg);
    let r = pacing(atoms, target, cfg);
    let n = atoms.len() as int;
    let unit = per_unit(buffered(r.raw_silence, cfg), shared_weight(atoms));
    let last = atoms.last();
    let tail = last.text + last.punctuation_char;
    let m = r.markup;
    assert(piece(atoms, n - 1, unit, cfg) == tail);
    let prefix = markup_upto(atoms, n - 1, unit, cfg);
    assert(m == prefix + tail);
    assert(m.subrange(m.len() - tail.len(), m.len() as int) =~= tail);
}

/// Neither silence budget is negative and the budget before the buffer is the
/// target less the estimated speech, or zero where speech alone fills the
/// target.
pub proof fn lemma_silence_non_negative(text: Seq<char>, target: nat, cfg: PacingConfig)
    ensures
        ({
            let r = pacing(tokens(text, cfg), target, cfg);
            &&& r.raw_silence >= 0
            &&& r.silence_added >= 0
            &&& r.raw_silence == (if target > r.speech {
                target - r.speech
            } else {
                0
            })
            &&& r.speech >= target ==> r.raw_silence == 0
        }),
{
}

/// The final budget is the raw budget times the safety buffer (in thousandths,
/// rounded down to the millisecond).
pub proof fn lemma_safety_buffer_applied(text: Seq<char>, target: nat, cfg: PacingConfig)
    ensures
        ({
            let r = pacing(tokens(text, cfg), target, cfg);
            r.final_silence == r.raw_silence * (cfg.silence_safety_buffer_permille as nat) / 1000
        }),
{
}

/// Text without characters is paced as nothing: no atoms, words or characters,
/// and empty markup.
pub proof fn lemma_empty_text(target: nat, cfg: PacingConfig)
    ensures
        ({
            let r = pacing(tokens(Seq::empty(), cfg), target, cfg);
            &&& r.atom_count == 0
            &&& r.total_words == 0
            &&& r.total_chars == 0
            &&& r.markup.len() == 0
            &&& r.raw_silence == target
        }),
{
    assert(tokens(Seq::empty(), cfg) =~= Seq::<AtomView>::empty());
}

} // verus!
