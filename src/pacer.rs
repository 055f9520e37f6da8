//! Distributing a silence budget over the atoms of a script.
use vstd::prelude::*;
use vstd::arithmetic::div_mod::lemma_fundamental_div_mod;
use crate::config::{default_config, PacingConfig, TARGET_WORDS_PER_MINUTE};
use crate::markup::{break_tag, push_break_tag};
use crate::text::{count_visible, lemma_counts_bounded, visible_count, word_count};
use crate::tokenizer::{atomize, text_len_sum, tokens, AtomView, SpeechAtom};

verus! {

/// The pause directives for a pause of `rem` milliseconds: directives of at
/// most `max_break_millis` each, until what is left is at most
/// `min_break_millis`.
pub open spec fn break_tags(rem: nat, cfg: PacingConfig) -> Seq<char>
    decreases rem,
{
    if cfg.max_break_millis > 0 && rem > cfg.min_break_millis {
        let d = if rem < cfg.max_break_millis {
            rem
        } else {
            cfg.max_break_millis as nat
        };
        break_tag(d) + break_tags((rem - d) as nat, cfg)
    } else {
        Seq::empty()
    }
}

/// Sum of the weights of `atoms[0..n]`.
pub open spec fn weight_upto(atoms: Seq<AtomView>, n: int) -> nat
    decreases n,
{
    if n <= 0 {
        0
    } else {
        weight_upto(atoms, n - 1) + atoms[n - 1].weight as nat
    }
}

/// Non-whitespace characters in the texts of `atoms[0..n]`.
pub open spec fn chars_upto(atoms: Seq<AtomView>, n: int) -> nat
    decreases n,
{
    if n <= 0 {
        0
    } else {
        chars_upto(atoms, n - 1) + visible_count(atoms[n - 1].text)
    }
}

/// Words in `atoms[0..n]`.
pub open spec fn words_in_upto(atoms: Seq<AtomView>, n: int) -> nat
    decreases n,
{
    if n <= 0 {
        0
    } else {
        words_in_upto(atoms, n - 1) + atoms[n - 1].word_count
    }
}

/// The pause after an atom of weight `w`, at `per_unit` milliseconds per unit
/// of weight: none where it would fall below the minimum.
pub open spec fn pause_after(w: u32, per_unit: nat, cfg: PacingConfig) -> nat {
    if w > 0 && per_unit > 0 && w * per_unit >= cfg.min_break_millis {
        (w as nat) * per_unit
    } else {
        0
    }
}

/// What atom `k` of `atoms` contributes to the markup: its text and punctuation,
/// then, but for the last atom, its pause and a space.
pub open spec fn piece(atoms: Seq<AtomView>, k: int, per_unit: nat, cfg: PacingConfig) -> Seq<
    char,
> {
    let a = atoms[k];
    if k == atoms.len() - 1 {
        a.text + a.punctuation_char
    } else {
        let pause = pause_after(a.weight, per_unit, cfg);
        a.text + a.punctuation_char + (if pause > 0 {
            break_tags(pause, cfg)
        } else {
            Seq::empty()
        }) + seq![' ']
    }
}

/// The markup of `atoms[0..n]`.
pub open spec fn markup_upto(atoms: Seq<AtomView>, n: int, per_unit: nat, cfg: PacingConfig) -> Seq<
    char,
>
    decreases n,
{
    if n <= 0 {
        Seq::empty()
    } else {
        markup_upto(atoms, n - 1, per_unit, cfg) + piece(atoms, n - 1, per_unit, cfg)
    }
}

/// The silence placed after `atoms[0..n]`; the last atom gets none.
pub open spec fn silence_upto(atoms: Seq<AtomView>, n: int, per_unit: nat, cfg: PacingConfig) -> nat
    decreases n,
{
    if n <= 0 {
        0
    } else {
        silence_upto(atoms, n - 1, per_unit, cfg) + if n - 1 == atoms.len() - 1 {
            0
        } else {
            pause_after(atoms[n - 1].weight, per_unit, cfg)
        }
    }
}

/// The result of pacing, as mathematical values (durations in milliseconds).
pub struct PacingView {
    pub markup: Seq<char>,
    pub total_chars: nat,
    pub total_words: nat,
    pub speech: nat,
    pub raw_silence: nat,
    pub final_silence: nat,
    pub silence_added: nat,
    pub target: nat,
    pub total: nat,
    pub atom_count: nat,
}

/// Estimated speech time of `chars` characters; none at a rate of zero.
pub open spec fn speech_millis(chars: nat, cfg: PacingConfig) -> nat {
    if cfg.chars_per_second == 0 {
        0
    } else {
        chars * 1000 / (cfg.chars_per_second as nat)
    }
}

/// The time left for silence: target minus speech, and never below zero.
pub open spec fn raw_silence(target: nat, speech: nat) -> nat {
    if target > speech {
        (target - speech) as nat
    } else {
        0
    }
}

/// The silence budget after the safety buffer.
pub open spec fn buffered(raw: nat, cfg: PacingConfig) -> nat {
    raw * (cfg.silence_safety_buffer_permille as nat) / 1000
}

/// Weight that shares the budget: that of every atom but the last.
pub open spec fn shared_weight(atoms: Seq<AtomView>) -> nat {
    weight_upto(atoms, atoms.len() - 1)
}

/// Milliseconds of silence per unit of weight; none where no weight shares it.
pub open spec fn per_unit(budget: nat, weight: nat) -> nat {
    if weight > 0 {
        budget / weight
    } else {
        0
    }
}

/// The pacing of `atoms` toward `target` milliseconds under `cfg`.
pub open spec fn pacing(atoms: Seq<AtomView>, target: nat, cfg: PacingConfig) -> PacingView {
    let n = atoms.len() as int;
    let chars = chars_upto(atoms, n);
    let speech = speech_millis(chars, cfg);
    let raw = raw_silence(target, speech);
    let fin = buffered(raw, cfg);
    let unit = per_unit(fin, shared_weight(atoms));
    let silence = silence_upto(atoms, n, unit, cfg);
    PacingView {
        markup: markup_upto(atoms, n, unit, cfg),
        total_chars: chars,
        total_words: words_in_upto(atoms, n),
        speech,
        raw_silence: raw,
        final_silence: fin,
        silence_added: silence,
        target,
        total: speech + silence,
        atom_count: atoms.len(),
    }
}

/// Result of the pacing calculation. Durations are in milliseconds.
#[derive(Debug, Clone)]
pub struct PacingResult {
    /// The markup with pause directives.
    pub ssml: String,
    /// Characters of the atoms' texts, whitespace excluded.
    pub total_chars: usize,
    /// Words of the atoms' texts.
    pub total_words: usize,
    /// Estimated speech time.
    pub estimated_speech_millis: u128,
    /// Silence budget before the safety buffer.
    pub raw_silence_budget: u128,
    /// Silence budget after the safety buffer.
    pub final_silence_budget: u128,
    /// Silence actually placed.
    pub total_silence_added: u128,
    /// The requested duration.
    pub target_duration_millis: u64,
    /// Estimated speech plus placed silence.
    pub estimated_total_millis: u128,
    /// Number of speech atoms.
    pub atom_count: usize,
}

impl View for PacingResult {
    type V = PacingView;

    open spec fn view(&self) -> PacingView {
        PacingView {
            markup: self.ssml@,
            total_chars: self.total_chars as nat,
            total_words: self.total_words as nat,
            speech: self.estimated_speech_millis as nat,
            raw_silence: self.raw_silence_budget as nat,
            final_silence: self.final_silence_budget as nat,
            silence_added: self.total_silence_added as nat,
            target: self.target_duration_millis as nat,
            total: self.estimated_total_millis as nat,
            atom_count: self.atom_count as nat,
        }
    }
}

/// The meditation pacing engine.
#[derive(Debug, Clone)]
pub struct MeditationPacer {
    pub config: PacingConfig,
}

proof fn lemma_weight_mono(atoms: Seq<AtomView>, a: int, b: int)
    requires
        a <= b,
    ensures
        weight_upto(atoms, a) <= weight_upto(atoms, b),
    decreases b - a,
{
    if a < b {
        lemma_weight_mono(atoms, a, b - 1);
    }
}

proof fn lemma_chars_bounded(atoms: Seq<AtomView>, n: int)
    requires
        0 <= n <= atoms.len(),
        forall|j: int| 0 <= j < atoms.len() ==> #[trigger] atoms[j].word_count == word_count(atoms[j].text),
    ensures
        words_in_upto(atoms, n) <= chars_upto(atoms, n) <= text_len_sum(atoms.take(n)),
    decreases n,
{
    if n > 0 {
        lemma_chars_bounded(atoms, n - 1);
        let t = atoms[n - 1].text;
        lemma_counts_bounded(t, t.len() as int);
        assert(atoms.take(n).drop_last() =~= atoms.take(n - 1));
        assert(atoms.take(n).last() == atoms[n - 1]);
        assert(atoms[n - 1].word_count == word_count(t));
    }
}

proof fn lemma_sums_mono(atoms: Seq<AtomView>, a: int, b: int)
    requires
        a <= b,
    ensures
        chars_upto(atoms, a) <= chars_upto(atoms, b),
        words_in_upto(atoms, a) <= words_in_upto(atoms, b),
    decreases b - a,
{
    if a < b {
        lemma_sums_mono(atoms, a, b - 1);
    }
}

impl MeditationPacer {
    /// A pacer with the default configuration.
    pub fn new() -> (r: Self)
        ensures
            r.config == default_config(),
    {
        MeditationPacer { config: PacingConfig::default() }
    }

    /// A pacer with the given configuration.
    pub fn with_config(config: PacingConfig) -> (r: Self)
        ensures
            r.config == config,
    {
        MeditationPacer { config }
    }

    /// Splits `text` into speech atoms weighted by this pacer's configuration.
    pub fn atomize_text(&self, text: &str) -> (r: Vec<SpeechAtom>)
        ensures
            r@.map_values(|a: SpeechAtom| a@) == tokens(text@, self.config),
            text_len_sum(r@.map_values(|a: SpeechAtom| a@)) <= text@.len(),
            forall|j: int|
                0 <= j < r.len() ==> #[trigger] r@[j].word_count == word_count(r@[j].text@),
    {
        atomize(text, &self.config)
    }

    /// The pause directives for a pause of `total_millis`.
    pub fn format_break_tags(&self, total_millis: u128) -> (r: String)
        ensures
            r@ == break_tags(total_millis as nat, self.config),
    {
        let mut out = String::new();
        let mut remaining = total_millis;
        let max = self.config.max_break_millis as u128;
        let min = self.config.min_break_millis as u128;
        while max > 0 && remaining > min
            invariant
                max == self.config.max_break_millis,
                min == self.config.min_break_millis,
                out@ + break_tags(remaining as nat, self.config) == break_tags(
                    total_millis as nat,
                    self.config,
                ),
            decreases remaining,
        {
            let d = if remaining < max {
                remaining
            } else {
                max
            };
            let ghost before = out@;
            push_break_tag(&mut out, d);
            remaining = remaining - d;
            proof {
                assert(before + break_tags((remaining + d) as nat, self.config) =~= out@
                    + break_tags(remaining as nat, self.config));
            }
        }
        proof {
            assert(out@ + break_tags(remaining as nat, self.config) =~= out@);
        }
        out
    }

    /// The markup for `text`, paced toward `target_duration_millis`.
    pub fn format_meditation_ssml(&self, text: String, target_duration_millis: u64) -> (r: String)
        ensures
            r@ == pacing(
                tokens(text@, self.config),
                target_duration_millis as nat,
                self.config,
            ).markup,
    {
        let result = self.calculate_pacing(text, target_duration_millis);
        result.ssml
    }

    /// Paces `text` toward `target_duration_millis` and reports the timing.
    pub fn calculate_pacing(&self, text: String, target_duration_millis: u64) -> (r: PacingResult)
        ensures
            r@ == pacing(tokens(text@, self.config), target_duration_millis as nat, self.config),
    {
        let cfg = self.config;
        let n_text = text.as_str().unicode_len();
        let atoms = self.atomize_text(text.as_str());
        let ghost v = atoms@.map_values(|a: SpeechAtom| a@);
        let n = atoms.len();
        assert(v.take(n as int) =~= v);
        assert forall|j: int| 0 <= j < v.len() implies #[trigger] v[j].word_count == word_count(
            v[j].text,
        ) by {
            assert(v[j] == atoms@[j]@);
            assert(atoms@[j].word_count == word_count(atoms@[j].text@));
        }
        proof {
            lemma_chars_bounded(v, n as int);
        }
        // Measure.
        let mut total_chars: usize = 0;
        let mut total_words: usize = 0;
        let mut k: usize = 0;
        while k < n
            invariant
                n == atoms.len(),
                v == atoms@.map_values(|a: SpeechAtom| a@),
                0 <= k <= n,
                total_chars == chars_upto(v, k as int),
                total_words == words_in_upto(v, k as int),
                chars_upto(v, n as int) <= n_text,
                words_in_upto(v, n as int) <= chars_upto(v, n as int),
                forall|j: int|
                    0 <= j < v.len() ==> #[trigger] v[j].word_count == word_count(v[j].text),
            decreases n - k,
        {
            proof {
                lemma_chars_bounded(v, k as int + 1);
                lemma_sums_mono(v, k as int + 1, n as int);
            }
            total_chars = total_chars + count_visible(atoms[k].text.as_str());
            total_words = total_words + atoms[k].word_count;
            k = k + 1;
        }
        // Weight shared by all atoms but the last.
        let mut total_weight: u128 = 0;
        let mut k: usize = 0;
        while n > 0 && k < n - 1
            invariant
                n == atoms.len(),
                v == atoms@.map_values(|a: SpeechAtom| a@),
                0 <= k <= n,
                total_weight == weight_upto(v, k as int),
                total_weight <= k * 0xffff_ffffu128,
                n > 0 ==> k <= n - 1,
                n == 0 ==> k == 0,
            decreases n - k,
        {
            let w = atoms[k].weight;
            assert((k + 1) * 0xffff_ffffu128 == k * 0xffff_ffffu128 + 0xffff_ffffu128) by (
            nonlinear_arith);
            total_weight = total_weight + w as u128;
            k = k + 1;
        }
        assert(total_weight == shared_weight(v));
        // Budget.
        let speech: u128 = if cfg.chars_per_second == 0 {
            0
        } else {
            total_chars as u128 * 1000 / cfg.chars_per_second as u128
        };
        let raw: u128 = if target_duration_millis as u128 > speech {
            target_duration_millis as u128 - speech
        } else {
            0
        };
        assert(raw * cfg.silence_safety_buffer_permille <= 0xffff_ffff_ffff_ffffu128
            * 0xffff_ffff_ffff_ffffu128) by (nonlinear_arith)
            requires
                raw <= 0xffff_ffff_ffff_ffffu128,
                cfg.silence_safety_buffer_permille <= 0xffff_ffff_ffff_ffffu64,
        ;
        let fin: u128 = raw * cfg.silence_safety_buffer_permille as u128 / 1000;
        proof {
            lemma_fundamental_div_mod(
                (raw * cfg.silence_safety_buffer_permille) as int,
                1000,
            );
            if cfg.chars_per_second > 0 {
                let c = cfg.chars_per_second as int;
                let x = total_chars * 1000;
                assert(x / c <= x) by (nonlinear_arith)
                    requires
                        c >= 1,
                        x >= 0,
                ;
            }
        }
        assert(fin * 1000 <= raw * cfg.silence_safety_buffer_permille);
        assert(speech <= total_chars * 1000);
        let unit: u128 = if total_weight > 0 {
            fin / total_weight
        } else {
            0
        };
        proof {
            if total_weight > 0 {
                lemma_fundamental_div_mod(fin as int, total_weight as int);
            }
        }
        assert(total_weight * unit <= fin);
        // Emit.
        let mut ssml = String::new();
        let mut silence: u128 = 0;
        let mut k: usize = 0;
        while k < n
            invariant
                n == atoms.len(),
                v == atoms@.map_values(|a: SpeechAtom| a@),
                0 <= k <= n,
                cfg == self.config,
                total_weight == shared_weight(v),
                total_weight * unit <= fin,
                ssml@ == markup_upto(v, k as int, unit as nat, cfg),
                silence == silence_upto(v, k as int, unit as nat, cfg),
                silence <= weight_upto(v, if k < n { k as int } else { n - 1 }) * unit,
            decreases n - k,
        {
            let atom = &atoms[k];
            let ghost before = ssml@;
            ssml.append(atom.text.as_str());
            ssml.append(atom.punctuation_char.as_str());
            let mut pause: u128 = 0;
            if k + 1 < n && atom.weight > 0 && unit > 0 {
                proof {
                    lemma_weight_mono(v, k as int + 1, n as int - 1);
                    assert(weight_upto(v, k as int + 1) * unit <= total_weight * unit) by (
                    nonlinear_arith)
                        requires
                            weight_upto(v, k as int + 1) <= total_weight,
                    ;
                }
                assert(atom.weight * unit <= weight_upto(v, k as int + 1) * unit) by (
                nonlinear_arith)
                    requires
                        atom.weight <= weight_upto(v, k as int + 1),
                ;
                let d = atom.weight as u128 * unit;
                if d >= cfg.min_break_millis as u128 {
                    let tags = self.format_break_tags(d);
                    ssml.append(tags.as_str());
                    pause = d;
                }
            }
            proof {
                let wk = weight_upto(v, k as int);
                assert(weight_upto(v, k as int + 1) == wk + atom.weight);
                assert(weight_upto(v, k as int + 1) * unit == wk * unit + atom.weight * unit) by (
                nonlinear_arith)
                    requires
                        weight_upto(v, k as int + 1) == wk + atom.weight,
                ;
            }
            silence = silence + pause;
            if k + 1 < n {
                proof {
                    reveal_strlit(" ");
                    assert(" "@ =~= seq![' ']);
                }
                ssml.append(" ");
            }
            proof {
                assert(ssml@ =~= before + piece(v, k as int, unit as nat, cfg));
            }
            k = k + 1;
        }
        assert(silence <= fin);
        PacingResult {
            ssml,
            total_chars,
            total_words,
            estimated_speech_millis: speech,
            raw_silence_budget: raw,
            final_silence_budget: fin,
            total_silence_added: silence,
            target_duration_millis,
            estimated_total_millis: speech + silence,
            atom_count: n,
        }
    }
}

impl Default for MeditationPacer {
    fn default() -> (r: Self)
        ensures
            r.config == default_config(),
    {
        MeditationPacer::new()
    }
}

/// The markup for `text` under the default configuration.
pub fn format_meditation_ssml(text: String, target_duration_millis: u64) -> (r: String)
    ensures
        r@ == pacing(
            tokens(text@, default_config()),
            target_duration_millis as nat,
            default_config(),
        ).markup,
{
    let pacer = MeditationPacer::new();
    pacer.format_meditation_ssml(text, target_duration_millis)
}

/// The full pacing result for `text` under the default configuration.
pub fn calculate_pacing_details(text: String, target_duration_millis: u64) -> (r: PacingResult)
    ensures
        r@ == pacing(tokens(text@, default_config()), target_duration_millis as nat, default_config()),
{
    let pacer = MeditationPacer::new();
    pacer.calculate_pacing(text, target_duration_millis)
}

/// Words that fill `millis` at `per_minute` words a minute, rounded to the
/// nearest whole word (halves upward).
pub open spec fn words_for(millis: nat, per_minute: nat) -> nat {
    (millis * per_minute + 30000) / 60000
}

/// The number of words to ask of a script writer for a meditation of
/// `target_duration_millis`, at `words_per_minute`.
pub fn calculate_target_words_custom(target_duration_millis: u64, words_per_minute: u64) -> (r: u128)
    ensures
        r == words_for(target_duration_millis as nat, words_per_minute as nat),
{
    assert(target_duration_millis as u128 * words_per_minute as u128 <= 0xffff_ffff_ffff_ffffu128
        * 0xffff_ffff_ffff_ffffu128) by (nonlinear_arith);
    (target_duration_millis as u128 * words_per_minute as u128 + 30000) / 60000
}

/// The number of words to ask of a script writer for a meditation of
/// `target_duration_millis`, at the default density.
pub fn calculate_target_words_for_prompt(target_duration_millis: u64) -> (r: u128)
    ensures
        r == words_for(target_duration_millis as nat, 70),
{
    calculate_target_words_custom(target_duration_millis, TARGET_WORDS_PER_MINUTE)
}

} // verus!
