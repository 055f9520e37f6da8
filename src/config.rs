//! Rates, limits and weights that drive the pacing.
use vstd::prelude::*;
use crate::tokenizer::{PunctuationType, WEIGHT_COMMA, WEIGHT_PARAGRAPH, WEIGHT_SENTENCE};

verus! {

/// Speech rate, in characters (whitespace excluded) per second.
pub const CHARS_PER_SECOND: u64 = 12;

/// Extra silence, in thousandths: 1100 adds ten percent.
pub const SILENCE_SAFETY_BUFFER_PERMILLE: u64 = 1100;

/// The longest single pause directive, in milliseconds.
pub const MAX_BREAK_MILLIS: u64 = 3000;

/// Pauses at or below this many milliseconds are left out.
pub const MIN_BREAK_MILLIS: u64 = 100;

/// Words per minute of speech that leave about half of the time silent.
pub const TARGET_WORDS_PER_MINUTE: u64 = 70;

/// Configuration of the pacing engine. Durations are in milliseconds.
#[derive(Debug, Clone, Copy)]
pub struct PacingConfig {
    /// Speech rate in characters per second, whitespace excluded.
    pub chars_per_second: u64,
    /// Multiplier on the silence budget, in thousandths.
    pub silence_safety_buffer_permille: u64,
    /// Longest single pause directive.
    pub max_break_millis: u64,
    /// Shortest pause that is emitted.
    pub min_break_millis: u64,
    /// Weight of a comma pause.
    pub weight_comma: u32,
    /// Weight of a sentence-end pause.
    pub weight_sentence: u32,
    /// Weight of a paragraph pause.
    pub weight_paragraph: u32,
}

/// The weight that `cfg` gives to a kind of punctuation.
pub open spec fn weight_in(cfg: PacingConfig, p: PunctuationType) -> u32 {
    match p {
        PunctuationType::Comma => cfg.weight_comma,
        PunctuationType::SentenceEnd => cfg.weight_sentence,
        PunctuationType::Paragraph => cfg.weight_paragraph,
        PunctuationType::NoPunctuation => 0,
    }
}

/// The production-calibrated configuration.
pub open spec fn default_config() -> PacingConfig {
    PacingConfig {
        chars_per_second: 12,
        silence_safety_buffer_permille: 1100,
        max_break_millis: 3000,
        min_break_millis: 100,
        weight_comma: 1,
        weight_sentence: 3,
        weight_paragraph: 5,
    }
}

impl PacingConfig {
    /// The weight that this configuration gives to a kind of punctuation.
    pub fn weight_of(&self, p: PunctuationType) -> (r: u32)
        ensures
            r == weight_in(*self, p),
    {
        match p {
            PunctuationType::Comma => self.weight_comma,
            PunctuationType::SentenceEnd => self.weight_sentence,
            PunctuationType::Paragraph => self.weight_paragraph,
            PunctuationType::NoPunctuation => 0,
        }
    }
}

impl Default for PacingConfig {
    fn default() -> (r: Self)
        ensures
            r == default_config(),
    {
        PacingConfig {
            chars_per_second: CHARS_PER_SECOND,
            silence_safety_buffer_permille: SILENCE_SAFETY_BUFFER_PERMILLE,
            max_break_millis: MAX_BREAK_MILLIS,
            min_break_millis: MIN_BREAK_MILLIS,
            weight_comma: WEIGHT_COMMA,
            weight_sentence: WEIGHT_SENTENCE,
            weight_paragraph: WEIGHT_PARAGRAPH,
        }
    }
}

} // verus!
