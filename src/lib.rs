//! Meditation pacing: turns a script into speech markup whose pauses are
//! sized so that speech plus silence fills a requested duration.
//!
//! All durations are whole milliseconds.
pub mod config;
pub mod laws;
pub mod markup;
pub mod pacer;
pub mod remeasure;
pub mod text;
pub mod tokenizer;

pub use config::PacingConfig;
pub use pacer::{
    calculate_pacing_details, calculate_target_words_custom, calculate_target_words_for_prompt,
    format_meditation_ssml, MeditationPacer, PacingResult,
};
pub use text::count_words;
pub use tokenizer::{classify_punctuation, PunctuationType, SpeechAtom};
