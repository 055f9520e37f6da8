use zenpal_core::{
    calculate_target_words_custom, calculate_target_words_for_prompt, classify_punctuation,
    count_words, MeditationPacer, PunctuationType,
};

#[test]
fn test_word_count() {
    assert_eq!(count_words("hello world"), 2);
    assert_eq!(count_words("one"), 1);
    assert_eq!(count_words("  spaces  between  "), 2);
    assert_eq!(count_words(""), 0);
}

#[test]
fn test_punctuation_classification() {
    assert_eq!(classify_punctuation(".").0, PunctuationType::SentenceEnd);
    assert_eq!(classify_punctuation("?").0, PunctuationType::SentenceEnd);
    assert_eq!(classify_punctuation("!").0, PunctuationType::SentenceEnd);
    assert_eq!(classify_punctuation(",").0, PunctuationType::Comma);
    assert_eq!(classify_punctuation("\n").0, PunctuationType::Paragraph);
    assert_eq!(classify_punctuation("").0, PunctuationType::NoPunctuation);
}

#[test]
fn test_atomize_simple() {
    let pacer = MeditationPacer::new();
    let atoms = pacer.atomize_text("Hello, world.");

    assert_eq!(atoms.len(), 2);
    assert_eq!(atoms[0].text, "Hello");
    assert_eq!(atoms[0].punctuation, PunctuationType::Comma);
    assert_eq!(atoms[1].text, "world");
    assert_eq!(atoms[1].punctuation, PunctuationType::SentenceEnd);
}

#[test]
fn test_break_tag_splitting() {
    let pacer = MeditationPacer::new();

    let tags = pacer.format_break_tags(2000);
    assert_eq!(tags, "<break time=\"2.0s\"/>");

    let tags = pacer.format_break_tags(5000);
    assert_eq!(tags, "<break time=\"3.0s\"/><break time=\"2.0s\"/>");

    let tags = pacer.format_break_tags(9000);
    assert_eq!(tags, "<break time=\"3.0s\"/><break time=\"3.0s\"/><break time=\"3.0s\"/>");
}

#[test]
fn test_basic_pacing() {
    let pacer = MeditationPacer::new();
    let result = pacer.calculate_pacing("Welcome. Take a deep breath.".to_string(), 60_000);

    assert_eq!(result.atom_count, 2);
    assert_eq!(result.total_words, 5);
    assert!(result.ssml.contains("<break"));
    assert!(result.estimated_total_millis > 0);
}

#[test]
#[allow(unused_comparisons)]
fn test_no_overflow_when_speech_exceeds_target() {
    let pacer = MeditationPacer::new();

    let long_text = "This is a very long meditation script that contains many many words and will definitely take longer than five seconds to speak aloud.".to_string();
    let result = pacer.calculate_pacing(long_text, 5_000);

    assert!(result.total_silence_added >= 0);
    assert!(result.raw_silence_budget >= 0);
    assert!(!result.ssml.is_empty());
}

#[test]
fn test_empty_text() {
    let pacer = MeditationPacer::new();
    let result = pacer.calculate_pacing("".to_string(), 60_000);

    assert_eq!(result.total_words, 0);
    assert_eq!(result.total_chars, 0);
    assert_eq!(result.atom_count, 0);
}

#[test]
fn test_character_based_estimation() {
    let pacer = MeditationPacer::new();
    let result = pacer.calculate_pacing("Welcome. Take a deep breath.".to_string(), 60_000);

    assert_eq!(result.total_chars, 22);

    let expected_speech = 22.0 / 12.0 * 1000.0;
    assert!((result.estimated_speech_millis as f64 - expected_speech).abs() < 10.0);

    let expected_raw = 60_000.0 - expected_speech;
    assert!((result.raw_silence_budget as f64 - expected_raw).abs() < 10.0);
    assert!((result.final_silence_budget as f64 - expected_raw * 1.1).abs() < 10.0);
}

#[test]
fn test_no_break_after_last_atom() {
    let pacer = MeditationPacer::new();
    let result = pacer.calculate_pacing("First sentence. Second sentence.".to_string(), 60_000);

    assert!(!result.ssml.trim_end().ends_with("/>"));
    assert!(result.ssml.trim_end().ends_with("."));
}

#[test]
fn test_target_words_for_prompt() {
    assert_eq!(calculate_target_words_for_prompt(60_000), 70);
    assert_eq!(calculate_target_words_for_prompt(120_000), 140);
    assert_eq!(calculate_target_words_for_prompt(300_000), 350);
    assert_eq!(calculate_target_words_for_prompt(30_000), 35);
}

#[test]
fn test_custom_words_per_minute() {
    assert_eq!(calculate_target_words_custom(60_000, 100), 100);
    assert_eq!(calculate_target_words_custom(120_000, 50), 100);
}

#[test]
fn test_production_calibration() {
    let pacer = MeditationPacer::new();

    let meditation_text = "Welcome to this moment of peace. \
        Close your eyes gently. \
        Take a slow, deep breath in. \
        Feel the air fill your lungs completely. \
        Now exhale slowly, releasing all tension. \
        Notice how your body begins to relax. \
        Each breath brings you deeper into calm. \
        Let go of any thoughts that arise. \
        Simply be present in this moment. \
        You are safe. You are at peace.".to_string();

    let char_count: usize = meditation_text.chars().filter(|c| !c.is_whitespace()).count();
    println!("Test meditation char count: {}", char_count);

    let result = pacer.calculate_pacing(meditation_text, 60_000);

    assert!(result.estimated_speech_millis > 20_000);
    assert!(result.estimated_speech_millis < 35_000);
    assert!(result.final_silence_budget > result.raw_silence_budget);
    assert!(result.estimated_total_millis >= 60_000);
    assert!(!result.ssml.ends_with("/>"));
}

#[test]
fn test_density_for_five_minute_meditation() {
    let target_words = calculate_target_words_for_prompt(300_000);
    assert_eq!(target_words, 350);
}
