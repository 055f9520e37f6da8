use zenpal_core::{
    calculate_pacing_details, classify_punctuation, count_words, format_meditation_ssml,
    MeditationPacer, PacingConfig, PunctuationType, SpeechAtom,
};

fn strip_directives(markup: &str) -> String {
    let mut out = String::new();
    let mut rest = markup;
    while let Some(start) = rest.find("<break") {
        out.push_str(&rest[..start]);
        let end = rest[start..].find("/>").unwrap();
        rest = &rest[start + end + 2..];
    }
    out.push_str(rest);
    out
}

#[test]
fn tokenize_hello_world_exactly() {
    let atoms = MeditationPacer::new().atomize_text("Hello, world.");
    assert_eq!(atoms.len(), 2);
    assert_eq!(atoms[0].text, "Hello");
    assert_eq!(atoms[0].punctuation, PunctuationType::Comma);
    assert_eq!(atoms[0].punctuation_char, ",");
    assert_eq!(atoms[0].weight, 1);
    assert_eq!(atoms[1].text, "world");
    assert_eq!(atoms[1].punctuation, PunctuationType::SentenceEnd);
    assert_eq!(atoms[1].punctuation_char, ".");
    assert_eq!(atoms[1].weight, 3);
}

#[test]
fn text_without_punctuation_is_one_atom() {
    let atoms = MeditationPacer::new().atomize_text("  breathe in slowly  ");
    assert_eq!(atoms.len(), 1);
    assert_eq!(atoms[0].text, "breathe in slowly");
    assert_eq!(atoms[0].punctuation, PunctuationType::NoPunctuation);
    assert_eq!(atoms[0].punctuation_char, "");
    assert_eq!(atoms[0].weight, 0);
    assert_eq!(atoms[0].word_count, 3);
}

#[test]
fn punctuation_without_text_is_dropped() {
    let atoms = MeditationPacer::new().atomize_text(", ,Hi. . there");
    assert_eq!(atoms.len(), 2);
    assert_eq!(atoms[0].text, "Hi");
    assert_eq!(atoms[0].punctuation_char, ".");
    assert_eq!(atoms[1].text, "there");
    assert_eq!(atoms[1].punctuation, PunctuationType::NoPunctuation);
}

#[test]
fn mixed_punctuation_runs_follow_precedence() {
    assert_eq!(classify_punctuation("?!").0, PunctuationType::SentenceEnd);
    assert_eq!(classify_punctuation("?!").1, "?");
    assert_eq!(classify_punctuation(",.").0, PunctuationType::SentenceEnd);
    assert_eq!(classify_punctuation(",.").1, ",");
    assert_eq!(classify_punctuation(".\n").0, PunctuationType::Paragraph);
    assert_eq!(classify_punctuation(".\n").1, "\n");
    assert_eq!(classify_punctuation(",,").1, ",");
    assert_eq!(classify_punctuation("x").0, PunctuationType::NoPunctuation);
}

#[test]
fn paragraph_weight_comes_from_configuration() {
    let mut config = PacingConfig::default();
    config.weight_paragraph = 9;
    let atoms = MeditationPacer::with_config(config).atomize_text("Rest.\nBreathe");
    assert_eq!(atoms[0].punctuation, PunctuationType::Paragraph);
    assert_eq!(atoms[0].punctuation_char, "\n");
    assert_eq!(atoms[0].weight, 9);
}

#[test]
fn speech_atom_new_uses_default_weight() {
    let a = SpeechAtom::new("one two".to_string(), PunctuationType::Paragraph, "\n".to_string());
    assert_eq!(a.weight, 5);
    assert_eq!(a.word_count, 2);
    assert_eq!(PunctuationType::Comma.weight(), 1);
    assert_eq!(PunctuationType::SentenceEnd.weight(), 3);
    assert_eq!(PunctuationType::NoPunctuation.weight(), 0);
}

#[test]
fn unicode_whitespace_separates_words() {
    assert_eq!(count_words("a\u{3000}b\u{a0}c"), 3);
    assert_eq!(count_words("\t\n"), 0);
}

#[test]
fn markup_never_ends_with_a_pause() {
    let r = calculate_pacing_details("Hello.\nWorld, again".to_string(), 120_000);
    assert!(r.ssml.ends_with(" again"));
    assert!(!r.ssml.ends_with(' '));
    let r = calculate_pacing_details("One. Two!".to_string(), 120_000);
    assert!(r.ssml.ends_with(" Two!"));
}

#[test]
fn silence_is_never_negative() {
    let r = calculate_pacing_details("A rather long sentence, for a short target.".to_string(), 100);
    assert_eq!(r.raw_silence_budget, 0);
    assert_eq!(r.final_silence_budget, 0);
    assert_eq!(r.total_silence_added, 0);
    assert!(!r.ssml.contains("<break"));
    assert_eq!(r.estimated_total_millis, r.estimated_speech_millis);
}

#[test]
fn characters_exclude_whitespace() {
    let r = calculate_pacing_details("Welcome. Take a deep breath.".to_string(), 60_000);
    assert_eq!(r.total_chars, 22);
    assert_eq!(r.estimated_speech_millis, 1833);
}

#[test]
fn safety_buffer_is_applied() {
    let r = calculate_pacing_details("Welcome. Take a deep breath.".to_string(), 60_000);
    assert_eq!(r.raw_silence_budget, 58_167);
    assert_eq!(r.final_silence_budget, r.raw_silence_budget * 1100 / 1000);
    assert_eq!(r.final_silence_budget, 63_983);
}

#[test]
fn exact_markup_for_two_atoms() {
    let r = calculate_pacing_details("Hello, world.".to_string(), 60_000);
    let mut expected = String::from("Hello,");
    for _ in 0..21 {
        expected.push_str("<break time=\"3.0s\"/>");
    }
    expected.push_str("<break time=\"2.1s\"/> world.");
    assert_eq!(r.ssml, expected);
    assert_eq!(r.estimated_speech_millis, 833);
    assert_eq!(r.total_silence_added, 65_083);
    assert_eq!(r.estimated_total_millis, 65_916);
    assert_eq!(format_meditation_ssml("Hello, world.".to_string(), 60_000), expected);
}

#[test]
fn break_tags_round_to_tenths() {
    let pacer = MeditationPacer::new();
    assert_eq!(pacer.format_break_tags(2050), "<break time=\"2.1s\"/>");
    assert_eq!(pacer.format_break_tags(2049), "<break time=\"2.0s\"/>");
    assert_eq!(pacer.format_break_tags(150), "<break time=\"0.2s\"/>");
    assert_eq!(pacer.format_break_tags(100), "");
    assert_eq!(
        pacer.format_break_tags(12_345),
        "<break time=\"3.0s\"/><break time=\"3.0s\"/><break time=\"3.0s\"/><break time=\"3.0s\"/><break time=\"0.3s\"/>"
    );
}

#[test]
fn long_break_digits() {
    let mut config = PacingConfig::default();
    config.max_break_millis = 125_000;
    let pacer = MeditationPacer::with_config(config);
    assert_eq!(pacer.format_break_tags(123_456), "<break time=\"123.5s\"/>");
}

#[test]
fn degenerate_configuration_does_not_fail() {
    let mut config = PacingConfig::default();
    config.chars_per_second = 0;
    config.max_break_millis = 0;
    let r = MeditationPacer::with_config(config).calculate_pacing("Hi. There.".to_string(), 10_000);
    assert_eq!(r.estimated_speech_millis, 0);
    assert_eq!(r.raw_silence_budget, 10_000);
    assert_eq!(r.final_silence_budget, 11_000);
    assert_eq!(r.total_silence_added, 10_998);
    assert_eq!(r.ssml, "Hi. There.");
}

#[test]
fn short_pauses_are_left_out() {
    let r = calculate_pacing_details("a, b, c, d, e".to_string(), 580);
    assert_eq!(r.estimated_speech_millis, 416);
    assert_eq!(r.raw_silence_budget, 164);
    assert_eq!(r.final_silence_budget, 180);
    assert_eq!(r.total_silence_added, 0);
    assert_eq!(r.ssml, "a, b, c, d, e");
}

#[test]
fn remeasuring_the_markup_gives_the_same_atoms() {
    let text = "  Welcome, friend.\nClose your eyes?! Breathe in... and out";
    let pacer = MeditationPacer::new();
    let before = pacer.atomize_text(text);
    let markup = pacer.format_meditation_ssml(text.to_string(), 90_000);
    assert!(markup.contains("<break"));
    let after = pacer.atomize_text(&strip_directives(&markup));
    assert_eq!(before.len(), after.len());
    for (a, b) in before.iter().zip(after.iter()) {
        assert_eq!(a.text, b.text);
        assert_eq!(a.word_count, b.word_count);
    }
}

#[test]
fn empty_input_gives_empty_markup() {
    let r = calculate_pacing_details("".to_string(), 60_000);
    assert_eq!(r.atom_count, 0);
    assert_eq!(r.total_words, 0);
    assert_eq!(r.total_chars, 0);
    assert_eq!(r.ssml, "");
    assert_eq!(r.raw_silence_budget, 60_000);
}
