use lmtranslater::text::{chars_of, is_white_space_char, parse_thought_process};
use lmtranslater::voice::{
    get_kokoro_voice, is_kokoro_supported, route_after_synthesis, speak, AudioRoute, SpeechPlan,
};

fn answer(text: &str) -> String {
    let (reasoning, answer) = parse_thought_process(text);
    assert_eq!(reasoning, "");
    answer
}

#[test]
fn plain_output_is_trimmed() {
    assert_eq!(answer("  こんにちは世界 \n"), "こんにちは世界");
    assert_eq!(answer(""), "");
    assert_eq!(answer(" \t\n "), "");
}

#[test]
fn channel_block_is_dropped() {
    assert_eq!(answer("<|channel>thought\nlet me think<channel|>  Hello there "), "Hello there");
}

#[test]
fn channel_block_without_close_is_kept() {
    assert_eq!(answer("<|channel>thought still thinking"), "<|channel>thought still thinking");
}

#[test]
fn closing_channel_marker_alone_is_kept() {
    assert_eq!(answer("A<channel|>B"), "A<channel|>B");
}

#[test]
fn think_block_is_dropped() {
    assert_eq!(answer("<think>reasoning here</think>\n\nBonjour"), "Bonjour");
}

#[test]
fn open_think_block_gives_nothing_yet() {
    assert_eq!(answer("<think>still reasoning"), "");
}

#[test]
fn analysis_section_is_cut() {
    assert_eq!(answer("Hola mundo\n\n### Analysis\nwords"), "Hola mundo");
}

#[test]
fn heading_line_is_skipped() {
    assert_eq!(answer("### Translation\n  Ciao  "), "Ciao");
}

#[test]
fn heading_without_line_break_is_kept() {
    assert_eq!(answer("### Only a heading"), "### Only a heading");
}

#[test]
fn both_blocks_then_analysis() {
    let text = "<|channel>thought x<channel|><think>y</think> Answer\n\n### Notes";
    assert_eq!(answer(text), "Answer");
}

#[test]
fn unicode_white_space_is_trimmed() {
    assert_eq!(answer("\u{3000}訳文\u{00A0}"), "訳文");
    assert!(is_white_space_char('\u{2028}'));
    assert!(!is_white_space_char('a'));
    assert!(!is_white_space_char('\u{200B}'));
}

#[test]
fn chars_of_keeps_every_character() {
    assert_eq!(chars_of("aé漢🙂"), vec!['a', 'é', '漢', '🙂']);
}

#[test]
fn kokoro_voices() {
    assert_eq!(get_kokoro_voice("Japanese"), Some(("jf_nezumi", "ja")));
    assert_eq!(get_kokoro_voice("English(UN)"), Some(("bm_lewis", "en-gb")));
    assert_eq!(get_kokoro_voice("English(US)"), Some(("af_heart", "en-us")));
    assert_eq!(get_kokoro_voice("Chinese"), Some(("zf_xiaoxiao", "zh")));
    assert_eq!(get_kokoro_voice("Chinese (Simplified)"), Some(("zf_xiaoxiao", "zh")));
    assert_eq!(get_kokoro_voice("Chinese (Traditional)"), Some(("zf_xiaoxiao", "zh")));
    assert_eq!(get_kokoro_voice("Spanish"), Some(("ef_dora", "es")));
    assert_eq!(get_kokoro_voice("French"), Some(("ff_siwis", "fr")));
    assert_eq!(get_kokoro_voice("Italian"), Some(("if_sara", "it")));
    assert_eq!(get_kokoro_voice("German"), None);
    assert_eq!(get_kokoro_voice("japanese"), None);
    assert_eq!(get_kokoro_voice(""), None);
}

#[test]
fn supported_languages() {
    assert!(is_kokoro_supported("French"));
    assert!(!is_kokoro_supported("Korean"));
}

#[test]
fn speech_plans() {
    assert_eq!(speak("   ", "Japanese"), SpeechPlan::Silent);
    assert_eq!(
        speak("こんにちは", "Japanese"),
        SpeechPlan::Kokoro { voice: "jf_nezumi".to_string(), lang_code: "ja".to_string() }
    );
    assert_eq!(speak("Hallo", "German"), SpeechPlan::OsFallback);
}

#[test]
fn audio_routes() {
    assert_eq!(route_after_synthesis(true, 24000), AudioRoute::PlaySamples);
    assert_eq!(route_after_synthesis(true, 0), AudioRoute::OsFallback);
    assert_eq!(route_after_synthesis(false, 10), AudioRoute::OsFallback);
}
