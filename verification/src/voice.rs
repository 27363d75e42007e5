//! Choice of a voice for reading text aloud.

use vstd::prelude::*;
use crate::text::{chars_of, trim, trim_window};

verus! {

/// The voice and the phonemizer language code that the neural speech
/// engine uses for an interface language, if it supports that language.
pub open spec fn kokoro_voice(lang: Seq<char>) -> Option<(Seq<char>, Seq<char>)> {
    if lang == "Japanese"@ {
        Some(("jf_nezumi"@, "ja"@))
    } else if lang == "English(UN)"@ {
        Some(("bm_lewis"@, "en-gb"@))
    } else if lang == "English(US)"@ {
        Some(("af_heart"@, "en-us"@))
    } else if lang == "Chinese"@ || lang == "Chinese (Simplified)"@ || lang
        == "Chinese (Traditional)"@ {
        Some(("zf_xiaoxiao"@, "zh"@))
    } else if lang == "Spanish"@ {
        Some(("ef_dora"@, "es"@))
    } else if lang == "French"@ {
        Some(("ff_siwis"@, "fr"@))
    } else if lang == "Italian"@ {
        Some(("if_sara"@, "it"@))
    } else {
        None
    }
}

/// Whether `a` and `b` hold the same characters.
pub fn same_chars(a: &Vec<char>, b: &Vec<char>) -> (r: bool)
    ensures
        r == (a@ == b@),
{
    if a.len() != b.len() {
        return false;
    }
    let mut i: usize = 0;
    while i < a.len()
        invariant
            a.len() == b.len(),
            i <= a.len(),
            forall|k: int| 0 <= k < i ==> a@[k] == b@[k],
        decreases a.len() - i,
    {
        if a[i] != b[i] {
            return false;
        }
        i = i + 1;
    }
    assert(a@ =~= b@);
    true
}

/// Whether the text `s` is `name`.
fn is_named(s: &Vec<char>, name: &str) -> (r: bool)
    ensures
        r == (s@ == name@),
{
    same_chars(s, &chars_of(name))
}

/// The voice and language code for `lang`, if the neural speech engine
/// supports it.
pub fn get_kokoro_voice(lang: &str) -> (r: Option<(&'static str, &'static str)>)
    ensures
        r is Some == kokoro_voice(lang@) is Some,
        r matches Some((v, c)) ==> (v@, c@) == kokoro_voice(lang@)->0,
{
    let l = chars_of(lang);
    if is_named(&l, "Japanese") {
        Some(("jf_nezumi", "ja"))
    } else if is_named(&l, "English(UN)") {
        Some(("bm_lewis", "en-gb"))
    } else if is_named(&l, "English(US)") {
        Some(("af_heart", "en-us"))
    } else if is_named(&l, "Chinese") || is_named(&l, "Chinese (Simplified)") || is_named(
        &l,
        "Chinese (Traditional)",
    ) {
        Some(("zf_xiaoxiao", "zh"))
    } else if is_named(&l, "Spanish") {
        Some(("ef_dora", "es"))
    } else if is_named(&l, "French") {
        Some(("ff_siwis", "fr"))
    } else if is_named(&l, "Italian") {
        Some(("if_sara", "it"))
    } else {
        None
    }
}

/// Whether the neural speech engine supports `lang`.
pub fn is_kokoro_supported(lang: &str) -> (r: bool)
    ensures
        r == kokoro_voice(lang@) is Some,
{
    get_kokoro_voice(lang).is_some()
}

/// How a text is to be read aloud.
#[derive(Debug, Clone, PartialEq, Eq)]
pub enum SpeechPlan {
    /// Nothing to read: the text is blank.
    Silent,
    /// Synthesize with the neural engine, with this voice and language code.
    Kokoro { voice: String, lang_code: String },
    /// Hand the text to the operating system's speech service.
    OsFallback,
}

/// Decides how `text`, written in `target_lang`, is read aloud: not at all
/// when it is blank, with the neural engine when it supports the language,
/// otherwise with the operating system's speech service.
pub fn speak(text: &str, target_lang: &str) -> (r: SpeechPlan)
    ensures
        trim(text@).len() == 0 <==> r is Silent,
        trim(text@).len() != 0 ==> (r is Kokoro <==> kokoro_voice(target_lang@) is Some),
        r matches SpeechPlan::Kokoro { voice, lang_code } ==> (voice@, lang_code@) == kokoro_voice(
            target_lang@,
        )->0,
{
    let v = chars_of(text);
    assert(v@.subrange(0, v@.len() as int) =~= text@);
    let (lo, hi) = trim_window(&v, 0, v.len());
    if lo == hi {
        return SpeechPlan::Silent;
    }
    match get_kokoro_voice(target_lang) {
        Some((voice, lang_code)) => SpeechPlan::Kokoro {
            voice: voice.to_owned(),
            lang_code: lang_code.to_owned(),
        },
        None => SpeechPlan::OsFallback,
    }
}

/// Where synthesized speech goes after the neural engine has run.
#[derive(Debug, Clone, Copy, PartialEq, Eq)]
pub enum AudioRoute {
    /// Play the samples that the engine produced.
    PlaySamples,
    /// Fall back to the operating system's speech service.
    OsFallback,
}

/// The samples are played when the engine succeeded and produced at least
/// one; otherwise the operating system's speech service reads the text.
pub fn route_after_synthesis(succeeded: bool, sample_count: usize) -> (r: AudioRoute)
    ensures
        r is PlaySamples <==> succeeded && sample_count > 0,
{
    if succeeded && sample_count > 0 {
        AudioRoute::PlaySamples
    } else {
        AudioRoute::OsFallback
    }
}

/// The neural engine serves exactly nine interface languages, and every
/// other name (another language, a different spelling or case, an empty
/// name) goes to the operating system's speech service.
pub proof fn lemma_kokoro_languages(lang: Seq<char>)
    ensures
        kokoro_voice(lang) is Some <==> (lang == "Japanese"@ || lang == "English(UN)"@ || lang
            == "English(US)"@ || lang == "Chinese"@ || lang == "Chinese (Simplified)"@ || lang
            == "Chinese (Traditional)"@ || lang == "Spanish"@ || lang == "French"@ || lang
            == "Italian"@),
{
}

/// Each supported language has its own voice and phonemizer code: the
/// three Chinese names share one, and no two other languages share a
/// code.
pub proof fn lemma_kokoro_voice_table()
    ensures
        kokoro_voice("Japanese"@) == Some(("jf_nezumi"@, "ja"@)),
        kokoro_voice("English(UN)"@) == Some(("bm_lewis"@, "en-gb"@)),
        kokoro_voice("English(US)"@) == Some(("af_heart"@, "en-us"@)),
        kokoro_voice("Chinese"@) == Some(("zf_xiaoxiao"@, "zh"@)),
        kokoro_voice("Chinese (Simplified)"@) == Some(("zf_xiaoxiao"@, "zh"@)),
        kokoro_voice("Chinese (Traditional)"@) == Some(("zf_xiaoxiao"@, "zh"@)),
        kokoro_voice("Spanish"@) == Some(("ef_dora"@, "es"@)),
        kokoro_voice("French"@) == Some(("ff_siwis"@, "fr"@)),
        kokoro_voice("Italian"@) == Some(("if_sara"@, "it"@)),
{
    reveal_strlit("Japanese");
    reveal_strlit("English(UN)");
    reveal_strlit("English(US)");
    reveal_strlit("Chinese");
    reveal_strlit("Chinese (Simplified)");
    reveal_strlit("Chinese (Traditional)");
    reveal_strlit("Spanish");
    reveal_strlit("French");
    reveal_strlit("Italian");
    assert("English(UN)"@[0] != "Japanese"@[0]);
    assert("English(US)"@[0] != "Japanese"@[0]);
    assert("English(US)"@[9] != "English(UN)"@[9]);
    assert("Chinese"@[0] != "Japanese"@[0]);
    assert("Chinese"@[0] != "English(UN)"@[0]);
    assert("Chinese"@[0] != "English(US)"@[0]);
    assert("Chinese (Simplified)"@[0] != "Japanese"@[0]);
    assert("Chinese (Simplified)"@[0] != "English(UN)"@[0]);
    assert("Chinese (Simplified)"@[0] != "English(US)"@[0]);
    assert("Chinese (Simplified)"@.len() != "Chinese"@.len());
    assert("Chinese (Traditional)"@[0] != "Japanese"@[0]);
    assert("Chinese (Traditional)"@[0] != "English(UN)"@[0]);
    assert("Chinese (Traditional)"@[0] != "English(US)"@[0]);
    assert("Chinese (Traditional)"@.len() != "Chinese"@.len());
    assert("Chinese (Traditional)"@[9] != "Chinese (Simplified)"@[9]);
    assert("Spanish"@[0] != "Japanese"@[0]);
    assert("Spanish"@[0] != "English(UN)"@[0]);
    assert("Spanish"@[0] != "English(US)"@[0]);
    assert("Spanish"@[0] != "Chinese"@[0]);
    assert("Spanish"@[0] != "Chinese (Simplified)"@[0]);
    assert("Spanish"@[0] != "Chinese (Traditional)"@[0]);
    assert("French"@[0] != "Japanese"@[0]);
    assert("French"@[0] != "English(UN)"@[0]);
    assert("French"@[0] != "English(US)"@[0]);
    assert("French"@[0] != "Chinese"@[0]);
    assert("French"@[0] != "Chinese (Simplified)"@[0]);
    assert("French"@[0] != "Chinese (Traditional)"@[0]);
    assert("French"@[0] != "Spanish"@[0]);
    assert("Italian"@[0] != "Japanese"@[0]);
    assert("Italian"@[0] != "English(UN)"@[0]);
    assert("Italian"@[0] != "English(US)"@[0]);
    assert("Italian"@[0] != "Chinese"@[0]);
    assert("Italian"@[0] != "Chinese (Simplified)"@[0]);
    assert("Italian"@[0] != "Chinese (Traditional)"@[0]);
    assert("Italian"@[0] != "Spanish"@[0]);
    assert("Italian"@[0] != "French"@[0]);
}

} // verus!
