//! The user's settings, as far as the application's decisions read them.

use vstd::prelude::*;

verus! {

/// The user's settings. The sampling parameters that are fractional
/// (temperature, top-p, repeat penalty) and the window size are kept by the
/// front end beside this record.
#[derive(Debug, Clone)]
pub struct AppConfig {
    pub ui_lang: String,
    pub model_path: String,
    pub device: String,
    pub espeak_path: String,
    pub languages: Vec<String>,
    pub default_src: String,
    pub default_target: String,
    pub max_new_tokens: i32,
    pub top_k: i32,
    pub system_prompt: String,
}

/// The interface language used when the settings name none.
pub fn default_ui_lang() -> (r: String)
    ensures
        r@ == "Japanese"@,
{
    "Japanese".to_owned()
}

/// The instructions given to the model when the settings hold none.
pub open spec fn default_system_prompt() -> Seq<char> {
    "Translate the following input.\nStrictly follow these linguistic rules:\n1. Do not translate proper nouns or specific titles into their literal English meanings.\n2. Keep the original pronunciation/sound for entities.\n3. Do not add any explanations or extra text."@
}

/// `after` is `before` with the default instructions in place of empty
/// ones.
pub open spec fn prompt_filled(before: AppConfig, after: AppConfig) -> bool {
    &&& after.system_prompt@ == (if before.system_prompt@.len() == 0 {
        default_system_prompt()
    } else {
        before.system_prompt@
    })
    &&& after.ui_lang == before.ui_lang
    &&& after.model_path == before.model_path
    &&& after.device == before.device
    &&& after.espeak_path == before.espeak_path
    &&& after.languages == before.languages
    &&& after.default_src == before.default_src
    &&& after.default_target == before.default_target
    &&& after.max_new_tokens == before.max_new_tokens
    &&& after.top_k == before.top_k
}

impl AppConfig {
    /// Puts the default instructions in place of empty ones.
    pub fn fill_default_prompt(&mut self)
        ensures
            prompt_filled(*old(self), *final(self)),
    {
        if self.system_prompt.as_str().is_empty() {
            self.system_prompt = "Translate the following input.\nStrictly follow these linguistic rules:\n1. Do not translate proper nouns or specific titles into their literal English meanings.\n2. Keep the original pronunciation/sound for entities.\n3. Do not add any explanations or extra text.".to_owned();
        }
    }
}

impl Default for AppConfig {
    /// Japanese interface, no model, automatic device, no languages, 512
    /// new tokens at most, top-k of 40, no instructions.
    fn default() -> (r: AppConfig)
        ensures
            r.ui_lang@ == "Japanese"@,
            r.model_path@.len() == 0,
            r.device@ == "auto"@,
            r.espeak_path@.len() == 0,
            r.languages@.len() == 0,
            r.default_src@.len() == 0,
            r.default_target@.len() == 0,
            r.max_new_tokens == 512,
            r.top_k == 40,
            r.system_prompt@.len() == 0,
    {
        AppConfig {
            ui_lang: default_ui_lang(),
            model_path: String::new(),
            device: "auto".to_owned(),
            espeak_path: String::new(),
            languages: Vec::new(),
            default_src: String::new(),
            default_target: String::new(),
            max_new_tokens: 512,
            top_k: 40,
            system_prompt: String::new(),
        }
    }
}

} // verus!
