use lmtranslater::config::{default_ui_lang, AppConfig};
use lmtranslater::fonts::{
    accept_font_file, choose_font_sources, font_family_order, font_sources, usable_fonts, FontSource,
};
use lmtranslater::labels::{compare_chars, get_fallback_labels, I18nLabels, KeyOrder, LabelCatalog};
use lmtranslater::session::{model_label, AppState, MyApp, Screen, WorkerMessage, MAX_LOG_ENTRIES};
use lmtranslater::text::chars_of;

fn labels_with(system_log: &str, loaded: &str) -> I18nLabels {
    let mut l = get_fallback_labels();
    l.system_log = system_log.to_string();
    l.log_model_loaded = loaded.to_string();
    l
}

fn step(app: &mut MyApp, msg: WorkerMessage) -> Option<String> {
    app.handle_message(msg, "11:00:00")
}

fn config_with_model(path: &str) -> AppConfig {
    let mut c = AppConfig::default();
    c.model_path = path.to_string();
    c.default_src = "English(US)".to_string();
    c.default_target = "Japanese".to_string();
    c
}

fn is_stamped(entry: &str, message: &str) -> bool {
    let chars: Vec<char> = entry.chars().collect();
    chars.len() == 11 + message.chars().count()
        && chars[0] == '['
        && chars[3] == ':'
        && chars[6] == ':'
        && chars[9] == ']'
        && chars[10] == ' '
        && [1, 2, 4, 5, 7, 8].iter().all(|&i| chars[i].is_ascii_digit())
        && entry.ends_with(message)
}

#[test]
fn default_config() {
    let c = AppConfig::default();
    assert_eq!(c.ui_lang, "Japanese");
    assert_eq!(default_ui_lang(), "Japanese");
    assert_eq!(c.device, "auto");
    assert_eq!(c.max_new_tokens, 512);
    assert_eq!(c.top_k, 40);
    assert!(c.model_path.is_empty() && c.system_prompt.is_empty() && c.languages.is_empty());
}

#[test]
fn default_prompt_fills_only_empty_prompt() {
    let mut c = AppConfig::default();
    c.fill_default_prompt();
    assert!(c.system_prompt.starts_with("Translate the following input.\nStrictly follow"));
    assert!(c.system_prompt.ends_with("3. Do not add any explanations or extra text."));
    let mut d = AppConfig::default();
    d.system_prompt = "Be brief.".to_string();
    d.fill_default_prompt();
    assert_eq!(d.system_prompt, "Be brief.");
}

#[test]
fn fallback_labels() {
    let l = get_fallback_labels();
    assert_eq!(l.unselected, "未選択");
    assert_eq!(l.translate_btn, "  Translate  ");
    assert_eq!(l.error_prefix, "エラー: ");
    assert_eq!(I18nLabels::default().log_copied, l.log_copied);
}

#[test]
fn catalog_keeps_names_in_order() {
    let mut c = LabelCatalog::new();
    assert!(c.is_empty());
    c.insert("Japanese".to_string(), labels_with("ログ", "x"));
    c.insert("English".to_string(), labels_with("Log", "y"));
    c.insert("Chinese".to_string(), labels_with("日志", "z"));
    c.insert("English".to_string(), labels_with("System log", "w"));
    assert_eq!(c.len(), 3);
    assert_eq!(c.languages(), vec!["Chinese", "English", "Japanese"]);
    assert_eq!(c.get("English").unwrap().system_log, "System log");
    assert_eq!(c.get("Chinese").unwrap().system_log, "日志");
    assert!(c.get("French").is_none());
}

#[test]
fn key_order_by_code_point() {
    assert_eq!(compare_chars(&chars_of("ab"), &chars_of("b")), KeyOrder::Before);
    assert_eq!(compare_chars(&chars_of("ab"), &chars_of("a")), KeyOrder::After);
    assert_eq!(compare_chars(&chars_of("Zeta"), &chars_of("alpha")), KeyOrder::Before);
    assert_eq!(compare_chars(&chars_of("日本"), &chars_of("日本")), KeyOrder::Same);
}

#[test]
fn startup_logs_and_checks() {
    let app = MyApp::new(config_with_model(""), LabelCatalog::new(), "09:30:00");
    assert_eq!(app.state, AppState::CheckingDependencies);
    assert_eq!(app.screen(), Screen::Checking);
    assert!(app.needs_repaint());
    assert_eq!(app.src_lang, "English(US)");
    assert_eq!(app.target_lang, "Japanese");
    assert!(app.config.system_prompt.starts_with("Translate the following input."));
    assert_eq!(app.logs.len(), 1);
    assert!(is_stamped(&app.logs[0], "[System] アプリケーションを起動しました。"));
}

#[test]
fn engine_present_without_model_waits() {
    let mut app = MyApp::new(config_with_model(""), LabelCatalog::new(), "09:30:00");
    assert_eq!(step(&mut app, WorkerMessage::DependencyCheckResult(true)), None);
    assert_eq!(app.state, AppState::NoModel);
    assert!(!app.needs_repaint());
    assert_eq!(app.logs.len(), 1);
    assert_eq!(app.model_display_name(), "未選択");
}

#[test]
fn engine_present_with_model_loads_it() {
    let mut app = MyApp::new(config_with_model("/models/gemma.gguf"), LabelCatalog::new(), "09:30:00");
    let load = step(&mut app, WorkerMessage::DependencyCheckResult(true));
    assert_eq!(load, Some("/models/gemma.gguf".to_string()));
    assert_eq!(app.state, AppState::LoadingModel);
    assert!(is_stamped(&app.logs[1], "モデルをロードしています..."));
    assert_eq!(app.model_display_name(), "gemma.gguf");
    assert_eq!(step(&mut app, WorkerMessage::ModelLoaded(Ok(()))), None);
    assert_eq!(app.state, AppState::Ready);
    assert!(is_stamped(&app.logs[2], "モデルのロードが完了しました。"));
    assert!(app.can_translate(false));
    assert!(!app.can_translate(true));
}

#[test]
fn missing_engine_goes_to_setup() {
    let mut app = MyApp::new(config_with_model("m.gguf"), LabelCatalog::new(), "09:30:00");
    assert_eq!(step(&mut app, WorkerMessage::DependencyCheckResult(false)), None);
    assert_eq!(app.state, AppState::SetupRequired);
    assert_eq!(app.screen(), Screen::Setup);
    app.begin_setup("10:00:00");
    assert_eq!(app.state, AppState::SettingUp);
    assert_eq!(app.screen(), Screen::Setup);
    let load = step(&mut app, WorkerMessage::SetupFinished(Ok(())));
    assert_eq!(load, Some("m.gguf".to_string()));
    assert_eq!(app.state, AppState::LoadingModel);
    assert_eq!(app.screen(), Screen::Main);
}

#[test]
fn setup_failure_is_an_error() {
    let mut app = MyApp::new(config_with_model(""), LabelCatalog::new(), "09:30:00");
    step(&mut app, WorkerMessage::SetupFinished(Err("pip failed".to_string())));
    assert_eq!(app.state, AppState::Error("セットアップ失敗:\npip failed".to_string()));
    assert!(is_stamped(app.logs.last().unwrap(), "エラー:  pip failed"));
}

#[test]
fn load_failure_is_an_error() {
    let mut app = MyApp::new(config_with_model("x.gguf"), LabelCatalog::new(), "09:30:00");
    step(&mut app, WorkerMessage::ModelLoaded(Err("bad file".to_string())));
    assert_eq!(app.state, AppState::Error("ロード失敗: bad file".to_string()));
    assert!(!app.can_translate(false));
}

#[test]
fn streaming_then_done() {
    let mut app = MyApp::new(config_with_model("x.gguf"), LabelCatalog::new(), "09:30:00");
    step(&mut app, WorkerMessage::ModelLoaded(Ok(())));
    app.input_text = "Hello".to_string();
    app.output_text = "old".to_string();
    let req = app.begin_translation("10:00:01");
    assert_eq!(req.text, "Hello");
    assert_eq!(req.src_lang, "English(US)");
    assert_eq!(req.target_lang, "Japanese");
    assert_eq!(req.max_new_tokens, 512);
    assert_eq!(req.top_k, 40);
    assert_eq!(app.state, AppState::Translating);
    assert_eq!(app.output_text, "");
    step(&mut app, WorkerMessage::StreamChunk("<think>hm".to_string()));
    assert_eq!(app.output_text, "");
    step(&mut app, WorkerMessage::StreamChunk("</think> こんに".to_string()));
    assert_eq!(app.output_text, "こんに");
    step(&mut app, WorkerMessage::StreamChunk("ちは".to_string()));
    assert_eq!(app.output_text, "こんにちは");
    assert_eq!(app.raw_translation_buffer, "<think>hm</think> こんにちは");
    let full = app.raw_translation_buffer.clone();
    step(&mut app, WorkerMessage::TranslationDone(Ok(full)));
    assert_eq!(app.output_text, "こんにちは");
    assert_eq!(app.state, AppState::Ready);
    assert!(is_stamped(app.logs.last().unwrap(), "翻訳プロセスが正常に完了しました。"));
}

#[test]
fn translation_error_shows_the_error() {
    let mut app = MyApp::new(config_with_model(""), LabelCatalog::new(), "09:30:00");
    app.begin_translation("10:00:01");
    step(&mut app, WorkerMessage::TranslationDone(Err("timeout".to_string())));
    assert_eq!(app.output_text, "timeout");
    assert_eq!(app.state, AppState::Ready);
}

#[test]
fn log_keeps_the_last_fifty() {
    let mut app = MyApp::new(config_with_model(""), LabelCatalog::new(), "09:30:00");
    for i in 0..60 {
        app.push_log("12:00:00", &format!("m{}", i));
    }
    assert_eq!(app.logs.len(), MAX_LOG_ENTRIES);
    assert_eq!(app.logs[0], "[12:00:00] m10");
    assert_eq!(app.logs[49], "[12:00:00] m59");
}

#[test]
fn labels_follow_the_interface_language() {
    let mut catalog = LabelCatalog::new();
    catalog.insert("English".to_string(), labels_with("System log", "Model loaded."));
    let mut config = config_with_model("a.gguf");
    config.ui_lang = "English".to_string();
    let mut app = MyApp::new(config, catalog, "09:30:00");
    assert_eq!(app.log_header(), "System log");
    assert_eq!(app.ui_languages(), vec!["English"]);
    step(&mut app, WorkerMessage::ModelLoaded(Ok(())));
    assert!(is_stamped(app.logs.last().unwrap(), "Model loaded."));
    app.config.ui_lang = "Klingon".to_string();
    assert_eq!(app.current_labels().system_log, "システムログ");
}

#[test]
fn empty_catalog_ui() {
    let app = MyApp::new(config_with_model(""), LabelCatalog::new(), "09:30:00");
    assert_eq!(app.log_header(), "System Log");
    assert_eq!(app.ui_languages(), vec!["Japanese"]);
}

#[test]
fn play_controls() {
    let mut app = MyApp::new(config_with_model(""), LabelCatalog::new(), "09:30:00");
    assert!(!app.can_play());
    app.output_text = "  \n".to_string();
    assert!(!app.can_play());
    app.output_text = "訳".to_string();
    assert!(app.can_play());
    assert_eq!(app.play_button_label(), "Play");
    app.announce_speech("10:00:02");
    assert!(is_stamped(app.logs.last().unwrap(), "KokoroTTSで音声を生成・再生します。"));
    app.target_lang = "Korean".to_string();
    assert_eq!(app.play_button_label(), "Play (OS)");
    app.announce_speech("10:00:02");
    assert!(app.logs.last().unwrap().contains("OS標準TTS"));
    app.note_copied("10:00:03");
    assert!(is_stamped(app.logs.last().unwrap(), "出力テキストをクリップボードにコピーしました。"));
}

#[test]
fn choosing_and_rebuilding() {
    let mut app = MyApp::new(config_with_model(""), LabelCatalog::new(), "09:30:00");
    app.choose_model("/tmp/new.gguf".to_string(), "10:00:04");
    assert_eq!(app.config.model_path, "/tmp/new.gguf");
    assert_eq!(app.state, AppState::LoadingModel);
    app.force_rebuild();
    assert_eq!(app.state, AppState::SetupRequired);
    app.src_lang = "French".to_string();
    app.target_lang = "Italian".to_string();
    app.remember_languages();
    assert_eq!(app.config.default_src, "French");
    assert_eq!(app.config.default_target, "Italian");
}

#[test]
fn model_labels() {
    assert_eq!(model_label("", "none", Some("x".to_string())), "none");
    assert_eq!(model_label("/a/b.gguf", "none", Some("b.gguf".to_string())), "b.gguf");
    assert_eq!(model_label("/", "none", None), "");
}

#[test]
fn fonts() {
    let s = font_sources();
    assert_eq!(s.len(), 4);
    assert_eq!(s[1].name, "jp");
    assert_eq!(s[3].path, "fonts/NotoSansKR-Regular.otf");
    assert!(accept_font_file(100_001));
    assert!(!accept_font_file(100_000));
    let loaded = vec!["latin".to_string(), "jp".to_string()];
    let existing = vec!["Ubuntu".to_string(), "emoji".to_string()];
    assert_eq!(font_family_order(&loaded, existing), vec!["latin", "jp", "Ubuntu", "emoji"]);
}

#[test]
fn configured_fonts_win_over_built_in_ones() {
    let configured = vec![
        FontSource { name: "serif".to_string(), path: "fonts/Serif.ttf".to_string() },
        FontSource { name: "mono".to_string(), path: "fonts/Mono.ttf".to_string() },
    ];
    let chosen = choose_font_sources(configured);
    assert_eq!(chosen.len(), 2);
    assert_eq!(chosen[0].name, "serif");
    assert_eq!(chosen[1].path, "fonts/Mono.ttf");
    let built_in = choose_font_sources(Vec::new());
    assert_eq!(built_in.len(), 4);
    assert_eq!(built_in[0].name, "latin");
    assert_eq!(built_in[2].path, "fonts/NotoSansSC-Regular.otf");
}

#[test]
fn only_readable_large_fonts_are_installed() {
    let sources = font_sources();
    let sizes = vec![Some(200_000), None, Some(50), Some(100_001)];
    assert_eq!(usable_fonts(&sources, &sizes), vec!["latin", "kr"]);
}

#[test]
fn setup_can_begin_only_when_required() {
    let mut app = MyApp::new(config_with_model(""), LabelCatalog::new(), "09:30:00");
    assert!(!app.can_begin_setup());
    step(&mut app, WorkerMessage::DependencyCheckResult(false));
    assert!(app.can_begin_setup());
    app.begin_setup("10:00:00");
    assert!(!app.can_begin_setup());
}

#[test]
fn model_names_from_paths() {
    let mut app = MyApp::new(config_with_model("gemma.gguf"), LabelCatalog::new(), "09:30:00");
    assert_eq!(app.model_display_name(), "gemma.gguf");
    app.config.model_path = "models/sub/bonsai-8b.gguf".to_string();
    assert_eq!(app.model_display_name(), "bonsai-8b.gguf");
}

#[test]
fn entries_carry_the_given_stamp() {
    let mut app = MyApp::new(config_with_model("m.gguf"), LabelCatalog::new(), "08:15:42");
    assert_eq!(app.logs[0], "[08:15:42] [System] アプリケーションを起動しました。");
    app.handle_message(WorkerMessage::ModelLoaded(Ok(())), "23:59:60");
    assert_eq!(app.logs[1], "[23:59:60] モデルのロードが完了しました。");
}
