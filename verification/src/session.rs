//! The application's state machine: what each event from the background
//! workers and each user action does to the state, the output and the log,
//! and which work the front end is to start.

use vstd::prelude::*;
use vstd::string::StringExecFns;
use crate::config::{prompt_filled, AppConfig};
use crate::labels::{fallback_texts, get_fallback_labels, string_views, I18nLabels, LabelCatalog, LabelTexts};
use crate::text::{chars_of, occurs_at, parse_thought_process, thought_split, trim, trim_window};
use crate::voice::{is_kokoro_supported, kokoro_voice};

verus! {

/// The most entries the log keeps; older ones are dropped first.
pub const MAX_LOG_ENTRIES: usize = 50;

/// Where the application stands.
#[derive(Debug, Clone, PartialEq, Eq)]
pub enum AppState {
    CheckingDependencies,
    SetupRequired,
    SettingUp,
    NoModel,
    LoadingModel,
    Ready,
    Translating,
    Error(String),
}

/// What a background worker reports.
#[derive(Debug, PartialEq, Eq)]
pub enum WorkerMessage {
    /// Whether the inference engine is installed.
    DependencyCheckResult(bool),
    /// How the installation of the inference engine ended.
    SetupFinished(Result<(), String>),
    /// How loading a model ended.
    ModelLoaded(Result<(), String>),
    /// A piece of a translation that is being produced.
    StreamChunk(String),
    /// How a translation ended, with its full raw text.
    TranslationDone(Result<String, String>),
}

/// The screen that the front end shows.
#[derive(Debug, Clone, Copy, PartialEq, Eq)]
pub enum Screen {
    /// A notice that the environment is being checked.
    Checking,
    /// The installation screen.
    Setup,
    /// The translation screen.
    Main,
}

/// What the model is asked to translate, and how.
#[derive(Debug, Clone)]
pub struct TranslationRequest {
    pub text: String,
    pub src_lang: String,
    pub target_lang: String,
    pub max_new_tokens: i32,
    pub top_k: i32,
    pub system_prompt: String,
}

/// A log line: the stamp (the time of day, as the front end reads it from
/// the clock) in brackets, then the message.
pub open spec fn log_entry(stamp: Seq<char>, message: Seq<char>) -> Seq<char> {
    "["@ + stamp + "] "@ + message
}

/// `logs` with `entry` appended, the oldest entry dropped when that makes
/// more than `MAX_LOG_ENTRIES`.
pub open spec fn bounded_push(logs: Seq<Seq<char>>, entry: Seq<char>) -> Seq<Seq<char>> {
    if logs.len() + 1 > MAX_LOG_ENTRIES {
        logs.push(entry).drop_first()
    } else {
        logs.push(entry)
    }
}

/// `after` is `before` with the entry for `message`, stamped with `stamp`,
/// appended.
pub open spec fn logged(
    before: Seq<Seq<char>>,
    after: Seq<Seq<char>>,
    stamp: Seq<char>,
    message: Seq<char>,
) -> bool {
    after == bounded_push(before, log_entry(stamp, message))
}

/// The application's state, apart from what belongs to the window system
/// and the background workers.
pub struct MyApp {
    pub config: AppConfig,
    pub i18n_all: LabelCatalog,
    pub input_text: String,
    pub output_text: String,
    pub raw_translation_buffer: String,
    pub logs: Vec<String>,
    pub src_lang: String,
    pub target_lang: String,
    pub state: AppState,
}

/// `a` and `b` agree on everything but the log.
pub open spec fn same_but_log(a: MyApp, b: MyApp) -> bool {
    &&& a.config == b.config
    &&& a.i18n_all == b.i18n_all
    &&& a.input_text == b.input_text
    &&& a.output_text == b.output_text
    &&& a.raw_translation_buffer == b.raw_translation_buffer
    &&& a.src_lang == b.src_lang
    &&& a.target_lang == b.target_lang
    &&& a.state == b.state
}

/// `a` and `b` agree on the settings, the catalog, the input and the
/// chosen languages.
pub open spec fn same_settings(a: MyApp, b: MyApp) -> bool {
    &&& a.config == b.config
    &&& a.i18n_all == b.i18n_all
    &&& a.input_text == b.input_text
    &&& a.src_lang == b.src_lang
    &&& a.target_lang == b.target_lang
}

/// What taking in `msg` does to `old`, giving `new` and the path of a
/// model to load, if any.
pub open spec fn message_outcome(
    old: MyApp,
    msg: WorkerMessage,
    stamp: Seq<char>,
    new: MyApp,
    load: Option<String>,
) -> bool {
    match msg {
        WorkerMessage::DependencyCheckResult(true) => engine_ready_outcome(old, stamp, new, load),
        WorkerMessage::DependencyCheckResult(false) => {
            &&& new.state is SetupRequired
            &&& unchanged_output(old, new, load)
        },
        WorkerMessage::SetupFinished(Ok(_)) => engine_ready_outcome(old, stamp, new, load),
        WorkerMessage::SetupFinished(Err(e)) => {
            &&& new.state matches AppState::Error(shown) && shown@ == "セットアップ失敗:\n"@ + e@
            &&& failure_logged(old, stamp, new, load, e@)
        },
        WorkerMessage::ModelLoaded(Ok(_)) => {
            &&& new.state is Ready
            &&& new.output_text == old.output_text
            &&& new.raw_translation_buffer == old.raw_translation_buffer
            &&& logged(old.log_view(), new.log_view(), stamp, old.texts().log_model_loaded)
            &&& load is None
        },
        WorkerMessage::ModelLoaded(Err(e)) => {
            &&& new.state matches AppState::Error(shown) && shown@ == "ロード失敗: "@ + e@
            &&& failure_logged(old, stamp, new, load, e@)
        },
        WorkerMessage::StreamChunk(chunk) => {
            &&& new.state == old.state
            &&& new.raw_translation_buffer@ == old.raw_translation_buffer@ + chunk@
            &&& new.output_text@ == thought_split(new.raw_translation_buffer@).1
            &&& new.log_view() == old.log_view()
            &&& load is None
        },
        WorkerMessage::TranslationDone(Ok(res)) => {
            &&& new.state is Ready
            &&& new.output_text@ == thought_split(res@).1
            &&& new.raw_translation_buffer == old.raw_translation_buffer
            &&& logged(old.log_view(), new.log_view(), stamp, old.texts().log_translation_complete)
            &&& load is None
        },
        WorkerMessage::TranslationDone(Err(e)) => {
            &&& new.state is Ready
            &&& new.output_text == e
            &&& new.raw_translation_buffer == old.raw_translation_buffer
            &&& logged(old.log_view(), new.log_view(), stamp, old.texts().error_prefix + " "@ + e@)
            &&& load is None
        },
    }
}

/// The output, the raw translation and the log are as they were, and no
/// model is to be loaded.
pub open spec fn unchanged_output(old: MyApp, new: MyApp, load: Option<String>) -> bool {
    &&& new.output_text == old.output_text
    &&& new.raw_translation_buffer == old.raw_translation_buffer
    &&& new.log_view() == old.log_view()
    &&& load is None
}

/// A failure with message `e` is logged after the error prefix, the output
/// is kept, and no model is to be loaded.
pub open spec fn failure_logged(
    old: MyApp,
    stamp: Seq<char>,
    new: MyApp,
    load: Option<String>,
    e: Seq<char>,
) -> bool {
    &&& new.output_text == old.output_text
    &&& new.raw_translation_buffer == old.raw_translation_buffer
    &&& logged(old.log_view(), new.log_view(), stamp, old.texts().error_prefix + " "@ + e)
    &&& load is None
}

/// Once the engine is installed: without a model in the settings the
/// application waits for one; with one it logs and starts loading it.
pub open spec fn engine_ready_outcome(old: MyApp, stamp: Seq<char>, new: MyApp, load: Option<String>) -> bool {
    &&& same_settings(old, new)
    &&& new.output_text == old.output_text
    &&& new.raw_translation_buffer == old.raw_translation_buffer
    &&& if old.config.model_path@.len() == 0 {
        &&& new.state is NoModel
        &&& new.log_view() == old.log_view()
        &&& load is None
    } else {
        &&& new.state is LoadingModel
        &&& logged(old.log_view(), new.log_view(), stamp, old.texts().log_model_loading)
        &&& load matches Some(path) && path@ == old.config.model_path@
    }
}

/// `a` and `b` agree on every setting but the model path and the default
/// source and target languages.
pub open spec fn same_core_config(a: AppConfig, b: AppConfig) -> bool {
    &&& a.ui_lang == b.ui_lang
    &&& a.device == b.device
    &&& a.espeak_path == b.espeak_path
    &&& a.languages == b.languages
    &&& a.max_new_tokens == b.max_new_tokens
    &&& a.top_k == b.top_k
    &&& a.system_prompt == b.system_prompt
}

/// The screen shown in state `s`.
pub open spec fn screen_for(s: AppState) -> Screen {
    match s {
        AppState::CheckingDependencies => Screen::Checking,
        AppState::SetupRequired | AppState::SettingUp => Screen::Setup,
        _ => Screen::Main,
    }
}

/// `n` is a plain file name: not empty, free of `/`, `\\` and `:`, and
/// neither `.` nor `..`.
pub open spec fn is_plain_name(n: Seq<char>) -> bool {
    &&& n.len() > 0
    &&& forall|i: int| 0 <= i < n.len() ==> n[i] != '/' && n[i] != '\\' && n[i] != ':'
    &&& n != "."@
    &&& n != ".."@
}

/// `p` is a directory part free of `\\` and `:`, a slash at position `i`,
/// then a plain file name, and `p` does not begin with two slashes: on
/// every platform its last component is the name after that slash.
pub open spec fn plain_split(p: Seq<char>, i: int) -> bool {
    &&& 0 <= i < p.len()
    &&& p[i] == '/'
    &&& forall|j: int| 0 <= j < i ==> p[j] != '\\' && p[j] != ':'
    &&& !(p.len() >= 2 && p[0] == '/' && p[1] == '/')
    &&& is_plain_name(p.subrange(i + 1, p.len() as int))
}

/// `name` is `Some` of the plain name that ends the path `p`, where `p` is
/// a plain name or a plain split.
pub open spec fn gives_plain_name(p: Seq<char>, name: Option<String>) -> bool {
    &&& is_plain_name(p) ==> (name matches Some(n) && n@ == p)
    &&& forall|i: int|
        #[trigger] plain_split(p, i) ==> (name matches Some(n) && n@ == p.subrange(
            i + 1,
            p.len() as int,
        ))
}

/// The last component of the path `p`, from `std::path::Path::file_name`,
/// as text. A component is a non-empty piece of `p`. On every platform a
/// plain file name is its own last component, and so is a plain file name
/// after a slash that ends a directory part without `\\`, `:` or a
/// leading double slash (which Windows reads as prefixes). What other
/// paths give depends on the platform's separators and prefixes, and is
/// left unsaid.
#[verifier::external_body]
fn path_file_name(p: &str) -> (r: Option<String>)
    ensures
        r matches Some(n) ==> n@.len() > 0 && exists|i: int| occurs_at(p@, n@, i),
        gives_plain_name(p@, r),
{
    match std::path::Path::new(p).file_name() {
        Some(n) => Some(n.to_string_lossy().into_owned()),
        None => None,
    }
}

/// The name shown for a model: `unselected` when `model_path` is empty,
/// otherwise the path's last component `file_name`, or nothing when the
/// path has none.
pub fn model_label(model_path: &str, unselected: &str, file_name: Option<String>) -> (r: String)
    ensures
        r@ == (if model_path@.len() == 0 {
            unselected@
        } else {
            match file_name {
                Some(n) => n@,
                None => Seq::empty(),
            }
        }),
{
    if model_path.is_empty() {
        unselected.to_owned()
    } else {
        match file_name {
            Some(n) => n,
            None => String::new(),
        }
    }
}

impl MyApp {
    /// The log, oldest entry first.
    pub open spec fn log_view(&self) -> Seq<Seq<char>> {
        string_views(self.logs@)
    }

    /// The catalog keeps its names in order and the log is within bounds.
    pub open spec fn well_formed(&self) -> bool {
        &&& self.i18n_all.well_formed()
        &&& self.logs.len() <= MAX_LOG_ENTRIES
    }

    /// The interface texts in use: those of the chosen interface language,
    /// or the built-in ones when the catalog lacks it.
    pub open spec fn texts(&self) -> LabelTexts {
        if self.i18n_all@.contains_key(self.config.ui_lang@) {
            self.i18n_all@[self.config.ui_lang@]@
        } else {
            fallback_texts()
        }
    }

    /// Appends the entry `[stamp] message` to the log, dropping the oldest
    /// entry when the log would exceed `MAX_LOG_ENTRIES`.
    pub fn push_log(&mut self, stamp: &str, message: &str)
        requires
            old(self).well_formed(),
        ensures
            final(self).well_formed(),
            same_but_log(*old(self), *final(self)),
            final(self).log_view() == bounded_push(old(self).log_view(), log_entry(stamp@, message@)),
    {
        let mut entry = "[".to_owned();
        entry.append(stamp);
        entry.append("] ");
        entry.append(message);
        let ghost before = self.log_view();
        self.logs.push(entry);
        assert(string_views(self.logs@) =~= before.push(log_entry(stamp@, message@)));
        if self.logs.len() > MAX_LOG_ENTRIES {
            self.logs.remove(0);
            assert(string_views(self.logs@) =~= before.push(log_entry(stamp@, message@)).drop_first());
        }
    }

    /// The interface texts in use.
    pub fn current_labels(&self) -> (r: I18nLabels)
        requires
            self.well_formed(),
        ensures
            r@ == self.texts(),
    {
        match self.i18n_all.get(self.config.ui_lang.as_str()) {
            Some(l) => l.duplicate(),
            None => get_fallback_labels(),
        }
    }

    /// The application as it starts: the default instructions in place of
    /// empty ones, the languages chosen by the settings, nothing translated,
    /// the environment about to be checked, and the start logged.
    pub fn new(config: AppConfig, i18n_all: LabelCatalog, stamp: &str) -> (r: MyApp)
        requires
            i18n_all.well_formed(),
        ensures
            r.well_formed(),
            prompt_filled(config, r.config),
            r.i18n_all == i18n_all,
            r.input_text@.len() == 0,
            r.output_text@.len() == 0,
            r.raw_translation_buffer@.len() == 0,
            r.src_lang@ == config.default_src@,
            r.target_lang@ == config.default_target@,
            r.state is CheckingDependencies,
            logged(Seq::empty(), r.log_view(), stamp@, r.texts().log_app_started),
    {
        let mut config = config;
        config.fill_default_prompt();
        let mut app = MyApp {
            src_lang: config.default_src.clone(),
            target_lang: config.default_target.clone(),
            config,
            i18n_all,
            input_text: String::new(),
            output_text: String::new(),
            raw_translation_buffer: String::new(),
            logs: Vec::new(),
            state: AppState::CheckingDependencies,
        };
        assert(app.log_view() =~= Seq::<Seq<char>>::empty());
        let labels = app.current_labels();
        app.push_log(stamp, labels.log_app_started.as_str());
        app
    }

    /// Marks the model as being loaded and logs it; the front end then
    /// loads the model named by the settings in the background.
    pub fn begin_model_load(&mut self, stamp: &str)
        requires
            old(self).well_formed(),
        ensures
            final(self).well_formed(),
            same_settings(*old(self), *final(self)),
            final(self).output_text == old(self).output_text,
            final(self).raw_translation_buffer == old(self).raw_translation_buffer,
            final(self).state is LoadingModel,
            logged(old(self).log_view(), final(self).log_view(), stamp@, old(self).texts().log_model_loading),
    {
        self.state = AppState::LoadingModel;
        let labels = self.current_labels();
        self.push_log(stamp, labels.log_model_loading.as_str());
    }

    /// Logs `message` preceded by the error prefix of the interface texts.
    fn log_error(&mut self, stamp: &str, message: &str)
        requires
            old(self).well_formed(),
        ensures
            final(self).well_formed(),
            same_but_log(*old(self), *final(self)),
            logged(
                old(self).log_view(),
                final(self).log_view(),
                stamp@,
                old(self).texts().error_prefix + " "@ + message@,
            ),
    {
        let labels = self.current_labels();
        let mut line = labels.error_prefix;
        line.append(" ");
        line.append(message);
        self.push_log(stamp, line.as_str());
    }

    /// After the engine is found installed: wait for a model, or start
    /// loading the one that the settings name.
    fn after_engine_ready(&mut self, stamp: &str) -> (load: Option<String>)
        requires
            old(self).well_formed(),
        ensures
            final(self).well_formed(),
            engine_ready_outcome(*old(self), stamp@, *final(self), load),
    {
        self.state = AppState::NoModel;
        if self.config.model_path.as_str().is_empty() {
            None
        } else {
            let path = self.config.model_path.clone();
            self.begin_model_load(stamp);
            Some(path)
        }
    }

    /// Takes in a worker's report and returns the path of a model that the
    /// front end is to start loading, if any. Entries it logs carry
    /// `stamp`.
    pub fn handle_message(&mut self, msg: WorkerMessage, stamp: &str) -> (load: Option<String>)
        requires
            old(self).well_formed(),
        ensures
            final(self).well_formed(),
            same_settings(*old(self), *final(self)),
            message_outcome(*old(self), msg, stamp@, *final(self), load),
    {
        match msg {
            WorkerMessage::DependencyCheckResult(has_engine) => {
                if has_engine {
                    self.after_engine_ready(stamp)
                } else {
                    self.state = AppState::SetupRequired;
                    None
                }
            },
            WorkerMessage::SetupFinished(Ok(_)) => self.after_engine_ready(stamp),
            WorkerMessage::SetupFinished(Err(e)) => {
                let mut shown = "セットアップ失敗:\n".to_owned();
                shown.append(e.as_str());
                self.state = AppState::Error(shown);
                self.log_error(stamp, e.as_str());
                None
            },
            WorkerMessage::ModelLoaded(Ok(_)) => {
                let labels = self.current_labels();
                self.push_log(stamp, labels.log_model_loaded.as_str());
                self.state = AppState::Ready;
                None
            },
            WorkerMessage::ModelLoaded(Err(e)) => {
                let mut shown = "ロード失敗: ".to_owned();
                shown.append(e.as_str());
                self.state = AppState::Error(shown);
                self.log_error(stamp, e.as_str());
                None
            },
            WorkerMessage::StreamChunk(chunk) => {
                self.raw_translation_buffer.append(chunk.as_str());
                let (_, output) = parse_thought_process(self.raw_translation_buffer.as_str());
                self.output_text = output;
                None
            },
            WorkerMessage::TranslationDone(Ok(res)) => {
                let labels = self.current_labels();
                self.push_log(stamp, labels.log_translation_complete.as_str());
                let (_, output) = parse_thought_process(res.as_str());
                self.output_text = output;
                self.state = AppState::Ready;
                None
            },
            WorkerMessage::TranslationDone(Err(e)) => {
                self.log_error(stamp, e.as_str());
                self.output_text = e;
                self.state = AppState::Ready;
                None
            },
        }
    }

    /// Marks the installation of the inference engine as under way and
    /// logs it; the front end then runs the installer in the background.
    pub fn begin_setup(&mut self, stamp: &str)
        requires
            old(self).well_formed(),
        ensures
            final(self).well_formed(),
            same_settings(*old(self), *final(self)),
            final(self).output_text == old(self).output_text,
            final(self).raw_translation_buffer == old(self).raw_translation_buffer,
            final(self).state is SettingUp,
            logged(old(self).log_view(), final(self).log_view(), stamp@, old(self).texts().log_setup_started),
    {
        self.state = AppState::SettingUp;
        let labels = self.current_labels();
        self.push_log(stamp, labels.log_setup_started.as_str());
    }

    /// Whether the installation of the inference engine can be started:
    /// only while it is required, not while one is under way.
    pub fn can_begin_setup(&self) -> (r: bool)
        ensures
            r == (self.state is SetupRequired),
    {
        match self.state {
            AppState::SetupRequired => true,
            _ => false,
        }
    }

    /// Takes the model file that the user picked into the settings and
    /// starts loading it; the front end then saves the settings and loads
    /// the model in the background.
    pub fn choose_model(&mut self, path: String, stamp: &str)
        requires
            old(self).well_formed(),
        ensures
            final(self).well_formed(),
            final(self).config.model_path == path,
            same_core_config(old(self).config, final(self).config),
            final(self).config.default_src == old(self).config.default_src,
            final(self).config.default_target == old(self).config.default_target,
            final(self).i18n_all == old(self).i18n_all,
            final(self).input_text == old(self).input_text,
            final(self).output_text == old(self).output_text,
            final(self).raw_translation_buffer == old(self).raw_translation_buffer,
            final(self).src_lang == old(self).src_lang,
            final(self).target_lang == old(self).target_lang,
            final(self).state is LoadingModel,
            logged(old(self).log_view(), final(self).log_view(), stamp@, old(self).texts().log_model_loading),
    {
        self.config.model_path = path;
        self.begin_model_load(stamp);
    }

    /// Asks for the inference engine to be installed again.
    pub fn force_rebuild(&mut self)
        ensures
            final(self).state is SetupRequired,
            same_settings(*old(self), *final(self)),
            final(self).output_text == old(self).output_text,
            final(self).raw_translation_buffer == old(self).raw_translation_buffer,
            final(self).logs == old(self).logs,
    {
        self.state = AppState::SetupRequired;
    }

    /// Starts a translation of the input: the state becomes `Translating`,
    /// the output and the raw translation are cleared, the start is logged,
    /// and the request for the model is returned.
    pub fn begin_translation(&mut self, stamp: &str) -> (req: TranslationRequest)
        requires
            old(self).well_formed(),
        ensures
            final(self).well_formed(),
            same_settings(*old(self), *final(self)),
            final(self).state is Translating,
            final(self).output_text@.len() == 0,
            final(self).raw_translation_buffer@.len() == 0,
            logged(
                old(self).log_view(),
                final(self).log_view(),
                stamp@,
                old(self).texts().log_translation_started,
            ),
            req.text == old(self).input_text,
            req.src_lang == old(self).src_lang,
            req.target_lang == old(self).target_lang,
            req.max_new_tokens == old(self).config.max_new_tokens,
            req.top_k == old(self).config.top_k,
            req.system_prompt == old(self).config.system_prompt,
    {
        self.state = AppState::Translating;
        self.output_text = String::new();
        self.raw_translation_buffer = String::new();
        let labels = self.current_labels();
        self.push_log(stamp, labels.log_translation_started.as_str());
        TranslationRequest {
            text: self.input_text.clone(),
            src_lang: self.src_lang.clone(),
            target_lang: self.target_lang.clone(),
            max_new_tokens: self.config.max_new_tokens,
            top_k: self.config.top_k,
            system_prompt: self.config.system_prompt.clone(),
        }
    }

    /// Keeps the chosen source and target languages in the settings as the
    /// defaults; the front end then saves the settings.
    pub fn remember_languages(&mut self)
        ensures
            final(self).config.default_src == old(self).src_lang,
            final(self).config.default_target == old(self).target_lang,
            same_core_config(old(self).config, final(self).config),
            final(self).config.model_path == old(self).config.model_path,
            final(self).input_text == old(self).input_text,
            final(self).output_text == old(self).output_text,
            final(self).raw_translation_buffer == old(self).raw_translation_buffer,
            final(self).src_lang == old(self).src_lang,
            final(self).target_lang == old(self).target_lang,
            final(self).i18n_all == old(self).i18n_all,
            final(self).state == old(self).state,
            final(self).logs == old(self).logs,
    {
        self.config.default_src = self.src_lang.clone();
        self.config.default_target = self.target_lang.clone();
    }

    /// The interface languages offered: those of the catalog in ascending
    /// order, or Japanese alone when the catalog is empty.
    pub fn ui_languages(&self) -> (r: Vec<String>)
        requires
            self.well_formed(),
        ensures
            string_views(r@) == (if self.i18n_all.names().len() == 0 {
                seq!["Japanese"@]
            } else {
                self.i18n_all.names()
            }),
    {
        let mut langs = self.i18n_all.languages();
        if langs.len() == 0 {
            langs.push("Japanese".to_owned());
            assert(string_views(langs@) =~= seq!["Japanese"@]);
        }
        langs
    }

    /// The heading of the log panel: fixed English text when the catalog is
    /// empty, the interface text otherwise.
    pub fn log_header(&self) -> (r: String)
        requires
            self.well_formed(),
        ensures
            r@ == (if self.i18n_all@.dom().len() == 0 {
                "System Log"@
            } else {
                self.texts().system_log
            }),
    {
        if self.i18n_all.is_empty() {
            "System Log".to_owned()
        } else {
            self.current_labels().system_log
        }
    }

    /// Whether a translation can be started: the model is ready and nothing
    /// is being read aloud.
    pub fn can_translate(&self, speaking: bool) -> (r: bool)
        ensures
            r == (self.state is Ready && !speaking),
    {
        match self.state {
            AppState::Ready => !speaking,
            _ => false,
        }
    }

    /// Whether the output can be read aloud: it holds more than white
    /// space.
    pub fn can_play(&self) -> (r: bool)
        ensures
            r == (trim(self.output_text@).len() != 0),
    {
        let v = chars_of(self.output_text.as_str());
        assert(v@.subrange(0, v@.len() as int) =~= self.output_text@);
        let (lo, hi) = trim_window(&v, 0, v.len());
        lo != hi
    }

    /// The caption of the play button: it names the operating system's
    /// speech service when the neural engine does not support the target
    /// language.
    pub fn play_button_label(&self) -> (r: String)
        ensures
            r@ == (if kokoro_voice(self.target_lang@) is Some {
                "Play"@
            } else {
                "Play (OS)"@
            }),
    {
        if is_kokoro_supported(self.target_lang.as_str()) {
            "Play".to_owned()
        } else {
            "Play (OS)".to_owned()
        }
    }

    /// Logs which speech engine is about to read the output.
    pub fn announce_speech(&mut self, stamp: &str)
        requires
            old(self).well_formed(),
        ensures
            final(self).well_formed(),
            same_but_log(*old(self), *final(self)),
            logged(
                old(self).log_view(),
                final(self).log_view(),
                stamp@,
                if kokoro_voice(old(self).target_lang@) is Some {
                    old(self).texts().log_tts_kokoro
                } else {
                    old(self).texts().log_tts_os
                },
            ),
    {
        let labels = self.current_labels();
        if is_kokoro_supported(self.target_lang.as_str()) {
            self.push_log(stamp, labels.log_tts_kokoro.as_str());
        } else {
            self.push_log(stamp, labels.log_tts_os.as_str());
        }
    }

    /// Logs that the output was copied to the clipboard.
    pub fn note_copied(&mut self, stamp: &str)
        requires
            old(self).well_formed(),
        ensures
            final(self).well_formed(),
            same_but_log(*old(self), *final(self)),
            logged(old(self).log_view(), final(self).log_view(), stamp@, old(self).texts().log_copied),
    {
        let labels = self.current_labels();
        self.push_log(stamp, labels.log_copied.as_str());
    }

    /// The screen to show: a notice while the environment is checked, the
    /// installation screen while the engine is missing or being installed,
    /// the translation screen otherwise.
    pub fn screen(&self) -> (r: Screen)
        ensures
            r == screen_for(self.state),
    {
        match self.state {
            AppState::CheckingDependencies => Screen::Checking,
            AppState::SetupRequired | AppState::SettingUp => Screen::Setup,
            _ => Screen::Main,
        }
    }

    /// Whether the window is to be redrawn continuously: in every state
    /// but `Ready` and `NoModel`, where nothing changes by itself.
    pub fn needs_repaint(&self) -> (r: bool)
        ensures
            r == !(self.state is Ready || self.state is NoModel),
    {
        match self.state {
            AppState::Ready | AppState::NoModel => false,
            _ => true,
        }
    }

    /// The name shown for the model: the interface text for "unselected"
    /// when the settings name no model, otherwise the last component of
    /// its path.
    pub fn model_display_name(&self) -> (r: String)
        requires
            self.well_formed(),
        ensures
            self.config.model_path@.len() == 0 ==> r@ == self.texts().unselected,
            self.config.model_path@.len() != 0 ==> r@.len() == 0 || exists|i: int|
                occurs_at(self.config.model_path@, r@, i),
            is_plain_name(self.config.model_path@) ==> r@ == self.config.model_path@,
            forall|i: int|
                #[trigger] plain_split(self.config.model_path@, i) ==> r@
                    == self.config.model_path@.subrange(i + 1, self.config.model_path@.len() as int),
    {
        let labels = self.current_labels();
        let name = path_file_name(self.config.model_path.as_str());
        model_label(self.config.model_path.as_str(), labels.unselected.as_str(), name)
    }
}

/// The log never holds more than `MAX_LOG_ENTRIES` entries, its newest
/// entry is the one just added, and the entries it keeps are the most
/// recent ones, in order.
pub proof fn lemma_bounded_push(logs: Seq<Seq<char>>, entry: Seq<char>)
    requires
        logs.len() <= MAX_LOG_ENTRIES,
    ensures
        bounded_push(logs, entry).len() <= MAX_LOG_ENTRIES,
        bounded_push(logs, entry).last() == entry,
        bounded_push(logs, entry) == logs.push(entry).subrange(
            logs.len() + 1 - bounded_push(logs, entry).len() as int,
            logs.len() + 1 as int,
        ),
{
    let l = logs.push(entry);
    if l.len() > MAX_LOG_ENTRIES {
        assert(l.drop_first() =~= l.subrange(1, l.len() as int));
    } else {
        assert(l =~= l.subrange(0, l.len() as int));
    }
}

/// When the worker's final text is the text streamed so far, finishing the
/// translation shows the same answer that the last piece showed, and the
/// application is ready again.
pub proof fn lemma_done_agrees_with_stream(
    a: MyApp,
    chunk: String,
    b: MyApp,
    res: String,
    c: MyApp,
    load1: Option<String>,
    load2: Option<String>,
    stamp1: Seq<char>,
    stamp2: Seq<char>,
)
    requires
        message_outcome(a, WorkerMessage::StreamChunk(chunk), stamp1, b, load1),
        message_outcome(b, WorkerMessage::TranslationDone(Ok(res)), stamp2, c, load2),
        res@ == b.raw_translation_buffer@,
    ensures
        c.output_text@ == b.output_text@,
        c.state is Ready,
{
}

/// Every report that ends a translation, with success or failure, leaves
/// the application ready for the next one.
pub proof fn lemma_translation_end_is_ready(
    a: MyApp,
    result: Result<String, String>,
    b: MyApp,
    load: Option<String>,
    stamp: Seq<char>,
)
    requires
        message_outcome(a, WorkerMessage::TranslationDone(result), stamp, b, load),
    ensures
        b.state is Ready,
        load is None,
{
}

/// A translation can start only from the translation screen.
pub proof fn lemma_translate_only_on_main_screen(s: AppState)
    requires
        s is Ready,
    ensures
        screen_for(s) == Screen::Main,
{
}

/// The texts of `chunks`, one after the other.
pub open spec fn joined(chunks: Seq<String>) -> Seq<char>
    decreases chunks.len(),
{
    if chunks.len() == 0 {
        Seq::empty()
    } else {
        joined(chunks.drop_last()) + chunks.last()@
    }
}

/// After a translation starts, any run of streamed pieces leaves the raw
/// translation equal to the pieces joined in order, the output equal to
/// the answer extracted from it, and the application still translating.
pub proof fn lemma_stream_run(
    apps: Seq<MyApp>,
    chunks: Seq<String>,
    loads: Seq<Option<String>>,
    stamps: Seq<Seq<char>>,
)
    requires
        apps.len() == chunks.len() + 1,
        loads.len() == chunks.len(),
        stamps.len() == chunks.len(),
        apps[0].state is Translating,
        apps[0].raw_translation_buffer@.len() == 0,
        forall|k: int|
            0 <= k < chunks.len() ==> message_outcome(
                apps[k],
                WorkerMessage::StreamChunk(#[trigger] chunks[k]),
                stamps[k],
                apps[k + 1],
                loads[k],
            ),
    ensures
        apps.last().raw_translation_buffer@ == joined(chunks),
        apps.last().state is Translating,
        chunks.len() > 0 ==> apps.last().output_text@ == thought_split(
            apps.last().raw_translation_buffer@,
        ).1,
        forall|k: int| 0 <= k < loads.len() ==> #[trigger] loads[k] is None,
    decreases chunks.len(),
{
    let n = chunks.len();
    if n == 0 {
        assert(apps[0].raw_translation_buffer@ =~= joined(chunks));
    } else {
        let apps0 = apps.drop_last();
        let chunks0 = chunks.drop_last();
        let loads0 = loads.drop_last();
        let stamps0 = stamps.drop_last();
        assert forall|k: int| 0 <= k < chunks0.len() implies message_outcome(
            apps0[k],
            WorkerMessage::StreamChunk(#[trigger] chunks0[k]),
            stamps0[k],
            apps0[k + 1],
            loads0[k],
        ) by {
            assert(chunks0[k] == chunks[k]);
        }
        lemma_stream_run(apps0, chunks0, loads0, stamps0);
        assert(chunks[n - 1] == chunks.last());
        assert(apps0.last() == apps[n - 1]);
        assert forall|k: int| 0 <= k < loads.len() implies #[trigger] loads[k] is None by {
            if k < n - 1 {
                assert(loads0[k] == loads[k]);
            } else {
                assert(chunks[k] == chunks[n - 1]);
            }
        }
    }
}

/// The entries that a run of log steps appends, in order: `None` marks a
/// step that leaves the log as it is.
pub open spec fn appended(steps: Seq<Option<Seq<char>>>) -> Seq<Seq<char>>
    decreases steps.len(),
{
    if steps.len() == 0 {
        Seq::empty()
    } else {
        match steps.last() {
            Some(e) => appended(steps.drop_last()).push(e),
            None => appended(steps.drop_last()),
        }
    }
}

/// `after` is `before` when `step` is `None`, and `before` with the entry
/// of `step` appended otherwise.
pub open spec fn log_step(before: Seq<Seq<char>>, step: Option<Seq<char>>, after: Seq<Seq<char>>) -> bool {
    match step {
        Some(e) => after == bounded_push(before, e),
        None => after == before,
    }
}

/// `log` is the most recent part of `history`, at most `MAX_LOG_ENTRIES`
/// entries, in order.
pub open spec fn keeps_most_recent(log: Seq<Seq<char>>, history: Seq<Seq<char>>) -> bool {
    &&& log.len() == (if history.len() > MAX_LOG_ENTRIES {
        MAX_LOG_ENTRIES as int
    } else {
        history.len() as int
    })
    &&& log == history.subrange(history.len() - log.len(), history.len() as int)
}

/// Over any run of steps, each leaving a log that starts within bounds as
/// it is or appending one entry, the log never holds more than
/// `MAX_LOG_ENTRIES` entries, and at the end it holds the most recent
/// entries of its whole history, in the order in which they were added.
pub proof fn lemma_log_run(logs: Seq<Seq<Seq<char>>>, steps: Seq<Option<Seq<char>>>)
    requires
        logs.len() == steps.len() + 1,
        logs[0].len() <= MAX_LOG_ENTRIES,
        forall|k: int| 0 <= k < steps.len() ==> log_step(logs[k], #[trigger] steps[k], logs[k + 1]),
    ensures
        forall|k: int| 0 <= k < logs.len() ==> (#[trigger] logs[k]).len() <= MAX_LOG_ENTRIES,
        keeps_most_recent(logs.last(), logs[0] + appended(steps)),
    decreases steps.len(),
{
    let n = steps.len() as int;
    if n == 0 {
        assert(logs[0] =~= (logs[0] + appended(steps)).subrange(0, logs[0].len() as int));
    } else {
        let logs0 = logs.drop_last();
        let steps0 = steps.drop_last();
        assert forall|k: int| 0 <= k < steps0.len() implies log_step(
            logs0[k],
            #[trigger] steps0[k],
            logs0[k + 1],
        ) by {
            assert(steps0[k] == steps[k]);
        }
        lemma_log_run(logs0, steps0);
        let prev = logs[n - 1];
        assert(logs0.last() == prev);
        assert(log_step(prev, steps[n - 1], logs[n]));
        let h0 = logs[0] + appended(steps0);
        match steps[n - 1] {
            None => {
                assert(appended(steps) == appended(steps0));
            },
            Some(e) => {
                lemma_bounded_push(prev, e);
                let h = logs[0] + appended(steps);
                assert(h =~= h0.push(e));
                let t = h.len() as int;
                assert(prev.push(e) =~= h.subrange(t - 1 - prev.len(), t));
                if prev.len() + 1 > MAX_LOG_ENTRIES {
                    assert(logs[n] =~= h.subrange(t - MAX_LOG_ENTRIES, t));
                }
            },
        }
        assert forall|k: int| 0 <= k < logs.len() implies (#[trigger] logs[k]).len()
            <= MAX_LOG_ENTRIES by {
            if k < n {
                assert(logs0[k] == logs[k]);
            }
        }
    }
}

/// The same over a run of the application itself: every method of `MyApp`
/// either leaves the log as it is or appends one entry (its `ensures` says
/// which), so from a well-formed start the log stays within
/// `MAX_LOG_ENTRIES` and ends with the most recent entries in order.
pub proof fn lemma_app_log_run(apps: Seq<MyApp>, steps: Seq<Option<Seq<char>>>)
    requires
        apps.len() == steps.len() + 1,
        apps[0].log_view().len() <= MAX_LOG_ENTRIES,
        forall|k: int|
            0 <= k < steps.len() ==> log_step(
                apps[k].log_view(),
                #[trigger] steps[k],
                apps[k + 1].log_view(),
            ),
    ensures
        forall|k: int| 0 <= k < apps.len() ==> (#[trigger] apps[k]).log_view().len()
            <= MAX_LOG_ENTRIES,
        keeps_most_recent(apps.last().log_view(), apps[0].log_view() + appended(steps)),
{
    let logs = Seq::new(apps.len(), |k: int| apps[k].log_view());
    assert forall|k: int| 0 <= k < steps.len() implies log_step(
        logs[k],
        #[trigger] steps[k],
        logs[k + 1],
    ) by {
        assert(log_step(apps[k].log_view(), steps[k], apps[k + 1].log_view()));
    }
    lemma_log_run(logs, steps);
    assert forall|k: int| 0 <= k < apps.len() implies (#[trigger] apps[k]).log_view().len()
        <= MAX_LOG_ENTRIES by {
        assert(logs[k] == apps[k].log_view());
    }
    assert(logs.last() == apps.last().log_view());
}

} // verus!
