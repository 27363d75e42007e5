//! The texts of the user interface in each language, and the catalog that
//! holds them by language name.

use vstd::prelude::*;
use crate::text::chars_of;

verus! {

/// The texts of the user interface in one language.
#[derive(Debug, Clone)]
pub struct I18nLabels {
    pub ui_lang_select: String,
    pub settings_panel: String,
    pub model_select: String,
    pub open_folder: String,
    pub unselected: String,
    pub force_rebuild: String,
    pub params_adjust: String,
    pub sys_prompt: String,
    pub sys_prompt_desc: String,
    pub warning_no_model: String,
    pub loading_model: String,
    pub ready: String,
    pub translating: String,
    pub clear_btn: String,
    pub copy_btn: String,
    pub translate_btn: String,
    pub disclaimer: String,
    pub error_prefix: String,
    pub playing_audio: String,
    pub current_model: String,
    pub system_log: String,
    pub log_app_started: String,
    pub log_setup_started: String,
    pub log_model_loading: String,
    pub log_model_loaded: String,
    pub log_translation_started: String,
    pub log_translation_complete: String,
    pub log_tts_kokoro: String,
    pub log_tts_os: String,
    pub log_copied: String,
}

/// The texts of one language, as character sequences.
pub struct LabelTexts {
    pub ui_lang_select: Seq<char>,
    pub settings_panel: Seq<char>,
    pub model_select: Seq<char>,
    pub open_folder: Seq<char>,
    pub unselected: Seq<char>,
    pub force_rebuild: Seq<char>,
    pub params_adjust: Seq<char>,
    pub sys_prompt: Seq<char>,
    pub sys_prompt_desc: Seq<char>,
    pub warning_no_model: Seq<char>,
    pub loading_model: Seq<char>,
    pub ready: Seq<char>,
    pub translating: Seq<char>,
    pub clear_btn: Seq<char>,
    pub copy_btn: Seq<char>,
    pub translate_btn: Seq<char>,
    pub disclaimer: Seq<char>,
    pub error_prefix: Seq<char>,
    pub playing_audio: Seq<char>,
    pub current_model: Seq<char>,
    pub system_log: Seq<char>,
    pub log_app_started: Seq<char>,
    pub log_setup_started: Seq<char>,
    pub log_model_loading: Seq<char>,
    pub log_model_loaded: Seq<char>,
    pub log_translation_started: Seq<char>,
    pub log_translation_complete: Seq<char>,
    pub log_tts_kokoro: Seq<char>,
    pub log_tts_os: Seq<char>,
    pub log_copied: Seq<char>,
}

impl View for I18nLabels {
    type V = LabelTexts;

    open spec fn view(&self) -> LabelTexts {
        LabelTexts {
            ui_lang_select: self.ui_lang_select@,
            settings_panel: self.settings_panel@,
            model_select: self.model_select@,
            open_folder: self.open_folder@,
            unselected: self.unselected@,
            force_rebuild: self.force_rebuild@,
            params_adjust: self.params_adjust@,
            sys_prompt: self.sys_prompt@,
            sys_prompt_desc: self.sys_prompt_desc@,
            warning_no_model: self.warning_no_model@,
            loading_model: self.loading_model@,
            ready: self.ready@,
            translating: self.translating@,
            clear_btn: self.clear_btn@,
            copy_btn: self.copy_btn@,
            translate_btn: self.translate_btn@,
            disclaimer: self.disclaimer@,
            error_prefix: self.error_prefix@,
            playing_audio: self.playing_audio@,
            current_model: self.current_model@,
            system_log: self.system_log@,
            log_app_started: self.log_app_started@,
            log_setup_started: self.log_setup_started@,
            log_model_loading: self.log_model_loading@,
            log_model_loaded: self.log_model_loaded@,
            log_translation_started: self.log_translation_started@,
            log_translation_complete: self.log_translation_complete@,
            log_tts_kokoro: self.log_tts_kokoro@,
            log_tts_os: self.log_tts_os@,
            log_copied: self.log_copied@,
        }
    }
}

/// The built-in (Japanese) texts.
pub open spec fn fallback_texts() -> LabelTexts {
    LabelTexts {
        ui_lang_select: "UI言語"@,
        settings_panel: "制御パネル"@,
        model_select: "モデル選択:"@,
        open_folder: "フォルダを開く (.gguf)"@,
        unselected: "未選択"@,
        force_rebuild: "エンジン強制再構築"@,
        params_adjust: "パラメータ調整"@,
        sys_prompt: "システムプロンプト"@,
        sys_prompt_desc: "翻訳のルールをAIに指示します"@,
        warning_no_model: "注意 モデルを選んでください"@,
        loading_model: "待機 読み込み中..."@,
        ready: "完了 準備完了"@,
        translating: "⚙ 翻訳中..."@,
        clear_btn: "クリア"@,
        copy_btn: "コピー"@,
        translate_btn: "  Translate  "@,
        disclaimer: "※AI翻訳です。AIは間違える可能性しか有りません。※"@,
        error_prefix: "エラー: "@,
        playing_audio: "🔊 再生中..."@,
        current_model: "稼働中のモデル:"@,
        system_log: "システムログ"@,
        log_app_started: "[System] アプリケーションを起動しました。"@,
        log_setup_started: "推論エンジンのセットアップを開始しました..."@,
        log_model_loading: "モデルをロードしています..."@,
        log_model_loaded: "モデルのロードが完了しました。"@,
        log_translation_started: "翻訳プロセスを開始しました。"@,
        log_translation_complete: "翻訳プロセスが正常に完了しました。"@,
        log_tts_kokoro: "KokoroTTSで音声を生成・再生します。"@,
        log_tts_os: "OS標準TTSで音声を再生します (OSの設定で音声パック等が必要です)。"@,
        log_copied: "出力テキストをクリップボードにコピーしました。"@,
    }
}

/// `l` holds the built-in texts.
pub open spec fn is_fallback_labels(l: I18nLabels) -> bool {
    l@ == fallback_texts()
}

/// The built-in texts, used for an interface language that the catalog
/// does not hold.
pub fn get_fallback_labels() -> (r: I18nLabels)
    ensures
        is_fallback_labels(r),
{
    I18nLabels {
        ui_lang_select: "UI言語".to_owned(),
        settings_panel: "制御パネル".to_owned(),
        model_select: "モデル選択:".to_owned(),
        open_folder: "フォルダを開く (.gguf)".to_owned(),
        unselected: "未選択".to_owned(),
        force_rebuild: "エンジン強制再構築".to_owned(),
        params_adjust: "パラメータ調整".to_owned(),
        sys_prompt: "システムプロンプト".to_owned(),
        sys_prompt_desc: "翻訳のルールをAIに指示します".to_owned(),
        warning_no_model: "注意 モデルを選んでください".to_owned(),
        loading_model: "待機 読み込み中...".to_owned(),
        ready: "完了 準備完了".to_owned(),
        translating: "⚙ 翻訳中...".to_owned(),
        clear_btn: "クリア".to_owned(),
        copy_btn: "コピー".to_owned(),
        translate_btn: "  Translate  ".to_owned(),
        disclaimer: "※AI翻訳です。AIは間違える可能性しか有りません。※".to_owned(),
        error_prefix: "エラー: ".to_owned(),
        playing_audio: "🔊 再生中...".to_owned(),
        current_model: "稼働中のモデル:".to_owned(),
        system_log: "システムログ".to_owned(),
        log_app_started: "[System] アプリケーションを起動しました。".to_owned(),
        log_setup_started: "推論エンジンのセットアップを開始しました...".to_owned(),
        log_model_loading: "モデルをロードしています...".to_owned(),
        log_model_loaded: "モデルのロードが完了しました。".to_owned(),
        log_translation_started: "翻訳プロセスを開始しました。".to_owned(),
        log_translation_complete: "翻訳プロセスが正常に完了しました。".to_owned(),
        log_tts_kokoro: "KokoroTTSで音声を生成・再生します。".to_owned(),
        log_tts_os: "OS標準TTSで音声を再生します (OSの設定で音声パック等が必要です)。".to_owned(),
        log_copied: "出力テキストをクリップボードにコピーしました。".to_owned(),
    }
}

impl I18nLabels {
    /// A copy of these texts.
    pub fn duplicate(&self) -> (r: I18nLabels)
        ensures
            r == *self,
    {
        I18nLabels {
            ui_lang_select: self.ui_lang_select.clone(),
            settings_panel: self.settings_panel.clone(),
            model_select: self.model_select.clone(),
            open_folder: self.open_folder.clone(),
            unselected: self.unselected.clone(),
            force_rebuild: self.force_rebuild.clone(),
            params_adjust: self.params_adjust.clone(),
            sys_prompt: self.sys_prompt.clone(),
            sys_prompt_desc: self.sys_prompt_desc.clone(),
            warning_no_model: self.warning_no_model.clone(),
            loading_model: self.loading_model.clone(),
            ready: self.ready.clone(),
            translating: self.translating.clone(),
            clear_btn: self.clear_btn.clone(),
            copy_btn: self.copy_btn.clone(),
            translate_btn: self.translate_btn.clone(),
            disclaimer: self.disclaimer.clone(),
            error_prefix: self.error_prefix.clone(),
            playing_audio: self.playing_audio.clone(),
            current_model: self.current_model.clone(),
            system_log: self.system_log.clone(),
            log_app_started: self.log_app_started.clone(),
            log_setup_started: self.log_setup_started.clone(),
            log_model_loading: self.log_model_loading.clone(),
            log_model_loaded: self.log_model_loaded.clone(),
            log_translation_started: self.log_translation_started.clone(),
            log_translation_complete: self.log_translation_complete.clone(),
            log_tts_kokoro: self.log_tts_kokoro.clone(),
            log_tts_os: self.log_tts_os.clone(),
            log_copied: self.log_copied.clone(),
        }
    }
}

impl Default for I18nLabels {
    /// The built-in texts.
    fn default() -> (r: I18nLabels)
        ensures
            is_fallback_labels(r),
    {
        get_fallback_labels()
    }
}

/// `a` comes before `b` in the order of their characters' code points,
/// compared one by one, a proper prefix coming first.
pub open spec fn precedes(a: Seq<char>, b: Seq<char>) -> bool
    decreases a.len(),
{
    if a.len() == 0 {
        b.len() > 0
    } else if b.len() == 0 {
        false
    } else if a[0] != b[0] {
        (a[0] as u32) < (b[0] as u32)
    } else {
        precedes(a.drop_first(), b.drop_first())
    }
}

/// Nothing precedes itself, and of two texts at most one precedes the
/// other.
pub proof fn lemma_precedes_asymmetric(a: Seq<char>, b: Seq<char>)
    ensures
        precedes(a, b) ==> !precedes(b, a),
        !precedes(a, a),
    decreases a.len(),
{
    if a.len() > 0 && b.len() > 0 && a[0] == b[0] {
        lemma_precedes_asymmetric(a.drop_first(), b.drop_first());
    }
    if a.len() > 0 {
        lemma_precedes_asymmetric(a.drop_first(), a.drop_first());
    }
}

/// Of two different texts, one precedes the other.
pub proof fn lemma_precedes_total(a: Seq<char>, b: Seq<char>)
    requires
        a != b,
    ensures
        precedes(a, b) || precedes(b, a),
    decreases a.len(),
{
    if a.len() > 0 && b.len() > 0 && a[0] == b[0] {
        if a.drop_first() == b.drop_first() {
            assert(a =~= seq![a[0]] + a.drop_first());
            assert(b =~= seq![b[0]] + b.drop_first());
        }
        lemma_precedes_total(a.drop_first(), b.drop_first());
    } else if a.len() == 0 && b.len() == 0 {
        assert(a =~= b);
    } else if a.len() > 0 && b.len() > 0 {
        let x = a[0] as u32;
        vstd::utf8::char_u32_cast(a[0], x);
        let y = b[0] as u32;
        vstd::utf8::char_u32_cast(b[0], y);
        assert(x != y);
    }
}

/// The order is transitive.
pub proof fn lemma_precedes_transitive(a: Seq<char>, b: Seq<char>, c: Seq<char>)
    requires
        precedes(a, b),
        precedes(b, c),
    ensures
        precedes(a, c),
    decreases a.len(),
{
    if a.len() > 0 && b.len() > 0 && c.len() > 0 && a[0] == b[0] && b[0] == c[0] {
        lemma_precedes_transitive(a.drop_first(), b.drop_first(), c.drop_first());
    }
}

/// How one text is placed against another.
#[derive(Debug, Clone, Copy, PartialEq, Eq)]
pub enum KeyOrder {
    Before,
    Same,
    After,
}

/// Places `a` against `b`.
pub fn compare_chars(a: &Vec<char>, b: &Vec<char>) -> (r: KeyOrder)
    ensures
        r is Before <==> precedes(a@, b@),
        r is Same <==> a@ == b@,
        r is After <==> precedes(b@, a@),
{
    let mut i: usize = 0;
    assert(a@.subrange(0, a@.len() as int) =~= a@);
    assert(b@.subrange(0, b@.len() as int) =~= b@);
    while i < a.len() && i < b.len() && a[i] == b[i]
        invariant
            i <= a.len(),
            i <= b.len(),
            forall|k: int| 0 <= k < i ==> a@[k] == b@[k],
            precedes(a@, b@) == precedes(a@.subrange(i as int, a@.len() as int), b@.subrange(
                i as int,
                b@.len() as int,
            )),
            precedes(b@, a@) == precedes(b@.subrange(i as int, b@.len() as int), a@.subrange(
                i as int,
                a@.len() as int,
            )),
        decreases a.len() - i,
    {
        assert(a@.subrange(i as int, a@.len() as int).drop_first() =~= a@.subrange(
            i + 1,
            a@.len() as int,
        ));
        assert(b@.subrange(i as int, b@.len() as int).drop_first() =~= b@.subrange(
            i + 1,
            b@.len() as int,
        ));
        i = i + 1;
    }
    proof {
        lemma_precedes_asymmetric(a@, b@);
        if a@ != b@ {
            lemma_precedes_total(a@, b@);
        }
    }
    if i == a.len() && i == b.len() {
        assert(a@ =~= b@);
        KeyOrder::Same
    } else if i == a.len() {
        KeyOrder::Before
    } else if i == b.len() {
        KeyOrder::After
    } else if (a[i] as u32) < (b[i] as u32) {
        KeyOrder::Before
    } else {
        KeyOrder::After
    }
}

/// The texts of a sequence of strings.
pub open spec fn string_views(v: Seq<String>) -> Seq<Seq<char>> {
    Seq::new(v.len(), |i: int| v[i]@)
}

/// Every text of `s` precedes every later one.
pub open spec fn strictly_ascending(s: Seq<Seq<char>>) -> bool {
    forall|i: int, j: int| 0 <= i < j < s.len() ==> precedes(#[trigger] s[i], #[trigger] s[j])
}

/// In an ascending sequence a text occurs once, so its position is known.
pub proof fn lemma_position_in_ascending(s: Seq<Seq<char>>, i: int)
    requires
        strictly_ascending(s),
        0 <= i < s.len(),
    ensures
        s.index_of(s[i]) == i,
{
    let j = s.index_of(s[i]);
    assert(s.contains(s[i]));
    if j < i {
        assert(precedes(s[j], s[i]));
        lemma_precedes_asymmetric(s[i], s[i]);
    } else if j > i {
        assert(precedes(s[i], s[j]));
        lemma_precedes_asymmetric(s[i], s[i]);
    }
}

/// Interface texts by language name. Each name is held once, and the
/// entries are kept in ascending order of their names, compared character
/// by character by code point, so that the languages are listed in that
/// order.
pub struct LabelCatalog {
    entries: Vec<(String, I18nLabels)>,
}

impl LabelCatalog {
    /// The language names, in the order in which they are held.
    pub closed spec fn names(&self) -> Seq<Seq<char>> {
        self.entries@.map_values(|e: (String, I18nLabels)| e.0@)
    }

    /// The texts, in the order of `names`.
    pub closed spec fn texts(&self) -> Seq<I18nLabels> {
        self.entries@.map_values(|e: (String, I18nLabels)| e.1)
    }

    /// The names ascend strictly, so that each occurs once.
    pub closed spec fn well_formed(&self) -> bool {
        strictly_ascending(self.names())
    }

    /// How the catalog's contents relate to its names and texts: a name is
    /// held exactly when it occurs among the names, with the text at its
    /// position.
    pub proof fn lemma_contents(&self)
        requires
            self.well_formed(),
        ensures
            strictly_ascending(self.names()),
            self.texts().len() == self.names().len(),
            forall|k: Seq<char>| self@.contains_key(k) <==> self.names().contains(k),
            forall|i: int|
                0 <= i < self.names().len() ==> self@[#[trigger] self.names()[i]]
                    == self.texts()[i],
    {
        assert forall|i: int| 0 <= i < self.names().len() implies self@[#[trigger] self.names()[i]]
            == self.texts()[i] by {
            lemma_position_in_ascending(self.names(), i);
        }
    }

    /// An empty catalog.
    pub fn new() -> (c: LabelCatalog)
        ensures
            c.well_formed(),
            c@ == Map::<Seq<char>, I18nLabels>::empty(),
            c.names() == Seq::<Seq<char>>::empty(),
    {
        let c = LabelCatalog { entries: Vec::new() };
        assert(c.names() =~= Seq::<Seq<char>>::empty());
        assert(c@ =~= Map::<Seq<char>, I18nLabels>::empty());
        c
    }

    /// The number of languages held.
    pub fn len(&self) -> (n: usize)
        requires
            self.well_formed(),
        ensures
            n == self.names().len(),
            n == self@.dom().len(),
    {
        proof {
            self.lemma_contents();
            self.lemma_dom_len();
        }
        self.entries.len()
    }

    /// The catalog holds as many languages as it has names.
    pub proof fn lemma_dom_len(&self)
        requires
            self.well_formed(),
        ensures
            self@.dom() == self.names().to_set(),
            self@.dom().len() == self.names().len(),
    {
        assert(self@.dom() =~= self.names().to_set());
        assert(self.names().no_duplicates()) by {
            assert forall|i: int, j: int|
                0 <= i < self.names().len() && 0 <= j < self.names().len() && i != j implies self.names()[i]
                != self.names()[j] by {
                if i < j {
                    assert(precedes(self.names()[i], self.names()[j]));
                } else {
                    assert(precedes(self.names()[j], self.names()[i]));
                }
                lemma_precedes_asymmetric(self.names()[i], self.names()[i]);
            }
        }
        self.names().unique_seq_to_set();
    }

    /// Whether the catalog holds no language.
    pub fn is_empty(&self) -> (r: bool)
        requires
            self.well_formed(),
        ensures
            r == (self@.dom().len() == 0),
            r == (self.names().len() == 0),
    {
        proof {
            self.lemma_dom_len();
        }
        self.entries.len() == 0
    }

    /// The texts held for `lang`, if any.
    pub fn get(&self, lang: &str) -> (r: Option<&I18nLabels>)
        requires
            self.well_formed(),
        ensures
            r is Some == self@.contains_key(lang@),
            r matches Some(l) ==> *l == self@[lang@],
    {
        proof {
            self.lemma_contents();
        }
        let key = chars_of(lang);
        let mut i: usize = 0;
        while i < self.entries.len()
            invariant
                self.well_formed(),
                key@ == lang@,
                i <= self.entries.len(),
                forall|j: int| 0 <= j < i ==> self.names()[j] != lang@,
            decreases self.entries.len() - i,
        {
            let name = chars_of(self.entries[i].0.as_str());
            if let KeyOrder::Same = compare_chars(&name, &key) {
                assert(self.names()[i as int] == lang@);
                return Some(&self.entries[i].1);
            }
            i = i + 1;
        }
        assert(!self.names().contains(lang@));
        None
    }

    /// The language names, in ascending order.
    pub fn languages(&self) -> (r: Vec<String>)
        requires
            self.well_formed(),
        ensures
            string_views(r@) == self.names(),
    {
        let mut r: Vec<String> = Vec::new();
        let mut i: usize = 0;
        while i < self.entries.len()
            invariant
                i <= self.entries.len(),
                self.names().len() == self.entries.len(),
                r.len() == i,
                forall|k: int| 0 <= k < i ==> (#[trigger] r@[k])@ == self.names()[k],
            decreases self.entries.len() - i,
        {
            let name = self.entries[i].0.clone();
            r.push(name);
            i = i + 1;
        }
        assert(string_views(r@) =~= self.names());
        r
    }

    /// The position of `key` among the names, or where it would stand.
    fn position_for(&self, key: &Vec<char>) -> (r: (usize, bool))
        requires
            self.well_formed(),
        ensures
            r.0 <= self.names().len(),
            forall|j: int| 0 <= j < r.0 ==> precedes(#[trigger] self.names()[j], key@),
            r.1 ==> r.0 < self.names().len() && self.names()[r.0 as int] == key@,
            !r.1 ==> forall|j: int|
                r.0 <= j < self.names().len() ==> precedes(key@, #[trigger] self.names()[j]),
    {
        let mut i: usize = 0;
        while i < self.entries.len()
            invariant
                self.well_formed(),
                i <= self.entries.len(),
                forall|j: int| 0 <= j < i ==> precedes(#[trigger] self.names()[j], key@),
            decreases self.entries.len() - i,
        {
            let name = chars_of(self.entries[i].0.as_str());
            match compare_chars(&name, key) {
                KeyOrder::Before => {
                    i = i + 1;
                },
                KeyOrder::Same => {
                    return (i, true);
                },
                KeyOrder::After => {
                    assert forall|j: int| i <= j < self.names().len() implies precedes(
                        key@,
                        #[trigger] self.names()[j],
                    ) by {
                        if j > i {
                            assert(precedes(self.names()[i as int], self.names()[j]));
                            lemma_precedes_transitive(key@, self.names()[i as int], self.names()[j]);
                        }
                    }
                    return (i, false);
                },
            }
        }
        (i, false)
    }

    /// Holds `labels` for `lang`, in place of what was held for it.
    pub fn insert(&mut self, lang: String, labels: I18nLabels)
        requires
            old(self).well_formed(),
        ensures
            final(self).well_formed(),
            final(self)@ == old(self)@.insert(lang@, labels),
    {
        let ghost old_names = self.names();
        let ghost old_texts = self.texts();
        proof {
            self.lemma_contents();
        }
        let key = chars_of(lang.as_str());
        let (i, found) = self.position_for(&key);
        if found {
            self.entries.set(i, (lang, labels));
            proof {
                assert(self.names() =~= old_names);
                assert(self.texts() =~= old_texts.update(i as int, labels));
                lemma_replaced_view(old_names, old_texts, i as int, labels);
            }
        } else {
            self.entries.insert(i, (lang, labels));
            proof {
                assert(self.names() =~= old_names.insert(i as int, key@));
                assert(self.texts() =~= old_texts.insert(i as int, labels));
                lemma_inserted_view(old_names, old_texts, i as int, key@, labels);
            }
        }
    }
}

/// The catalog view of names and texts.
pub open spec fn catalog_map(names: Seq<Seq<char>>, texts: Seq<I18nLabels>) -> Map<
    Seq<char>,
    I18nLabels,
> {
    Map::new(|k: Seq<char>| names.contains(k), |k: Seq<char>| texts[names.index_of(k)])
}

/// Replacing the texts at a name's position replaces what is held for it.
proof fn lemma_replaced_view(
    names: Seq<Seq<char>>,
    texts: Seq<I18nLabels>,
    i: int,
    labels: I18nLabels,
)
    requires
        strictly_ascending(names),
        names.len() == texts.len(),
        0 <= i < names.len(),
    ensures
        catalog_map(names, texts.update(i, labels)) == catalog_map(names, texts).insert(
            names[i],
            labels,
        ),
{
    let m = catalog_map(names, texts.update(i, labels));
    let n = catalog_map(names, texts).insert(names[i], labels);
    lemma_position_in_ascending(names, i);
    assert forall|k: Seq<char>| #[trigger] m.contains_key(k) implies m[k] == n[k] by {
        let p = names.index_of(k);
        lemma_position_in_ascending(names, p);
    }
    assert(m =~= n);
}

/// Inserting a new name with its texts, where it keeps the names
/// ascending, adds it to what is held.
proof fn lemma_inserted_view(
    names: Seq<Seq<char>>,
    texts: Seq<I18nLabels>,
    i: int,
    key: Seq<char>,
    labels: I18nLabels,
)
    requires
        strictly_ascending(names),
        names.len() == texts.len(),
        0 <= i <= names.len(),
        forall|j: int| 0 <= j < i ==> precedes(#[trigger] names[j], key),
        forall|j: int| i <= j < names.len() ==> precedes(key, #[trigger] names[j]),
    ensures
        strictly_ascending(names.insert(i, key)),
        catalog_map(names.insert(i, key), texts.insert(i, labels)) == catalog_map(
            names,
            texts,
        ).insert(key, labels),
{
    let ns = names.insert(i, key);
    let ts = texts.insert(i, labels);
    assert forall|a: int, b: int| 0 <= a < b < ns.len() implies precedes(
        #[trigger] ns[a],
        #[trigger] ns[b],
    ) by {
        if a < i && b == i {
        } else if a == i {
            assert(ns[b] == names[b - 1]);
        } else if b < i {
            assert(ns[a] == names[a] && ns[b] == names[b]);
        } else {
            assert(ns[a] == names[a - 1] || a < i);
            if a < i {
                assert(precedes(names[a], names[b - 1]));
            } else {
                assert(precedes(names[a - 1], names[b - 1]));
            }
        }
    }
    let m = catalog_map(ns, ts);
    let n = catalog_map(names, texts).insert(key, labels);
    assert forall|k: Seq<char>| m.contains_key(k) <==> n.contains_key(k) by {
        if names.contains(k) {
            let p = names.index_of(k);
            if p < i {
                assert(ns[p] == k);
            } else {
                assert(ns[p + 1] == k);
            }
        }
        if ns.contains(k) && k != key {
            let q = ns.index_of(k);
            if q < i {
                assert(names[q] == k);
            } else {
                assert(names[q - 1] == k);
            }
        }
        assert(ns[i] == key);
    }
    assert forall|k: Seq<char>| #[trigger] m.contains_key(k) implies m[k] == n[k] by {
        if k == key {
            assert(ns[i] == key);
            lemma_position_in_ascending(ns, i);
        } else {
            let p = names.index_of(k);
            lemma_position_in_ascending(names, p);
            if p < i {
                assert(ns[p] == k);
                lemma_position_in_ascending(ns, p);
            } else {
                assert(ns[p + 1] == k);
                lemma_position_in_ascending(ns, p + 1);
            }
        }
    }
    assert(m =~= n);
}

impl View for LabelCatalog {
    type V = Map<Seq<char>, I18nLabels>;

    /// Each name held, with its texts.
    open spec fn view(&self) -> Map<Seq<char>, I18nLabels> {
        catalog_map(self.names(), self.texts())
    }
}

/// What `get` gives back after `insert`: `insert(lang, labels)` leaves
/// the catalog well-formed with `after@ == before@.insert(lang@, labels)`,
/// so `get(lang)` then yields `labels`, `get` of any other language yields
/// what it yielded before, and `languages()` lists the names held before
/// with `lang` added, still in ascending order.
pub proof fn lemma_read_after_insert(
    before: LabelCatalog,
    after: LabelCatalog,
    lang: Seq<char>,
    labels: I18nLabels,
    other: Seq<char>,
)
    requires
        before.well_formed(),
        after.well_formed(),
        after@ == before@.insert(lang, labels),
        other != lang,
    ensures
        after@.contains_key(lang) && after@[lang] == labels,
        after@.contains_key(other) == before@.contains_key(other),
        before@.contains_key(other) ==> after@[other] == before@[other],
        after.names().to_set() == before.names().to_set().insert(lang),
        strictly_ascending(after.names()),
{
    before.lemma_contents();
    after.lemma_contents();
    before.lemma_dom_len();
    after.lemma_dom_len();
    assert(after@.dom() =~= before@.dom().insert(lang));
}

} // verus!
