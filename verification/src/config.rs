//! Configuration values: accent colour, default mode, switch key, the cloud
//! prediction settings and the input scheme, with their configuration keys and
//! interface labels.

use vstd::prelude::*;

use crate::text::{chars_equal, chars_of, trim, trimmed};

verus! {

/// The accent colour of the whole interface.
#[derive(Debug, Clone, Copy, PartialEq, Eq, Structural)]
pub enum AccentColor {
    /// Qingjian green (the default).
    Qingjian,
    /// Classic blue.
    Classic,
}

impl Default for AccentColor {
    fn default() -> (r: Self)
        ensures
            r == AccentColor::Qingjian,
    {
        AccentColor::Qingjian
    }
}

impl AccentColor {
    /// Every value, in the order the settings list them.
    pub const ALL: [AccentColor; 2] = [AccentColor::Qingjian, AccentColor::Classic];

    /// The spelling in the configuration file.
    pub fn key(self) -> (r: &'static str)
        ensures
            r@ == (match self {
                AccentColor::Qingjian => "qingjian"@,
                AccentColor::Classic => "classic"@,
            }),
    {
        match self {
            AccentColor::Qingjian => "qingjian",
            AccentColor::Classic => "classic",
        }
    }

    /// The name shown in the settings.
    pub fn label(self) -> (r: &'static str)
        ensures
            r@ == (match self {
                AccentColor::Qingjian => "青简绿"@,
                AccentColor::Classic => "经典蓝"@,
            }),
    {
        match self {
            AccentColor::Qingjian => "青简绿",
            AccentColor::Classic => "经典蓝",
        }
    }
}

/// The input mode a new window starts in (only its first activation).
#[derive(Debug, Clone, Copy, PartialEq, Eq, Structural)]
pub enum DefaultMode {
    /// Leave it as the system restored it (the default).
    Last,
    /// Chinese mode.
    Chinese,
    /// English mode.
    English,
}

impl Default for DefaultMode {
    fn default() -> (r: Self)
        ensures
            r == DefaultMode::Last,
    {
        DefaultMode::Last
    }
}

impl DefaultMode {
    /// Every value, in the order the settings list them.
    pub const ALL: [DefaultMode; 3] = [DefaultMode::Last, DefaultMode::Chinese, DefaultMode::English];

    /// The spelling in the configuration file.
    pub fn key(self) -> (r: &'static str)
        ensures
            r@ == (match self {
                DefaultMode::Last => "last"@,
                DefaultMode::Chinese => "chinese"@,
                DefaultMode::English => "english"@,
            }),
    {
        match self {
            DefaultMode::Last => "last",
            DefaultMode::Chinese => "chinese",
            DefaultMode::English => "english",
        }
    }

    /// The name shown in the settings.
    pub fn label(self) -> (r: &'static str)
        ensures
            r@ == (match self {
                DefaultMode::Last => "记住上次"@,
                DefaultMode::Chinese => "中文"@,
                DefaultMode::English => "英文"@,
            }),
    {
        match self {
            DefaultMode::Last => "记住上次",
            DefaultMode::Chinese => "中文",
            DefaultMode::English => "英文",
        }
    }

    /// The mode to set on the first activation (`true` is English); `None`
    /// leaves the mode alone.
    pub fn apply(self) -> (r: Option<bool>)
        ensures
            r == (match self {
                DefaultMode::Last => None,
                DefaultMode::Chinese => Some(false),
                DefaultMode::English => Some(true),
            }),
    {
        match self {
            DefaultMode::Last => None,
            DefaultMode::Chinese => Some(false),
            DefaultMode::English => Some(true),
        }
    }
}

/// The key that switches between Chinese and English (a single tap of it).
#[derive(Debug, Clone, Copy, PartialEq, Eq, Structural)]
pub enum SwitchKey {
    /// A tap of Shift (the default).
    Shift,
    /// A tap of Ctrl.
    Control,
    /// No key: only the buttons switch.
    Off,
}

impl Default for SwitchKey {
    fn default() -> (r: Self)
        ensures
            r == SwitchKey::Shift,
    {
        SwitchKey::Shift
    }
}

impl SwitchKey {
    /// Every value, in the order the settings list them.
    pub const ALL: [SwitchKey; 3] = [SwitchKey::Shift, SwitchKey::Control, SwitchKey::Off];

    /// The spelling in the configuration file.
    pub fn key(self) -> (r: &'static str)
        ensures
            r@ == (match self {
                SwitchKey::Shift => "shift"@,
                SwitchKey::Control => "control"@,
                SwitchKey::Off => "none"@,
            }),
    {
        match self {
            SwitchKey::Shift => "shift",
            SwitchKey::Control => "control",
            SwitchKey::Off => "none",
        }
    }

    /// The name shown in the settings.
    pub fn label(self) -> (r: &'static str)
        ensures
            r@ == (match self {
                SwitchKey::Shift => "单击 Shift"@,
                SwitchKey::Control => "单击 Ctrl"@,
                SwitchKey::Off => "不切换"@,
            }),
    {
        match self {
            SwitchKey::Shift => "单击 Shift",
            SwitchKey::Control => "单击 Ctrl",
            SwitchKey::Off => "不切换",
        }
    }
}

/// The switch key a spelling in the configuration file names: the canonical
/// spellings, `ctrl` for Control, and `off` or `disabled` for no key; any other
/// spelling names none (the file is then rejected).
pub open spec fn switch_key_of(text: Seq<char>) -> Option<SwitchKey> {
    if text == "shift"@ {
        Some(SwitchKey::Shift)
    } else if text == "control"@ || text == "ctrl"@ {
        Some(SwitchKey::Control)
    } else if text == "none"@ || text == "off"@ || text == "disabled"@ {
        Some(SwitchKey::Off)
    } else {
        None
    }
}

fn same_text(a: &str, b: &str) -> (r: bool)
    ensures
        r == (a@ == b@),
{
    chars_equal(&chars_of(a), &chars_of(b))
}

impl SwitchKey {
    /// Reads a spelling of the configuration file (see [`switch_key_of`]).
    pub fn from_key(text: &str) -> (r: Option<SwitchKey>)
        ensures
            r == switch_key_of(text@),
    {
        if same_text(text, "shift") {
            Some(SwitchKey::Shift)
        } else if same_text(text, "control") || same_text(text, "ctrl") {
            Some(SwitchKey::Control)
        } else if same_text(text, "none") || same_text(text, "off") || same_text(text, "disabled") {
            Some(SwitchKey::Off)
        } else {
            None
        }
    }
}

/// Every switch key reads back from the spelling it is written with.
pub proof fn lemma_switch_key_reads_back(key: SwitchKey)
    ensures
        switch_key_of(match key {
            SwitchKey::Shift => "shift"@,
            SwitchKey::Control => "control"@,
            SwitchKey::Off => "none"@,
        }) == Some(key),
{
    reveal_strlit("shift");
    reveal_strlit("control");
    reveal_strlit("ctrl");
    reveal_strlit("none");
    reveal_strlit("off");
    reveal_strlit("disabled");
    assert("control"@ != "shift"@) by {
        assert("control"@.len() != "shift"@.len());
    }
    assert("none"@ != "shift"@) by {
        assert("none"@[0] != "shift"@[0]);
    }
    assert("none"@ != "control"@ && "none"@ != "ctrl"@) by {
        assert("none"@.len() != "control"@.len());
        assert("none"@[0] != "ctrl"@[0]);
    }
}

/// The most characters before the cursor that `lookback` may ask for.
pub const MAX_LOOKBACK: usize = 512;

/// The most characters after the cursor that `lookahead` may ask for.
pub const MAX_LOOKAHEAD: usize = 256;

/// When the sentence completion is asked for.
#[derive(Debug, Clone, Copy, PartialEq, Eq, Structural)]
pub enum SentenceTrigger {
    /// On every request, once typing pauses (the default).
    Idle,
    /// Only when the user presses Tab or clicks the sentence.
    Tab,
}

impl Default for SentenceTrigger {
    fn default() -> (r: Self)
        ensures
            r == SentenceTrigger::Idle,
    {
        SentenceTrigger::Idle
    }
}

impl SentenceTrigger {
    /// The spelling in the configuration file.
    pub fn key(&self) -> (r: &'static str)
        ensures
            r@ == (match *self {
                SentenceTrigger::Idle => "idle"@,
                SentenceTrigger::Tab => "tab"@,
            }),
    {
        match self {
            SentenceTrigger::Idle => "idle",
            SentenceTrigger::Tab => "tab",
        }
    }
}

/// What a cloud request asks for.
#[derive(Debug, Clone, Copy, PartialEq, Eq, Structural)]
pub struct PredictionPolicy {
    /// Characters before the cursor sent along.
    pub before: usize,
    /// Characters after the cursor sent along.
    pub after: usize,
    /// Cloud words appended to the first page.
    pub slots: usize,
    /// Words asked of the model.
    pub max_items: usize,
    /// Whether the automatic request asks for a sentence.
    pub sentence: bool,
}

/// The cloud prediction settings (`[predict]`); off by default.
#[derive(Debug, Clone, PartialEq, Eq)]
pub struct PredictConfig {
    pub enabled: bool,
    /// An OpenAI-compatible endpoint (without `/chat/completions`).
    pub base_url: String,
    pub model: String,
    /// The key; when empty, the variable named by `api_key_env` is read.
    pub api_key: Option<String>,
    pub api_key_env: String,
    /// Timeout of one request, in milliseconds.
    pub timeout_ms: u64,
    /// How long typing must pause before a request goes out, in milliseconds.
    pub debounce_ms: u64,
    /// Characters before the cursor sent along.
    pub lookback: usize,
    /// Characters after the cursor sent along.
    pub lookahead: usize,
    /// Cloud words appended to the first page; 0 asks for the sentence only.
    pub slots: usize,
    /// Whether sentence completion is on.
    pub sentence: bool,
    pub sentence_trigger: SentenceTrigger,
    /// Sent as `reasoning_effort`; empty sends nothing.
    pub reasoning_effort: String,
}

impl Default for PredictConfig {
    fn default() -> (r: Self)
        ensures
            !r.enabled,
            r.base_url@ == "https://api.deepseek.com"@,
            r.model@ == "deepseek-v4-flash"@,
            r.api_key is None,
            r.api_key_env@ == "QINGJIAN_API_KEY"@,
            r.timeout_ms == 5000,
            r.debounce_ms == 300,
            r.lookback == 64,
            r.lookahead == 32,
            r.slots == 2,
            r.sentence,
            r.sentence_trigger == SentenceTrigger::Idle,
            r.reasoning_effort@ == "none"@,
    {
        PredictConfig {
            enabled: false,
            base_url: "https://api.deepseek.com".to_owned(),
            model: "deepseek-v4-flash".to_owned(),
            api_key: None,
            api_key_env: "QINGJIAN_API_KEY".to_owned(),
            timeout_ms: 5000,
            debounce_ms: 300,
            lookback: 64,
            lookahead: 32,
            slots: 2,
            sentence: true,
            sentence_trigger: SentenceTrigger::Idle,
            reasoning_effort: "none".to_owned(),
        }
    }
}

/// The key the configuration resolves to: the configured key, trimmed, when
/// that leaves something; otherwise the value of the environment variable
/// (`from_env`, read by the caller) unless it is blank.
pub open spec fn api_key_spec(configured: Option<Seq<char>>, from_env: Option<Seq<char>>) -> Option<Seq<char>> {
    match configured {
        Some(k) if trim(k).len() > 0 => Some(trim(k)),
        _ => match from_env {
            Some(v) if trim(v).len() > 0 => Some(v),
            _ => None,
        },
    }
}

impl PredictConfig {
    /// The key to send: the configured one first, then the environment
    /// variable named by `api_key_env`, whose value the caller passes as
    /// `from_env`; `None` when neither holds more than white space.
    pub fn resolve_api_key(&self, from_env: Option<&str>) -> (r: Option<String>)
        ensures
            (match r {
                Some(k) => Some(k@),
                None => None,
            }) == api_key_spec(
                match self.api_key {
                    Some(k) => Some(k@),
                    None => None,
                },
                match from_env {
                    Some(v) => Some(v@),
                    None => None,
                },
            ),
    {
        if let Some(k) = &self.api_key {
            let t = trimmed(k.as_str());
            if t.as_str().unicode_len() > 0 {
                return Some(t);
            }
        }
        match from_env {
            Some(v) => {
                let t = trimmed(v);
                if t.as_str().unicode_len() > 0 {
                    Some(v.to_owned())
                } else {
                    None
                }
            },
            None => None,
        }
    }
}

impl PredictConfig {
    /// The automatic request asks for the sentence.
    pub open spec fn sentence_when_idle(&self) -> bool {
        self.sentence && self.sentence_trigger == SentenceTrigger::Idle
    }

    /// The sentence waits for Tab or a click.
    pub open spec fn sentence_when_tab(&self) -> bool {
        self.sentence && self.sentence_trigger == SentenceTrigger::Tab
    }

    /// The policy of the automatic requests: the context lengths, the slots,
    /// two more words than slots (at least one slot counted), and the sentence
    /// only when it is on and asked on every request.
    pub fn policy(&self) -> (r: PredictionPolicy)
        requires
            self.slots <= usize::MAX - 2,
        ensures
            r == (PredictionPolicy {
                before: self.lookback,
                after: self.lookahead,
                slots: self.slots,
                max_items: ((if self.slots >= 1 {
                    self.slots
                } else {
                    1
                }) + 2) as usize,
                sentence: self.sentence_when_idle(),
            }),
    {
        let at_least_one = if self.slots >= 1 {
            self.slots
        } else {
            1
        };
        PredictionPolicy {
            before: self.lookback,
            after: self.lookahead,
            slots: self.slots,
            max_items: at_least_one + 2,
            sentence: self.sentence && self.sentence_trigger == SentenceTrigger::Idle,
        }
    }

    /// Sentence completion is on but waits for Tab or a click.
    pub fn sentence_on_tab(&self) -> (r: bool)
        ensures
            r == self.sentence_when_tab(),
    {
        self.sentence && self.sentence_trigger == SentenceTrigger::Tab
    }
}

/// The automatic request and the Tab request never both want the sentence, and
/// with sentence completion off neither does.
pub proof fn lemma_one_sentence_path(config: PredictConfig)
    ensures
        !(config.sentence_when_idle() && config.sentence_when_tab()),
        config.sentence ==> (config.sentence_when_idle() || config.sentence_when_tab()),
        !config.sentence ==> !config.sentence_when_idle() && !config.sentence_when_tab(),
{
}

/// The double-pinyin layouts.
#[derive(Debug, Clone, Copy, PartialEq, Eq, Structural)]
pub enum ShuangpinScheme {
    Xiaohe,
    Ziranma,
    Microsoft,
    Sogou,
    Xiaolang,
}

/// The phonetic input scheme (`[general] scheme`).
#[derive(Debug, Clone, Copy, PartialEq, Eq, Structural)]
pub enum Scheme {
    /// Full pinyin.
    Pinyin,
    /// Double pinyin in one of its layouts.
    Shuangpin(ShuangpinScheme),
    /// Dachen zhuyin.
    Zhuyin,
    /// No phonetic scheme.
    Off,
}

/// The character the task-bar mode icon shows. There is room for one, so
/// wubi wins over the phonetic scheme.
#[derive(Debug, Clone, Copy, PartialEq, Eq, Structural)]
pub enum ModeGlyph {
    /// Full pinyin (the default).
    Pinyin,
    Shuangpin,
    Zhuyin,
    /// Wubi (also when a phonetic scheme is on beside it).
    Wubi,
    /// Neither axis on: back to the plain Chinese glyph.
    Chinese,
}

impl Default for ModeGlyph {
    fn default() -> (r: Self)
        ensures
            r == ModeGlyph::Pinyin,
    {
        ModeGlyph::Pinyin
    }
}

impl ModeGlyph {
    /// Wubi first; otherwise the phonetic scheme's glyph, and the Chinese glyph
    /// when there is none.
    pub fn for_scheme(scheme: Scheme, wubi: bool) -> (r: Self)
        ensures
            r == (if wubi {
                ModeGlyph::Wubi
            } else {
                match scheme {
                    Scheme::Pinyin => ModeGlyph::Pinyin,
                    Scheme::Shuangpin(_) => ModeGlyph::Shuangpin,
                    Scheme::Zhuyin => ModeGlyph::Zhuyin,
                    Scheme::Off => ModeGlyph::Chinese,
                }
            }),
    {
        if wubi {
            return ModeGlyph::Wubi;
        }
        match scheme {
            Scheme::Pinyin => ModeGlyph::Pinyin,
            Scheme::Shuangpin(_) => ModeGlyph::Shuangpin,
            Scheme::Zhuyin => ModeGlyph::Zhuyin,
            Scheme::Off => ModeGlyph::Chinese,
        }
    }
}

/// The key-handling settings the server hands to the text service.
#[derive(Debug, Clone, Copy, PartialEq, Eq, Structural)]
pub struct InputSettings {
    pub switch_mode: SwitchKey,
    /// The built-in English mode switch.
    pub english_mode: bool,
    /// The mode a new window starts in.
    pub default_mode: DefaultMode,
    /// Zhuyin mode.
    pub zhuyin: bool,
    /// Shift with a letter starts a composition.
    pub shift_letter_compose: bool,
    /// The task-bar icon's character.
    pub glyph: ModeGlyph,
}

impl Default for InputSettings {
    fn default() -> (r: Self)
        ensures
            r == (InputSettings {
                switch_mode: SwitchKey::Shift,
                english_mode: true,
                default_mode: DefaultMode::Last,
                zhuyin: false,
                shift_letter_compose: false,
                glyph: ModeGlyph::Pinyin,
            }),
    {
        InputSettings {
            switch_mode: SwitchKey::default(),
            english_mode: true,
            default_mode: DefaultMode::default(),
            zhuyin: false,
            shift_letter_compose: false,
            glyph: ModeGlyph::default(),
        }
    }
}

/// An input session: one per text-service thread, `pid << 32 | tid` on Windows.
#[derive(Debug, Clone, Copy, PartialEq, Eq, Hash, PartialOrd, Ord, Structural)]
pub struct SessionId(pub u64);

} // verus!
