use qingjian::config::{
    AccentColor, DefaultMode, InputSettings, ModeGlyph, PredictConfig, Scheme, SentenceTrigger,
    ShuangpinScheme, SwitchKey,
};

#[test]
fn apply_maps_to_the_mode_to_set() {
    assert_eq!(DefaultMode::Last.apply(), None);
    assert_eq!(DefaultMode::Chinese.apply(), Some(false));
    assert_eq!(DefaultMode::English.apply(), Some(true));
}

#[test]
fn keys_and_labels_cover_all_values() {
    assert_eq!(DefaultMode::ALL.len(), 3);
    assert_eq!(DefaultMode::Last.key(), "last");
    assert_eq!(DefaultMode::Chinese.key(), "chinese");
    assert_eq!(DefaultMode::English.key(), "english");
    assert_eq!(DefaultMode::ALL[0].key(), "last");
}

#[test]
fn labels_and_keys_of_the_other_settings() {
    assert_eq!(DefaultMode::Last.label(), "记住上次");
    assert_eq!(AccentColor::ALL.len(), 2);
    assert_eq!(AccentColor::default(), AccentColor::Qingjian);
    assert_eq!(AccentColor::Classic.key(), "classic");
    assert_eq!(AccentColor::Qingjian.label(), "青简绿");
    assert_eq!(SwitchKey::default(), SwitchKey::Shift);
    assert_eq!(SwitchKey::Control.key(), "control");
    assert_eq!(SwitchKey::Off.key(), "none");
    assert_eq!(SwitchKey::Off.label(), "不切换");
    assert_eq!(SwitchKey::ALL[1], SwitchKey::Control);
    assert_eq!(SentenceTrigger::Tab.key(), "tab");
    assert_eq!(SentenceTrigger::default().key(), "idle");
}

#[test]
fn mode_glyph_picks_one_letter_per_priority() {
    assert_eq!(
        ModeGlyph::for_scheme(Scheme::Pinyin, false),
        ModeGlyph::Pinyin
    );
    assert_eq!(
        ModeGlyph::for_scheme(Scheme::Shuangpin(ShuangpinScheme::Xiaohe), false),
        ModeGlyph::Shuangpin
    );
    assert_eq!(
        ModeGlyph::for_scheme(Scheme::Zhuyin, false),
        ModeGlyph::Zhuyin
    );
    assert_eq!(ModeGlyph::for_scheme(Scheme::Pinyin, true), ModeGlyph::Wubi);
    assert_eq!(
        ModeGlyph::for_scheme(Scheme::Shuangpin(ShuangpinScheme::Xiaolang), true),
        ModeGlyph::Wubi
    );
    assert_eq!(
        ModeGlyph::for_scheme(Scheme::Off, false),
        ModeGlyph::Chinese
    );
}

#[test]
fn input_settings_default_to_shift_and_english_on() {
    let input = InputSettings::default();
    assert_eq!(input.switch_mode, SwitchKey::Shift);
    assert!(input.english_mode);
    assert_eq!(input.default_mode, DefaultMode::Last);
    assert!(!input.zhuyin);
    assert!(!input.shift_letter_compose);
    assert_eq!(input.glyph, ModeGlyph::Pinyin);
}

#[test]
fn idle_trigger_asks_the_sentence_on_every_request() {
    let config = PredictConfig {
        enabled: true,
        ..PredictConfig::default()
    };
    assert_eq!(config.sentence_trigger, SentenceTrigger::Idle);
    assert!(config.policy().sentence);
    assert!(!config.sentence_on_tab());
}

#[test]
fn tab_trigger_keeps_the_auto_request_words_only() {
    let config = PredictConfig {
        enabled: true,
        sentence_trigger: SentenceTrigger::Tab,
        ..PredictConfig::default()
    };
    assert!(!config.policy().sentence, "automatic requests ask for words only");
    assert!(config.sentence_on_tab());
}

#[test]
fn sentence_off_outranks_the_trigger() {
    let config = PredictConfig {
        enabled: true,
        sentence: false,
        sentence_trigger: SentenceTrigger::Tab,
        ..PredictConfig::default()
    };
    assert!(!config.policy().sentence);
    assert!(!config.sentence_on_tab(), "with the feature off, Tab asks nothing either");
}

#[test]
fn policy_asks_two_more_words_than_slots() {
    let config = PredictConfig::default();
    let policy = config.policy();
    assert_eq!(policy.before, 64);
    assert_eq!(policy.after, 32);
    assert_eq!(policy.slots, 2);
    assert_eq!(policy.max_items, 4);
    let sentence_only = PredictConfig {
        slots: 0,
        ..PredictConfig::default()
    };
    assert_eq!(sentence_only.policy().max_items, 3);
    assert_eq!(config.base_url, "https://api.deepseek.com");
    assert_eq!(config.reasoning_effort, "none");
    assert!(!config.enabled);
}

#[test]
fn the_configured_key_wins_over_the_environment() {
    let with_key = PredictConfig { api_key: Some("  sk-test  ".to_owned()), ..PredictConfig::default() };
    assert_eq!(with_key.resolve_api_key(Some("sk-env")).as_deref(), Some("sk-test"));
    let blank_key = PredictConfig { api_key: Some("   ".to_owned()), ..PredictConfig::default() };
    assert_eq!(blank_key.resolve_api_key(Some(" sk-env ")).as_deref(), Some(" sk-env "));
    let no_key = PredictConfig { api_key: None, ..PredictConfig::default() };
    assert_eq!(no_key.resolve_api_key(Some("\t")), None);
    assert_eq!(no_key.resolve_api_key(None), None);
}

fn parse(text: &str) -> Result<SwitchKey, ()> {
    SwitchKey::from_key(text).ok_or(())
}

#[test]
fn parses_aliases_and_prints_canonically() {
    assert_eq!(parse("shift").unwrap(), SwitchKey::Shift);
    assert_eq!(parse("control").unwrap(), SwitchKey::Control);
    assert_eq!(parse("ctrl").unwrap(), SwitchKey::Control);
    assert_eq!(parse("none").unwrap(), SwitchKey::Off);
    assert_eq!(parse("off").unwrap(), SwitchKey::Off);
    assert_eq!(SwitchKey::Control.key(), "control");
    assert_eq!(SwitchKey::default(), SwitchKey::Shift);
    for key in SwitchKey::ALL {
        assert_eq!(parse(key.key()), Ok(key));
    }
}

#[test]
fn unknown_values_are_rejected() {
    assert!(parse("hyper").is_err());
    assert!(parse("ctrl+space").is_err());
}
