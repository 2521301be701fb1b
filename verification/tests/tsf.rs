use qingjian::config::{DefaultMode, InputSettings, ModeGlyph, SwitchKey};
use qingjian::tsf::{
    button_text, button_tooltip, glyph_for, icon_pixel, icon_pixels, server_exe_path, session_id, should_sync_mode, size_index_for_dpi, Glyph,
    ModeState, PollContext, MODE_SYNC_EVERY,
};

#[test]
fn glyph_priority_is_caps_then_english_then_zhuyin() {
    assert_eq!(glyph_for(true, true, true), Glyph::CapsLock);
    assert_eq!(glyph_for(true, false, true), Glyph::CapsLock);
    assert_eq!(glyph_for(false, true, true), Glyph::English);
    assert_eq!(glyph_for(false, false, true), Glyph::Zhuyin);
    assert_eq!(glyph_for(false, false, false), Glyph::Chinese);
}

#[test]
fn dpi_picks_the_tier_that_covers_16pt() {
    assert_eq!(size_index_for_dpi(96), 0);
    assert_eq!(size_index_for_dpi(120), 1);
    assert_eq!(size_index_for_dpi(144), 2);
    assert_eq!(size_index_for_dpi(192), 3);
    assert_eq!(size_index_for_dpi(240), 3);
    assert_eq!(size_index_for_dpi(0), 0);
}

fn fixture(tick: u32) -> PollContext {
    PollContext { ticks: tick }
}

#[test]
fn fires_on_every_mode_sync_beat() {
    for tick in (0..32u32).map(|n| n * MODE_SYNC_EVERY) {
        assert!(should_sync_mode(&fixture(tick)), "tick={tick} should fire");
    }
}

#[test]
fn skips_between_beats() {
    let beat = MODE_SYNC_EVERY;
    for offset in 1..beat {
        assert!(
            !should_sync_mode(&fixture(offset)),
            "offset={offset} should not fire"
        );
    }
}

#[test]
fn independent_of_shared_state() {
    let beat = MODE_SYNC_EVERY;
    let context = fixture(beat);
    assert!(should_sync_mode(&context));
}

#[test]
fn server_exe_sits_next_to_the_dll() {
    assert_eq!(
        server_exe_path(r"D:\Program Files\Qingjian\qingjian_tsf-0.1.0-alpha.15-dev.dll"),
        r"D:\Program Files\Qingjian\qingjian-server.exe"
    );
    assert_eq!(server_exe_path("qingjian_tsf.dll"), "qingjian-server.exe");
}

#[test]
fn the_server_path_follows_windows_components() {
    assert_eq!(server_exe_path(r"C:a.dll"), r"C:qingjian-server.exe");
    assert_eq!(server_exe_path(r"C:"), r"C:qingjian-server.exe");
    assert_eq!(server_exe_path(r"C:\a.dll"), r"C:\qingjian-server.exe");
    assert_eq!(server_exe_path(r"C:\dir\"), r"C:\qingjian-server.exe");
    assert_eq!(server_exe_path(r"C:\dir\\a.dll"), r"C:\dir\qingjian-server.exe");
    assert_eq!(server_exe_path(r"C:/x/a.dll"), r"C:/x\qingjian-server.exe");
    assert_eq!(server_exe_path(r"\\server\share\a.dll"), r"\\server\share\qingjian-server.exe");
    assert_eq!(server_exe_path(r"\"), r"\qingjian-server.exe");
    assert_eq!(server_exe_path(""), "qingjian-server.exe");
}

#[test]
fn session_ids_put_the_process_above_the_thread() {
    assert_eq!(session_id(1, 2).0, (1u64 << 32) | 2);
    assert_eq!(session_id(0xffff_ffff, 0xffff_ffff).0, u64::MAX);
    assert_ne!(session_id(1, 0), session_id(0, 1));
}

#[test]
fn settings_report_only_a_glyph_change() {
    let mut state = ModeState::new();
    assert_eq!(state.glyph(), ModeGlyph::Pinyin, "full pinyin by default");
    assert!(
        state.set_settings(true, SwitchKey::Shift, ModeGlyph::Zhuyin),
        "another scheme refreshes the icon"
    );
    assert_eq!(state.glyph(), ModeGlyph::Zhuyin);
    assert!(
        !state.set_settings(true, SwitchKey::Shift, ModeGlyph::Zhuyin),
        "the same value does not"
    );
    assert!(
        state.set_settings(true, SwitchKey::Shift, ModeGlyph::Wubi),
        "turning wubi on does"
    );
    assert_eq!(state.glyph(), ModeGlyph::Wubi);
}

#[test]
fn english_cannot_be_entered_while_the_builtin_mode_is_off() {
    let mut state = ModeState::new();
    assert!(state.set_english_mode(true));
    assert!(state.english());
    let off = InputSettings {
        english_mode: false,
        ..InputSettings::default()
    };
    let effect = state.apply_mode_settings(&off, true);
    assert!(effect.refresh_indicator, "back to Chinese at once");
    assert_eq!(effect.lang_bar, Some(false));
    assert!(!state.english());
    assert!(!state.set_english_mode(true));
    assert!(!state.toggle_mode());
    assert!(!state.on_mode_sync(true));
    assert!(!state.on_conversion_mode(false, true));
    assert!(!state.english());
    let on = InputSettings::default();
    let effect = state.apply_mode_settings(&on, true);
    assert_eq!(effect.lang_bar, Some(true));
    assert!(!effect.refresh_indicator);
    assert!(state.toggle_mode());
    assert!(state.english());
}

#[test]
fn a_new_window_starts_in_the_configured_mode() {
    let mut state = ModeState::new();
    assert!(!state.start_mode(None));
    assert!(!state.start_mode(Some(InputSettings::default())));
    let english = InputSettings {
        default_mode: DefaultMode::English,
        ..InputSettings::default()
    };
    assert!(state.start_mode(Some(english)));
    assert!(state.english());
    assert!(!state.on_conversion_mode(true, false), "the guard window ignores the restore");
    assert!(state.english());
    assert!(state.on_conversion_mode(false, false));
    assert!(!state.english());
}

#[test]
fn icon_pixels_are_premultiplied_ink() {
    assert_eq!(icon_pixel(0, false), 0);
    assert_eq!(icon_pixel(255, false), 0xFFFF_FFFF);
    assert_eq!(icon_pixel(255, true), 0xFF00_0000);
    assert_eq!(icon_pixel(128, false), 0x8080_8080);
    assert_eq!(icon_pixels(&vec![0, 255], true), vec![0, 0xFF00_0000]);
}

#[test]
fn the_server_is_started_at_most_once_per_cooldown() {
    let mut gate = qingjian::tsf::LaunchGate { last: None };
    assert!(gate.cooldown_passed(1000));
    assert!(!gate.cooldown_passed(3000));
    assert!(!gate.cooldown_passed(5999));
    assert!(gate.cooldown_passed(6000));
    assert_eq!(gate.last, Some(6000));
}

#[test]
fn the_language_bar_button_names_the_mode_and_the_switch() {
    assert_eq!(button_text(Glyph::Chinese), "中");
    assert_eq!(button_text(Glyph::English), "英");
    assert_eq!(button_text(Glyph::Zhuyin), "注");
    assert_eq!(button_text(Glyph::CapsLock), "A");
    assert_eq!(button_tooltip(false, SwitchKey::Shift), "中 / 英（内置英文模式已关闭）");
    assert_eq!(button_tooltip(true, SwitchKey::Shift), "中 / 英（单击 Shift 切换）");
    assert_eq!(button_tooltip(true, SwitchKey::Control), "中 / 英（单击 Ctrl 切换）");
    assert_eq!(button_tooltip(true, SwitchKey::Off), "中 / 英（未设切换键，点这里切换）");
}

#[test]
fn each_icon_names_its_drawing() {
    assert_eq!(Glyph::Chinese.source(), "mode-zh.svg");
    assert_eq!(Glyph::English.source(), "mode-en.svg");
    assert_eq!(Glyph::Zhuyin.source(), "mode-zhuyin.svg");
    assert_eq!(Glyph::CapsLock.source(), "mode-caps.svg");
}
