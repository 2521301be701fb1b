use qingjian::config::Scheme;
use qingjian::router::StatusEvent;
use qingjian::status::{
    action_event, cells, is_settings_image, CellColor, CellFont, mode_text, resolve_dark, status_cells, StatusAction, StatusCell, StatusView, ThemeMode, ACTIONS,
};

fn view() -> StatusView {
    StatusView {
        english: false,
        zhuyin: false,
        caps: false,
        full_width: true,
        cloud: false,
        theme: ThemeMode::System,
        anchor: None,
        scheme: Scheme::Pinyin,
        wubi: false,
    }
}

#[test]
fn mode_cell_letters() {
    assert_eq!(mode_text(&view()), "拼");
    assert_eq!(mode_text(&StatusView { english: true, ..view() }), "英");
    assert_eq!(mode_text(&StatusView { zhuyin: true, ..view() }), "注");
    assert_eq!(mode_text(&StatusView { caps: true, english: true, ..view() }), "A");
    assert_eq!(mode_text(&StatusView { scheme: Scheme::Off, ..view() }), "中");
    assert_eq!(mode_text(&StatusView { scheme: Scheme::Off, wubi: true, ..view() }), "五");
    assert_eq!(mode_text(&StatusView { wubi: true, ..view() }), "拼五");
}

#[test]
fn four_cells_in_order() {
    let cells = status_cells(&view());
    assert_eq!(cells.len(), 4);
    assert_eq!(cells[0], StatusCell::text("拼", true));
    assert_eq!(cells[1], StatusCell::text("，。", true));
    assert_eq!(cells[2], StatusCell::cloud(false));
    assert_eq!(cells[3], StatusCell::Gear);
    let half = status_cells(&StatusView { full_width: false, cloud: true, ..view() });
    assert_eq!(half[1], StatusCell::text(",.", false));
    assert_eq!(half[2], StatusCell::Cloud { emphasized: true });
}

#[test]
fn a_width_reference_is_kept_beside_the_text() {
    assert_eq!(
        StatusCell::text_with_width(",.", false, "，。"),
        StatusCell::Text {
            text: ",.".to_owned(),
            emphasized: false,
            width_of: Some("，。".to_owned()),
        }
    );
}

#[test]
fn cell_clicks_become_router_events() {
    assert_eq!(ACTIONS[0], StatusAction::ToggleMode);
    assert_eq!(action_event(ACTIONS[1]), Some(StatusEvent::TogglePunctuation));
    assert_eq!(action_event(StatusAction::ToggleCloud), Some(StatusEvent::ToggleCloud));
    assert_eq!(action_event(StatusAction::OpenSettings), None);
}

#[test]
fn the_theme_setting_wins_over_the_system() {
    assert!(!resolve_dark(ThemeMode::Light, true));
    assert!(resolve_dark(ThemeMode::Dark, false));
    assert!(resolve_dark(ThemeMode::System, true));
    assert!(!resolve_dark(ThemeMode::System, false));
}

#[test]
fn the_settings_program_is_known_by_its_file_name() {
    assert!(is_settings_image(r"C:\Program Files\Qingjian\qingjian-settings.exe"));
    assert!(is_settings_image("C:/Qingjian/QINGJIAN-Settings.EXE"));
    assert!(is_settings_image("qingjian-settings.exe"));
    assert!(!is_settings_image(r"C:\Qingjian\qingjian-server.exe"));
    assert!(!is_settings_image(r"C:\qingjian-settings.exe\other.exe"));
    assert!(!is_settings_image(r"C:\Qingjian\"));
    assert!(!is_settings_image(""));
}

#[test]
fn drawn_cells_mute_what_is_off() {
    assert!(cells(None).is_empty());
    let v = StatusView { full_width: false, cloud: true, ..view() };
    let drawn = cells(Some(&v));
    let summary: Vec<(&str, CellFont, CellColor, StatusAction)> =
        drawn.iter().map(|c| (c.text.as_str(), c.font, c.color, c.action)).collect();
    assert_eq!(
        summary,
        [
            ("拼", CellFont::Text, CellColor::Accent, StatusAction::ToggleMode),
            (",.", CellFont::Text, CellColor::Gloss, StatusAction::TogglePunctuation),
            ("\u{2601}", CellFont::Symbol, CellColor::Accent, StatusAction::ToggleCloud),
            ("\u{2699}", CellFont::Symbol, CellColor::Gloss, StatusAction::OpenSettings),
        ]
    );
    let full = cells(Some(&view()));
    assert_eq!(full[1].text, "，。");
    assert_eq!(full[1].color, CellColor::Accent);
    assert_eq!(full[2].color, CellColor::Gloss);
}
