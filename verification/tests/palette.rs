use qingjian::config::AccentColor;
use qingjian::palette::{accent_of, Accent, Color, Palette};

#[test]
fn accent_changes_only_its_three_colours() {
    let green = Palette::light_with(Accent::Qingjian);
    let blue = Palette::light_with(Accent::Classic);
    assert_eq!(green.text, blue.text);
    assert_eq!(green.fresh, blue.fresh);
    assert_eq!(green.background, blue.background);
    assert_ne!(green.accent, blue.accent);
    assert_eq!(green.accent, Color::rgb(94, 140, 62));
    assert_eq!(blue.highlight, Color::rgba(0, 122, 255, 41));
    assert_eq!(Palette::light(), green);
    assert_eq!(Palette::dark(), Palette::dark_with(Accent::Qingjian));
    assert_eq!(Palette::dark().background, Color::rgb(30, 30, 30));
    assert_eq!(Palette::dark().text, Color::gray(255, 216));
    assert_eq!(Palette::dark_with(Accent::Classic).hover, Color::rgba(0, 122, 255, 32));
}

#[test]
fn configured_accents_map_one_for_one() {
    assert_eq!(accent_of(AccentColor::Qingjian), Accent::Qingjian);
    assert_eq!(accent_of(AccentColor::Classic), Accent::Classic);
    assert_eq!(Accent::default(), Accent::Qingjian);
}
