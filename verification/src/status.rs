//! The floating status bar: what it shows for the foreground session, and its
//! cells (mode, punctuation, cloud, gear).

use vstd::prelude::*;

use crate::config::Scheme;
use crate::prompt::{ascii_lower, ascii_lowercase};
use crate::tsf::directory_len;
use crate::router::StatusEvent;
use crate::text::{chars_of, push_char};

verus! {

/// The appearance setting.
#[derive(Debug, Clone, Copy, PartialEq, Eq, Structural)]
pub enum ThemeMode {
    /// Follow the system.
    System,
    Light,
    Dark,
}

/// What the status bar shows at one time.
#[derive(Debug, Clone, Copy, PartialEq, Eq)]
pub struct StatusView {
    /// English mode (`false` is Chinese).
    pub english: bool,
    /// Dachen zhuyin is on.
    pub zhuyin: bool,
    /// Caps Lock is on: the mode cell shows `A`.
    pub caps: bool,
    /// Full-width punctuation is on for the current mode.
    pub full_width: bool,
    /// Cloud prediction is on.
    pub cloud: bool,
    pub theme: ThemeMode,
    /// The remembered top-left corner of the content, in physical pixels.
    pub anchor: Option<(i32, i32)>,
    /// The phonetic scheme.
    pub scheme: Scheme,
    /// Wubi is on.
    pub wubi: bool,
}

/// One cell of the status bar.
#[derive(Debug, Clone, PartialEq, Eq)]
pub enum StatusCell {
    /// Text; `emphasized` draws it in the brand colour. When `width_of` is
    /// given the cell is as wide as that text, so switching between spellings
    /// keeps the bar's length.
    Text { text: String, emphasized: bool, width_of: Option<String> },
    /// The cloud of online prediction; `emphasized` when it is on.
    Cloud { emphasized: bool },
    /// The gear that opens the settings.
    Gear,
}

impl StatusCell {
    pub fn text(text: &str, emphasized: bool) -> (r: Self)
        ensures
            r matches StatusCell::Text { text: t, emphasized: e, width_of: w } && t@ == text@ && e
                == emphasized && w is None,
    {
        StatusCell::Text { text: text.to_owned(), emphasized, width_of: None }
    }

    /// Like [`Self::text`], measured by `reference` instead of its own text.
    pub fn text_with_width(text: &str, emphasized: bool, reference: &str) -> (r: Self)
        ensures
            r matches StatusCell::Text { text: t, emphasized: e, width_of: Some(w) } && t@ == text@
                && e == emphasized && w@ == reference@,
    {
        StatusCell::Text {
            text: text.to_owned(),
            emphasized,
            width_of: Some(reference.to_owned()),
        }
    }

    pub fn cloud(emphasized: bool) -> (r: Self)
        ensures
            r == (StatusCell::Cloud { emphasized }),
    {
        StatusCell::Cloud { emphasized }
    }
}

/// The mode cell: `A` under Caps Lock; otherwise `英` in English mode, `注`
/// under zhuyin, else one character for the phonetic scheme followed by `五`
/// when wubi is on, and `中` when neither axis is on.
pub open spec fn mode_text_spec(view: StatusView) -> Seq<char> {
    if view.caps {
        seq!['A']
    } else if view.english {
        seq!['英']
    } else if view.zhuyin {
        seq!['注']
    } else {
        let phonetic: Seq<char> = match view.scheme {
            Scheme::Pinyin => seq!['拼'],
            Scheme::Shuangpin(_) => seq!['双'],
            Scheme::Zhuyin => seq!['注'],
            Scheme::Off => Seq::empty(),
        };
        let shape: Seq<char> = if view.wubi {
            seq!['五']
        } else {
            Seq::empty()
        };
        if phonetic.len() == 0 && shape.len() == 0 {
            seq!['中']
        } else {
            phonetic + shape
        }
    }
}

/// The text of the mode cell.
pub fn mode_text(view: &StatusView) -> (r: String)
    ensures
        r@ == mode_text_spec(*view),
{
    let mut out = String::new();
    if view.caps {
        push_char(&mut out, 'A');
    } else if view.english {
        push_char(&mut out, '英');
    } else if view.zhuyin {
        push_char(&mut out, '注');
    } else {
        match view.scheme {
            Scheme::Pinyin => push_char(&mut out, '拼'),
            Scheme::Shuangpin(_) => push_char(&mut out, '双'),
            Scheme::Zhuyin => push_char(&mut out, '注'),
            Scheme::Off => {},
        }
        if view.wubi {
            push_char(&mut out, '五');
        }
        if out.as_str().unicode_len() == 0 {
            push_char(&mut out, '中');
        }
        assert(out@ =~= mode_text_spec(*view));
    }
    out
}

/// The punctuation cell's text: `，。` when full width is on, `,.` when off.
pub open spec fn punctuation_text_spec(full_width: bool) -> Seq<char> {
    if full_width {
        seq!['，', '。']
    } else {
        seq![',', '.']
    }
}

/// The four cells, left to right: the mode (emphasized), the punctuation
/// (emphasized while full width is on), the cloud, the gear.
pub fn status_cells(view: &StatusView) -> (r: Vec<StatusCell>)
    ensures
        r@.len() == 4,
        r@[0] matches StatusCell::Text { text: t, emphasized: e, width_of: None } && t@
            == mode_text_spec(*view) && e,
        r@[1] matches StatusCell::Text { text: t, emphasized: e, width_of: None } && t@
            == punctuation_text_spec(view.full_width) && e == view.full_width,
        r@[2] == (StatusCell::Cloud { emphasized: view.cloud }),
        r@[3] == StatusCell::Gear,
{
    let mut cells: Vec<StatusCell> = Vec::new();
    cells.push(StatusCell::Text { text: mode_text(view), emphasized: true, width_of: None });
    let mut punctuation = String::new();
    if view.full_width {
        push_char(&mut punctuation, '，');
        push_char(&mut punctuation, '。');
    } else {
        push_char(&mut punctuation, ',');
        push_char(&mut punctuation, '.');
    }
    assert(punctuation@ =~= punctuation_text_spec(view.full_width));
    cells.push(
        StatusCell::Text { text: punctuation, emphasized: view.full_width, width_of: None },
    );
    cells.push(StatusCell::cloud(view.cloud));
    cells.push(StatusCell::Gear);
    cells
}

/// The mode cell always shows something, and Caps Lock outranks the mode.
pub proof fn lemma_mode_cell_never_blank(view: StatusView)
    ensures
        mode_text_spec(view).len() > 0,
        view.caps ==> mode_text_spec(view) == seq!['A'],
{
}

/// What a click on a status-bar cell does.
#[derive(Debug, Clone, Copy, PartialEq, Eq, Structural)]
pub enum StatusAction {
    /// The mode cell: switch Chinese / English.
    ToggleMode,
    /// The punctuation cell.
    TogglePunctuation,
    /// The cloud cell.
    ToggleCloud,
    /// The gear: open the settings (the interface thread starts them itself).
    OpenSettings,
}

/// The actions of the four cells, in the order of [`status_cells`].
pub const ACTIONS: [StatusAction; 4] = [
    StatusAction::ToggleMode,
    StatusAction::TogglePunctuation,
    StatusAction::ToggleCloud,
    StatusAction::OpenSettings,
];

/// The event a click sends to the router; the gear sends none.
pub fn action_event(action: StatusAction) -> (r: Option<StatusEvent>)
    ensures
        r == (match action {
            StatusAction::ToggleMode => Some(StatusEvent::ToggleMode),
            StatusAction::TogglePunctuation => Some(StatusEvent::TogglePunctuation),
            StatusAction::ToggleCloud => Some(StatusEvent::ToggleCloud),
            StatusAction::OpenSettings => None,
        }),
{
    match action {
        StatusAction::ToggleMode => Some(StatusEvent::ToggleMode),
        StatusAction::TogglePunctuation => Some(StatusEvent::TogglePunctuation),
        StatusAction::ToggleCloud => Some(StatusEvent::ToggleCloud),
        StatusAction::OpenSettings => None,
    }
}

/// The font of a cell drawn without the renderer.
#[derive(Debug, Clone, Copy, PartialEq, Eq, Structural)]
pub enum CellFont {
    Text,
    Symbol,
}

/// The colour of a cell drawn without the renderer: the brand colour, or the
/// muted one of glosses.
#[derive(Debug, Clone, Copy, PartialEq, Eq, Structural)]
pub enum CellColor {
    Accent,
    Gloss,
}

/// One cell as drawn without the renderer: text, font, colour and what a
/// click does.
#[derive(Debug, Clone, PartialEq, Eq)]
pub struct CellSpec {
    pub text: String,
    pub font: CellFont,
    pub color: CellColor,
    pub action: StatusAction,
}

pub open spec fn cell_is(
    c: CellSpec,
    text: Seq<char>,
    font: CellFont,
    color: CellColor,
    action: StatusAction,
) -> bool {
    c.text@ == text && c.font == font && c.color == color && c.action == action
}

/// The cells drawn without the renderer, left to right (none while nothing is
/// shown): the mode in the brand colour; the punctuation and the cloud in the
/// brand colour while on, muted while off; the gear muted.
pub fn cells(view: Option<&StatusView>) -> (r: Vec<CellSpec>)
    ensures
        view is None ==> r@.len() == 0,
        view matches Some(v) ==> {
            &&& r@.len() == 4
            &&& cell_is(r@[0], mode_text_spec(*v), CellFont::Text, CellColor::Accent, StatusAction::ToggleMode)
            &&& cell_is(
                r@[1],
                punctuation_text_spec(v.full_width),
                CellFont::Text,
                if v.full_width { CellColor::Accent } else { CellColor::Gloss },
                StatusAction::TogglePunctuation,
            )
            &&& cell_is(
                r@[2],
                seq!['\u{2601}'],
                CellFont::Symbol,
                if v.cloud { CellColor::Accent } else { CellColor::Gloss },
                StatusAction::ToggleCloud,
            )
            &&& cell_is(r@[3], seq!['\u{2699}'], CellFont::Symbol, CellColor::Gloss, StatusAction::OpenSettings)
        },
{
    let mut out: Vec<CellSpec> = Vec::new();
    let view = match view {
        Some(v) => v,
        None => return out,
    };
    out.push(
        CellSpec {
            text: mode_text(view),
            font: CellFont::Text,
            color: CellColor::Accent,
            action: StatusAction::ToggleMode,
        },
    );
    let mut punctuation = String::new();
    if view.full_width {
        push_char(&mut punctuation, '，');
        push_char(&mut punctuation, '。');
    } else {
        push_char(&mut punctuation, ',');
        push_char(&mut punctuation, '.');
    }
    assert(punctuation@ =~= punctuation_text_spec(view.full_width));
    out.push(
        CellSpec {
            text: punctuation,
            font: CellFont::Text,
            color: if view.full_width { CellColor::Accent } else { CellColor::Gloss },
            action: StatusAction::TogglePunctuation,
        },
    );
    let mut cloud = String::new();
    push_char(&mut cloud, '\u{2601}');
    assert(cloud@ =~= seq!['\u{2601}']);
    out.push(
        CellSpec {
            text: cloud,
            font: CellFont::Symbol,
            color: if view.cloud { CellColor::Accent } else { CellColor::Gloss },
            action: StatusAction::ToggleCloud,
        },
    );
    let mut gear = String::new();
    push_char(&mut gear, '\u{2699}');
    assert(gear@ =~= seq!['\u{2699}']);
    out.push(
        CellSpec {
            text: gear,
            font: CellFont::Symbol,
            color: CellColor::Gloss,
            action: StatusAction::OpenSettings,
        },
    );
    out
}

/// Whether the windows are dark: the setting, or for `System` what the system
/// prefers (`system_dark`, read by the caller).
pub fn resolve_dark(mode: ThemeMode, system_dark: bool) -> (r: bool)
    ensures
        r == match mode {
            ThemeMode::Light => false,
            ThemeMode::Dark => true,
            ThemeMode::System => system_dark,
        },
{
    match mode {
        ThemeMode::Light => false,
        ThemeMode::Dark => true,
        ThemeMode::System => system_dark,
    }
}

/// The file name of the settings program.
pub open spec fn settings_exe_name() -> Seq<char> {
    "qingjian-settings.exe"@
}

/// `a` and `b` are the same up to ASCII case (`str::eq_ignore_ascii_case`).
pub open spec fn same_ignoring_ascii_case(a: Seq<char>, b: Seq<char>) -> bool {
    &&& a.len() == b.len()
    &&& forall|i: int| 0 <= i < a.len() ==> ascii_lower(#[trigger] a[i]) == ascii_lower(b[i])
}

/// Whether a process image path names the settings program: its file name
/// (after the last `\\` or `/`) is `qingjian-settings.exe` in any ASCII case.
pub fn is_settings_image(path: &str) -> (r: bool)
    ensures
        r == same_ignoring_ascii_case(
            path@.subrange(directory_len(path@) as int, path@.len() as int),
            settings_exe_name(),
        ),
{
    let chars = chars_of(path);
    let mut start: usize = chars.len();
    assert(chars@.subrange(0, chars.len() as int) =~= chars@);
    while start > 0 && !(chars[start - 1] == '\\' || chars[start - 1] == '/')
        invariant
            start <= chars.len(),
            chars@ == path@,
            directory_len(path@) == directory_len(chars@.subrange(0, start as int)),
        decreases start,
    {
        assert(chars@.subrange(0, start as int).drop_last() =~= chars@.subrange(0, start - 1));
        start = start - 1;
    }
    proof {
        if start > 0 {
            assert(chars@.subrange(0, start as int).last() == chars@[start - 1]);
        }
        assert(directory_len(path@) == start);
    }
    let ghost name = path@.subrange(start as int, path@.len() as int);
    let wanted = chars_of("qingjian-settings.exe");
    if chars.len() - start != wanted.len() {
        return false;
    }
    let mut i: usize = 0;
    while i < wanted.len()
        invariant
            i <= wanted.len(),
            chars@ == path@,
            start + wanted.len() == chars.len(),
            start == directory_len(path@),
            wanted@ == settings_exe_name(),
            name == path@.subrange(start as int, path@.len() as int),
            forall|j: int| 0 <= j < i ==> ascii_lower(#[trigger] name[j]) == ascii_lower(wanted@[j]),
        decreases wanted.len() - i,
    {
        let a = ascii_lowercase(chars[start + i]);
        let b = ascii_lowercase(wanted[i]);
        assert(name[i as int] == chars@[start + i]);
        if a != b {
            assert(ascii_lower(name[i as int]) != ascii_lower(wanted@[i as int]));
            assert(!same_ignoring_ascii_case(name, settings_exe_name()));
            return false;
        }
        i = i + 1;
    }
    true
}

} // verus!
