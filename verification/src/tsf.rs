//! The text service's mode decisions: the task-bar icon, the DPI tier of its
//! masks, the poll beat that asks the server for a mode switch, the session id
//! of a host thread, where the server executable lives, and how the
//! Chinese / English mode follows the keys, the buttons and the settings.

use vstd::prelude::*;

use crate::config::{DefaultMode, InputSettings, ModeGlyph, SessionId, SwitchKey};
use crate::text::{append_chars, chars_of, push_char, string_of};

verus! {

/// The four task-bar icons.
#[derive(Debug, Clone, Copy, PartialEq, Eq, Structural)]
pub enum Glyph {
    Chinese,
    English,
    /// Zhuyin mode.
    Zhuyin,
    CapsLock,
}

impl Glyph {
    /// The drawing each icon's masks were made from.
    pub fn source(self) -> (r: &'static str)
        ensures
            r@ == match self {
                Glyph::Chinese => "mode-zh.svg"@,
                Glyph::English => "mode-en.svg"@,
                Glyph::Zhuyin => "mode-zhuyin.svg"@,
                Glyph::CapsLock => "mode-caps.svg"@,
            },
    {
        match self {
            Glyph::Chinese => "mode-zh.svg",
            Glyph::English => "mode-en.svg",
            Glyph::Zhuyin => "mode-zhuyin.svg",
            Glyph::CapsLock => "mode-caps.svg",
        }
    }
}

/// The icon: Caps Lock first, then English, then zhuyin, else Chinese (the
/// same order as the status bar's mode cell).
pub fn glyph_for(caps: bool, english: bool, zhuyin: bool) -> (r: Glyph)
    ensures
        r == (if caps {
            Glyph::CapsLock
        } else if english {
            Glyph::English
        } else if zhuyin {
            Glyph::Zhuyin
        } else {
            Glyph::Chinese
        }),
{
    if caps {
        Glyph::CapsLock
    } else if english {
        Glyph::English
    } else if zhuyin {
        Glyph::Zhuyin
    } else {
        Glyph::Chinese
    }
}

/// The four mask sizes in pixels: 16pt at 100%, 125%, 150% and 200%.
pub const SIZES: [usize; 4] = [16, 20, 24, 32];

pub open spec fn sizes_spec() -> Seq<usize> {
    seq![16usize, 20usize, 24usize, 32usize]
}

/// 16pt in pixels at `dpi` (an unknown DPI, below 96, counts as 96).
pub open spec fn pixels_for_dpi(dpi: u32) -> int {
    16 * (if dpi >= 96 {
        dpi as int
    } else {
        96
    }) / 96
}

/// The smallest tier that covers 16pt at `dpi`; the largest when none does.
pub open spec fn size_index_spec(dpi: u32) -> int {
    let px = pixels_for_dpi(dpi);
    if px <= 16 {
        0
    } else if px <= 20 {
        1
    } else if px <= 24 {
        2
    } else {
        3
    }
}

/// The mask tier for the system DPI.
pub fn size_index_for_dpi(dpi: u32) -> (r: usize)
    ensures
        r == size_index_spec(dpi),
        r < 4,
{
    let at_least_96 = if dpi >= 96 {
        dpi
    } else {
        96
    };
    let px: u64 = 16 * (at_least_96 as u64) / 96;
    assert(px == pixels_for_dpi(dpi));
    assert(SIZES@ =~= sizes_spec());
    let mut i: usize = 0;
    while i < 4
        invariant
            i <= 4,
            px == pixels_for_dpi(dpi),
            SIZES@ == sizes_spec(),
            forall|j: int| 0 <= j < i ==> (SIZES@[j] as u64) < px,
        decreases 4 - i,
    {
        if SIZES[i] as u64 >= px {
            proof {
                assert(sizes_spec()[0] == 16 && sizes_spec()[1] == 20 && sizes_spec()[2] == 24);
                if i >= 1 {
                    assert((SIZES@[0] as u64) < px);
                }
                if i >= 2 {
                    assert((SIZES@[1] as u64) < px);
                }
                if i >= 3 {
                    assert((SIZES@[2] as u64) < px);
                }
            }
            return i;
        }
        i = i + 1;
    }
    3
}

/// The chosen tier covers 16pt unless DPI is above the largest tier, and no
/// smaller tier would.
pub proof fn lemma_size_tier_covers_16pt(dpi: u32)
    ensures
        0 <= size_index_spec(dpi) < 4,
        pixels_for_dpi(dpi) <= 32 ==> sizes_spec()[size_index_spec(dpi)] >= pixels_for_dpi(dpi),
        forall|j: int| 0 <= j < size_index_spec(dpi) ==> sizes_spec()[j] < pixels_for_dpi(dpi),
{
}

/// Poll beats between two mode syncs (a beat is 80 ms: about 320 ms).
pub const MODE_SYNC_EVERY: u32 = 4;

/// What the poll timer counts.
#[derive(Debug, Clone, Copy)]
pub struct PollContext {
    /// Beats so far.
    pub ticks: u32,
}

/// Whether this beat asks the server for a mode switch: every
/// [`MODE_SYNC_EVERY`] beats, whatever the composition is doing.
pub fn should_sync_mode(context: &PollContext) -> (r: bool)
    ensures
        r == (context.ticks % MODE_SYNC_EVERY == 0),
{
    context.ticks % MODE_SYNC_EVERY == 0
}

/// The session id of a host thread: process id in the high half, thread id in
/// the low half, unique among living processes.
pub fn session_id(pid: u32, tid: u32) -> (r: SessionId)
    ensures
        r.0 == pid as int * 0x1_0000_0000 + tid as int,
{
    let high: u64 = (pid as u64) * 0x1_0000_0000;
    SessionId(high + tid as u64)
}

/// Two hosts have the same session id only when both ids match.
pub proof fn lemma_session_ids_are_unique(p1: u32, t1: u32, p2: u32, t2: u32)
    requires
        p1 as int * 0x1_0000_0000 + t1 as int == p2 as int * 0x1_0000_0000 + t2 as int,
    ensures
        p1 == p2 && t1 == t2,
{
    assert(p1 == p2 && t1 == t2) by (nonlinear_arith)
        requires
            p1 as int * 0x1_0000_0000 + t1 as int == p2 as int * 0x1_0000_0000 + t2 as int,
            0 <= t1 < 0x1_0000_0000,
            0 <= t2 < 0x1_0000_0000,
    ;
}

pub open spec fn is_separator(c: char) -> bool {
    c == '\\' || c == '/'
}

/// The length of the directory part of `path`: up to and with the last
/// separator (0 when there is none).
pub open spec fn directory_len(path: Seq<char>) -> nat
    decreases path.len(),
{
    if path.len() == 0 {
        0
    } else if is_separator(path.last()) {
        path.len()
    } else {
        directory_len(path.drop_last())
    }
}

/// The name of the server executable.
pub open spec fn server_exe_name() -> Seq<char> {
    "qingjian-server.exe"@
}

/// The length of `path` without its trailing separators.
pub open spec fn trimmed_len(path: Seq<char>) -> nat
    decreases path.len(),
{
    if path.len() > 0 && is_separator(path.last()) {
        trimmed_len(path.drop_last())
    } else {
        path.len()
    }
}

/// `path` begins with a drive (`C:`).
pub open spec fn has_drive(path: Seq<char>) -> bool {
    path.len() >= 2 && path[1] == ':' && ('a' <= path[0] <= 'z' || 'A' <= path[0] <= 'Z')
}

/// Where the last component of `path` (trailing separators left off) begins:
/// after its last separator, or after a drive (`C:a.dll`).
pub open spec fn name_start(path: Seq<char>) -> nat {
    let n = trimmed_len(path);
    let d = directory_len(path.subrange(0, n as int));
    if d == 0 && has_drive(path) && n >= 2 {
        2
    } else {
        d
    }
}

/// The directory `dir` as the new name is pushed onto it: unchanged when it
/// does not end in a separator (empty, or a bare drive); a root (`\\`, `C:\\`)
/// keeps its one separator; any other directory loses its trailing
/// separators and gains a `\\`.
pub open spec fn parent_with_separator(dir: Seq<char>) -> Seq<char> {
    let t = trimmed_len(dir);
    if t == dir.len() {
        dir
    } else if t == 0 || (t == 2 && has_drive(dir)) {
        dir.subrange(0, t + 1 as int)
    } else {
        dir.subrange(0, t as int).push('\\')
    }
}

/// The path of the server beside the module at `path`, as Windows'
/// `Path::with_file_name` forms it: the last component (trailing separators
/// left off) gives way to `qingjian-server.exe`, pushed onto the directory
/// (see [`parent_with_separator`]); a path with no component (empty, or only
/// separators) gains the name at its end.
pub open spec fn server_exe_spec(path: Seq<char>) -> Seq<char> {
    if trimmed_len(path) == 0 {
        path + server_exe_name()
    } else {
        parent_with_separator(path.subrange(0, name_start(path) as int)) + server_exe_name()
    }
}

proof fn lemma_trimmed_len_bounded(path: Seq<char>)
    ensures
        trimmed_len(path) <= path.len(),
        trimmed_len(path) == 0 || !is_separator(path[trimmed_len(path) - 1]),
        forall|j: int| trimmed_len(path) <= j < path.len() ==> is_separator(#[trigger] path[j]),
    decreases path.len(),
{
    if path.len() > 0 && is_separator(path.last()) {
        lemma_trimmed_len_bounded(path.drop_last());
        assert forall|j: int| trimmed_len(path) <= j < path.len() implies is_separator(#[trigger] path[j]) by {
            if j < path.len() - 1 {
                assert(path.drop_last()[j] == path[j]);
            }
        }
        if trimmed_len(path) > 0 {
            assert(path.drop_last()[trimmed_len(path) - 1] == path[trimmed_len(path) - 1]);
        }
    }
}

/// The length of `v[..end]` without its trailing separators.
fn trimmed_end(v: &Vec<char>, end: usize) -> (r: usize)
    requires
        end <= v.len(),
    ensures
        r as nat == trimmed_len(v@.subrange(0, end as int)),
        r <= end,
{
    proof {
        lemma_trimmed_len_bounded(v@.subrange(0, end as int));
    }
    let mut k = end;
    while k > 0 && (v[k - 1] == '\\' || v[k - 1] == '/')
        invariant
            k <= end <= v.len(),
            trimmed_len(v@.subrange(0, end as int)) == trimmed_len(v@.subrange(0, k as int)),
        decreases k,
    {
        assert(v@.subrange(0, k as int).drop_last() =~= v@.subrange(0, k - 1));
        assert(v@.subrange(0, k as int).last() == v@[k - 1]);
        k = k - 1;
    }
    proof {
        if k > 0 {
            assert(v@.subrange(0, k as int).last() == v@[k - 1]);
        }
    }
    k
}

/// The server executable beside the module at `module` (see
/// [`server_exe_spec`]).
pub fn server_exe_path(module: &str) -> (r: String)
    ensures
        r@ == server_exe_spec(module@),
{
    let chars = chars_of(module);
    assert(chars@.subrange(0, chars.len() as int) =~= chars@);
    let n = trimmed_end(&chars, chars.len());
    if n == 0 {
        let mut out = string_of(&chars, 0, chars.len());
        append_chars(&mut out, "qingjian-server.exe");
        return out;
    }
    let ghost trimmed = chars@.subrange(0, n as int);
    let mut d: usize = n;
    assert(trimmed.subrange(0, n as int) =~= trimmed);
    while d > 0 && !(chars[d - 1] == '\\' || chars[d - 1] == '/')
        invariant
            d <= n <= chars.len(),
            chars@ == module@,
            trimmed == chars@.subrange(0, n as int),
            directory_len(trimmed) == directory_len(trimmed.subrange(0, d as int)),
        decreases d,
    {
        assert(trimmed.subrange(0, d as int).drop_last() =~= trimmed.subrange(0, d - 1));
        assert(trimmed.subrange(0, d as int).last() == chars@[d - 1]);
        d = d - 1;
    }
    proof {
        if d > 0 {
            assert(trimmed.subrange(0, d as int).last() == chars@[d - 1]);
        }
        assert(directory_len(trimmed) == d);
    }
    let drive = chars.len() >= 2 && chars[1] == ':' && (('a' <= chars[0] && chars[0] <= 'z') || (
    'A' <= chars[0] && chars[0] <= 'Z'));
    let k = if d == 0 && drive && n >= 2 {
        2
    } else {
        d
    };
    assert(k as nat == name_start(module@));
    assert(k <= n);
    let t = trimmed_end(&chars, k);
    proof {
        assert(chars@.subrange(0, k as int).subrange(0, t as int) =~= chars@.subrange(0, t as int));
        lemma_trimmed_len_bounded(chars@.subrange(0, k as int));
    }
    let ghost dir = chars@.subrange(0, k as int);
    let mut out = if t == k {
        string_of(&chars, 0, k)
    } else if t == 0 || (t == 2 && drive) {
        string_of(&chars, 0, t + 1)
    } else {
        let mut o = string_of(&chars, 0, t);
        push_char(&mut o, '\\');
        o
    };
    proof {
        assert(dir.subrange(0, t as int) =~= chars@.subrange(0, t as int));
        if t < k {
            assert(dir.subrange(0, t + 1 as int) =~= chars@.subrange(0, t + 1));
        }
        if t == 2 {
            assert(has_drive(dir) == drive);
        }
        assert(out@ =~= parent_with_separator(dir));
    }
    append_chars(&mut out, "qingjian-server.exe");
    out
}

/// The Chinese / English mode of a text service and what the server told it.
#[derive(Debug, Clone, Copy, PartialEq, Eq, Structural)]
pub struct ModeState {
    /// English mode.
    pub english: bool,
    /// The built-in English mode is allowed.
    pub enabled: bool,
    /// The task-bar icon's character.
    pub glyph: ModeGlyph,
    /// The switch key.
    pub switch_key: SwitchKey,
}

/// What the text service does after the settings changed.
#[derive(Debug, Clone, Copy, PartialEq, Eq, Structural)]
pub struct ModeSettingsEffect {
    /// The mode changed: refresh the indicator (icon, compartment, server).
    pub refresh_indicator: bool,
    /// Only the icon's character changed: ask the system to fetch it again.
    pub notify: bool,
    /// Register (`true`) or remove (`false`) the language-bar button and the
    /// conversion-mode sink.
    pub lang_bar: Option<bool>,
}

/// The state after asking for `english`: switched when English is allowed,
/// unchanged otherwise.
pub open spec fn switched_to(state: ModeState, english: bool) -> ModeState {
    if state.enabled {
        ModeState { english, ..state }
    } else {
        state
    }
}

impl ModeState {
    /// Chinese, English allowed, the full-pinyin glyph, Shift.
    pub fn new() -> (r: ModeState)
        ensures
            r == (ModeState {
                english: false,
                enabled: true,
                glyph: ModeGlyph::Pinyin,
                switch_key: SwitchKey::Shift,
            }),
    {
        ModeState {
            english: false,
            enabled: true,
            glyph: ModeGlyph::default(),
            switch_key: SwitchKey::default(),
        }
    }

    pub fn english(&self) -> (r: bool)
        ensures
            r == self.english,
    {
        self.english
    }

    pub fn set_english(&mut self, english: bool)
        ensures
            *final(self) == (ModeState { english, ..*old(self) }),
    {
        self.english = english;
    }

    pub fn enabled(&self) -> (r: bool)
        ensures
            r == self.enabled,
    {
        self.enabled
    }

    pub fn glyph(&self) -> (r: ModeGlyph)
        ensures
            r == self.glyph,
    {
        self.glyph
    }

    pub fn switch_key(&self) -> (r: SwitchKey)
        ensures
            r == self.switch_key,
    {
        self.switch_key
    }

    /// Takes the settings; returns whether the icon's character changed (only
    /// then must the system fetch the icon again).
    pub fn set_settings(&mut self, enabled: bool, switch_key: SwitchKey, glyph: ModeGlyph) -> (changed: bool)
        ensures
            *final(self) == (ModeState { enabled, switch_key, glyph, ..*old(self) }),
            changed == (old(self).glyph != glyph),
    {
        self.enabled = enabled;
        self.switch_key = switch_key;
        let changed = self.glyph != glyph;
        self.glyph = glyph;
        changed
    }

    /// Switches the mode; nothing happens while the built-in English mode is
    /// off (every entry to English meets this gate). Returns whether it
    /// switched (the caller commits the composition first and refreshes the
    /// indicator).
    pub fn set_english_mode(&mut self, english: bool) -> (switched: bool)
        ensures
            switched == old(self).enabled,
            *final(self) == switched_to(*old(self), english),
    {
        if !self.enabled {
            return false;
        }
        self.english = english;
        true
    }

    /// The language-bar button was clicked: the mode flips.
    pub fn toggle_mode(&mut self) -> (switched: bool)
        ensures
            switched == old(self).enabled,
            switched ==> *final(self) == (ModeState { english: !old(self).english, ..*old(self) }),
            !switched ==> *final(self) == *old(self),
    {
        let english = !self.english;
        self.set_english_mode(english)
    }

    /// The server handed over a mode clicked on the status bar; the same mode
    /// is left alone.
    pub fn on_mode_sync(&mut self, english: bool) -> (switched: bool)
        ensures
            switched == (old(self).english != english && old(self).enabled),
            switched ==> *final(self) == (ModeState { english, ..*old(self) }),
            !switched ==> *final(self) == *old(self),
    {
        if self.english != english {
            self.set_english_mode(english)
        } else {
            false
        }
    }

    /// The conversion mode changed in the task bar; a change inside the guard
    /// window after activation is the system restoring its profile and is
    /// ignored, and a value equal to the current mode is the service's own echo.
    pub fn on_conversion_mode(&mut self, guarded: bool, english: bool) -> (switched: bool)
        ensures
            switched == (!guarded && old(self).english != english && old(self).enabled),
            switched ==> *final(self) == (ModeState { english, ..*old(self) }),
            !switched ==> *final(self) == *old(self),
    {
        if guarded {
            return false;
        }
        self.on_mode_sync(english)
    }

    /// The mode to start a new window in; `None` when the settings have not
    /// arrived or say to keep the last one.
    pub fn start_mode(&mut self, input: Option<InputSettings>) -> (set: bool)
        ensures
            set == (input matches Some(i) && i.default_mode != DefaultMode::Last),
            set ==> *final(self) == (ModeState {
                english: input->0.default_mode == DefaultMode::English,
                ..*old(self)
            }),
            !set ==> *final(self) == *old(self),
    {
        match input {
            Some(settings) => match settings.default_mode.apply() {
                Some(english) => {
                    self.set_english(english);
                    true
                },
                None => false,
            },
            None => false,
        }
    }

    /// Applies the key-handling settings. Turning the built-in English mode off
    /// returns to Chinese at once; a changed icon character is announced; the
    /// language-bar button follows the switch while the service is active.
    pub fn apply_mode_settings(&mut self, input: &InputSettings, active: bool) -> (r: ModeSettingsEffect)
        ensures
            final(self).enabled == input.english_mode,
            final(self).switch_key == input.switch_mode,
            final(self).glyph == input.glyph,
            final(self).english == (old(self).english && input.english_mode),
            r.refresh_indicator == (!input.english_mode && old(self).english),
            r.notify == (!r.refresh_indicator && old(self).glyph != input.glyph),
            r.lang_bar == (if old(self).enabled != input.english_mode && active {
                Some(input.english_mode)
            } else {
                None
            }),
    {
        let was_enabled = self.enabled;
        let glyph_changed = self.set_settings(input.english_mode, input.switch_mode, input.glyph);
        let mut refresh_indicator = false;
        let mut notify = false;
        if !input.english_mode && self.english {
            self.set_english(false);
            refresh_indicator = true;
        } else if glyph_changed {
            notify = true;
        }
        let lang_bar = if was_enabled != input.english_mode && active {
            Some(input.english_mode)
        } else {
            None
        };
        ModeSettingsEffect { refresh_indicator, notify, lang_bar }
    }
}

/// With the built-in English mode off there is no way into English: every
/// switch (key, language-bar button, status-bar sync, task-bar change) leaves
/// the state as it is, so a service in Chinese mode stays there; turning the
/// switch off through the settings also returns to Chinese.
pub proof fn lemma_english_stays_off_when_disabled(state: ModeState, english: bool, input: InputSettings)
    ensures
        !state.enabled ==> switched_to(state, english) == state,
        !input.english_mode ==> !(ModeState { english: state.english && input.english_mode, ..state }).english,
{
}

/// The ink of the mode icon: black on a light task bar, white on a dark one.
pub open spec fn ink(light_taskbar: bool) -> int {
    if light_taskbar {
        0
    } else {
        255
    }
}

/// One premultiplied pixel of the mode icon: the mask's alpha, and each colour
/// channel the ink scaled by that alpha.
pub open spec fn icon_pixel_spec(alpha: u8, light_taskbar: bool) -> int {
    let channel = ink(light_taskbar) * alpha / 255;
    alpha * 0x100_0000 + channel * 0x1_0000 + channel * 0x100 + channel
}

/// The pixel the icon gets for one mask value.
pub fn icon_pixel(alpha: u8, light_taskbar: bool) -> (r: u32)
    ensures
        r == icon_pixel_spec(alpha, light_taskbar),
{
    let ink: u32 = if light_taskbar {
        0x00
    } else {
        0xFF
    };
    let a = alpha as u32;
    let channel = ink * a / 255;
    assert(channel <= 255) by (nonlinear_arith)
        requires
            ink <= 255,
            a <= 255,
            channel == ink * a / 255,
    ;
    let r = (a << 24) | (channel << 16) | (channel << 8) | channel;
    assert(r == a * 0x100_0000 + channel * 0x1_0000 + channel * 0x100 + channel) by (bit_vector)
        requires
            a <= 255,
            channel <= 255,
            r == (a << 24) | (channel << 16) | (channel << 8) | channel,
    ;
    r
}

/// The icon's pixels, one per mask value, in the mask's order.
pub fn icon_pixels(mask: &Vec<u8>, light_taskbar: bool) -> (r: Vec<u32>)
    ensures
        r@.len() == mask@.len(),
        forall|i: int| 0 <= i < mask@.len() ==> r@[i] == icon_pixel_spec(#[trigger] mask@[i], light_taskbar),
{
    let mut out: Vec<u32> = Vec::new();
    let mut i: usize = 0;
    while i < mask.len()
        invariant
            i <= mask@.len(),
            out@.len() == i,
            forall|j: int| 0 <= j < i ==> out@[j] == icon_pixel_spec(#[trigger] mask@[j], light_taskbar),
        decreases mask@.len() - i,
    {
        out.push(icon_pixel(mask[i], light_taskbar));
        i = i + 1;
    }
    out
}

/// The least time between two attempts of one process to start the server,
/// in milliseconds.
pub const LAUNCH_COOLDOWN_MS: u64 = 5000;

/// The in-process gate before starting the server: the last attempt is
/// recorded before the attempt, so a failure cools down too.
#[derive(Debug, Clone, Copy)]
pub struct LaunchGate {
    /// When the last attempt started (milliseconds of a monotonic clock).
    pub last: Option<u64>,
}

impl LaunchGate {
    /// Whether an attempt may start at `now`: none before, or the cooldown is
    /// over. An attempt that may start is recorded.
    pub fn cooldown_passed(&mut self, now: u64) -> (r: bool)
        ensures
            r == (match old(self).last {
                Some(at) => !(now >= at && now - at < LAUNCH_COOLDOWN_MS),
                None => true,
            }),
            r ==> final(self).last == Some(now),
            !r ==> final(self).last == old(self).last,
    {
        if let Some(at) = self.last {
            if now >= at && now - at < LAUNCH_COOLDOWN_MS {
                return false;
            }
        }
        self.last = Some(now);
        true
    }
}

/// The language-bar button's text: the icon's character.
pub fn button_text(glyph: Glyph) -> (r: &'static str)
    ensures
        r@ == match glyph {
            Glyph::Chinese => "中"@,
            Glyph::English => "英"@,
            Glyph::Zhuyin => "注"@,
            Glyph::CapsLock => "A"@,
        },
{
    match glyph {
        Glyph::Chinese => "中",
        Glyph::English => "英",
        Glyph::Zhuyin => "注",
        Glyph::CapsLock => "A",
    }
}

/// The language-bar button's tooltip: how to switch, or that the built-in
/// English mode is off.
pub fn button_tooltip(enabled: bool, switch_key: SwitchKey) -> (r: &'static str)
    ensures
        r@ == (if !enabled {
            "中 / 英（内置英文模式已关闭）"@
        } else {
            match switch_key {
                SwitchKey::Shift => "中 / 英（单击 Shift 切换）"@,
                SwitchKey::Control => "中 / 英（单击 Ctrl 切换）"@,
                SwitchKey::Off => "中 / 英（未设切换键，点这里切换）"@,
            }
        }),
{
    if !enabled {
        "中 / 英（内置英文模式已关闭）"
    } else {
        match switch_key {
            SwitchKey::Shift => "中 / 英（单击 Shift 切换）",
            SwitchKey::Control => "中 / 英（单击 Ctrl 切换）",
            SwitchKey::Off => "中 / 英（未设切换键，点这里切换）",
        }
    }
}

} // verus!
