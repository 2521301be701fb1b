//! The server's session router: which sessions are open, which one holds the
//! composition (the focused one), which one is in the foreground, the mode
//! switch clicked on the status bar and the text clicked in the candidate
//! window, both waiting for the right session to collect them. The engine and
//! the windows stay outside: the router decides, and its results say what the
//! caller has to do.

use vstd::prelude::*;

use crate::config::{Scheme, SessionId};
use crate::status::{StatusView, ThemeMode};
use crate::text::append_chars;

verus! {

/// What the server remembers of one open session, as its text service reported it.
#[derive(Debug, Clone, PartialEq, Eq)]
pub struct SessionInfo {
    /// The host application's executable name (`Code.exe`).
    pub app: Option<String>,
    /// The session's input field is private.
    pub private: bool,
    /// The host process id (0 from an old text service).
    pub pid: u32,
    /// The host thread id (0 from an old text service).
    pub tid: u32,
    /// The session's last reported mode (`true` English); `None` before the
    /// first report or after it switched to another input method.
    pub english: Option<bool>,
    /// The text before the cursor last reported by this session.
    pub surrounding_before: Option<String>,
    /// The text after the cursor last reported by this session.
    pub surrounding_after: Option<String>,
    /// Caps Lock as last reported.
    pub caps: bool,
}

/// One row of the session table.
#[derive(Debug)]
pub struct SessionEntry {
    pub id: SessionId,
    pub info: SessionInfo,
}

/// The router's part of the configuration.
#[derive(Debug, Clone, Copy, PartialEq, Eq)]
pub struct RouterConfig {
    /// The built-in English mode switch.
    pub english_mode: bool,
    /// Full-width punctuation in Chinese mode.
    pub full_width: bool,
    /// Full-width punctuation in English mode.
    pub english_full_width: bool,
    /// The floating status bar is on.
    pub status_enabled: bool,
    pub zhuyin: bool,
    pub scheme: Scheme,
    pub wubi: bool,
    /// Candidates per page.
    pub page_size: usize,
    /// Where the status bar was dragged to.
    pub status_pos: Option<(i32, i32)>,
    pub theme: ThemeMode,
}

/// The first entry of `id` in the table.
pub open spec fn lookup(entries: Seq<SessionEntry>, id: SessionId) -> Option<SessionInfo>
    decreases entries.len(),
{
    if entries.len() == 0 {
        None
    } else if entries[0].id == id {
        Some(entries[0].info)
    } else {
        lookup(entries.drop_first(), id)
    }
}

/// No session id occurs twice.
pub open spec fn ids_unique(entries: Seq<SessionEntry>) -> bool {
    forall|i: int, j: int| 0 <= i < j < entries.len() ==> entries[i].id != entries[j].id
}

proof fn lemma_lookup_at(s: Seq<SessionEntry>, i: int)
    requires
        0 <= i < s.len(),
        ids_unique(s),
    ensures
        lookup(s, s[i].id) == Some(s[i].info),
    decreases s.len(),
{
    if i > 0 {
        assert(ids_unique(s.drop_first()));
        assert(s.drop_first()[i - 1] == s[i]);
        lemma_lookup_at(s.drop_first(), i - 1);
    }
}

proof fn lemma_lookup_absent(s: Seq<SessionEntry>, id: SessionId)
    requires
        forall|j: int| 0 <= j < s.len() ==> s[j].id != id,
    ensures
        lookup(s, id) is None,
    decreases s.len(),
{
    if s.len() > 0 {
        assert forall|j: int| 0 <= j < s.drop_first().len() implies s.drop_first()[j].id != id by {
            assert(s.drop_first()[j] == s[j + 1]);
        }
        lemma_lookup_absent(s.drop_first(), id);
    }
}

proof fn lemma_lookup_update(s: Seq<SessionEntry>, i: int, e: SessionEntry, x: SessionId)
    requires
        0 <= i < s.len(),
        s[i].id == e.id,
        ids_unique(s),
    ensures
        lookup(s.update(i, e), x) == (if x == e.id {
            Some(e.info)
        } else {
            lookup(s, x)
        }),
    decreases s.len(),
{
    let t = s.update(i, e);
    if i == 0 {
        assert(t.drop_first() =~= s.drop_first());
    } else {
        assert(t.drop_first() =~= s.drop_first().update(i - 1, e));
        assert(ids_unique(s.drop_first()));
        assert(s.drop_first()[i - 1] == s[i]);
        lemma_lookup_update(s.drop_first(), i - 1, e, x);
        assert(s[0].id != s[i].id);
    }
}

proof fn lemma_lookup_push(s: Seq<SessionEntry>, e: SessionEntry, x: SessionId)
    requires
        forall|j: int| 0 <= j < s.len() ==> s[j].id != e.id,
    ensures
        lookup(s.push(e), x) == (if x == e.id {
            Some(e.info)
        } else {
            lookup(s, x)
        }),
    decreases s.len(),
{
    let t = s.push(e);
    if s.len() == 0 {
        assert(t.drop_first() =~= Seq::<SessionEntry>::empty());
        assert(lookup(t.drop_first(), x) is None);
        assert(lookup(s, x) is None);
    } else {
        assert(t.drop_first() =~= s.drop_first().push(e));
        assert(t[0] == s[0]);
        assert forall|j: int| 0 <= j < s.drop_first().len() implies s.drop_first()[j].id != e.id by {
            assert(s.drop_first()[j] == s[j + 1]);
        }
        lemma_lookup_push(s.drop_first(), e, x);
    }
}

proof fn lemma_lookup_remove(s: Seq<SessionEntry>, i: int, x: SessionId)
    requires
        0 <= i < s.len(),
        ids_unique(s),
    ensures
        lookup(s.remove(i), x) == (if x == s[i].id {
            None
        } else {
            lookup(s, x)
        }),
    decreases s.len(),
{
    let t = s.remove(i);
    if i == 0 {
        assert(t =~= s.drop_first());
        if x == s[0].id {
            assert forall|j: int| 0 <= j < t.len() implies t[j].id != x by {
                assert(t[j] == s[j + 1]);
            }
            lemma_lookup_absent(t, x);
        }
    } else {
        assert(t.drop_first() =~= s.drop_first().remove(i - 1));
        assert(ids_unique(s.drop_first()));
        assert(s.drop_first()[i - 1] == s[i]);
        lemma_lookup_remove(s.drop_first(), i - 1, x);
        assert(t[0] == s[0]);
        assert(s[0].id != s[i].id);
    }
}

/// The router's state, as contracts see it.
#[verifier::ext_equal]
pub struct RouterModel {
    /// The session table, in the order the sessions opened.
    pub sessions: Seq<SessionEntry>,
    /// The session that holds the composition.
    pub focused: Option<SessionId>,
    /// The session of the foreground window; the status bar follows it.
    pub foreground: Option<SessionId>,
    /// The mode clicked on the status bar, waiting for the foreground session.
    pub pending_mode: Option<bool>,
    /// Text clicked in the candidate window, waiting for the focused session.
    pub pending_commit: Option<Seq<char>>,
    /// The highlighted candidate (a global index).
    pub highlight: nat,
    /// The sentence completion on show.
    pub sentence: Option<Seq<char>>,
    /// The engine works in private mode (no learning, no cloud).
    pub private: bool,
    /// Cloud prediction is on.
    pub cloud: bool,
    pub config: RouterConfig,
    /// What the status bar shows; `None` when it is hidden.
    pub status: Option<StatusView>,
}

/// The session router.
pub struct Router {
    sessions: Vec<SessionEntry>,
    focused: Option<SessionId>,
    foreground: Option<SessionId>,
    pending_mode: Option<bool>,
    pending_commit: Option<String>,
    highlight: usize,
    sentence: Option<String>,
    private: bool,
    cloud: bool,
    config: RouterConfig,
    status: Option<StatusView>,
}

pub open spec fn opt_chars(o: Option<String>) -> Option<Seq<char>> {
    match o {
        Some(s) => Some(s@),
        None => None,
    }
}

impl View for Router {
    type V = RouterModel;

    closed spec fn view(&self) -> RouterModel {
        RouterModel {
            sessions: self.sessions@,
            focused: self.focused,
            foreground: self.foreground,
            pending_mode: self.pending_mode,
            pending_commit: opt_chars(self.pending_commit),
            highlight: self.highlight as nat,
            sentence: opt_chars(self.sentence),
            private: self.private,
            cloud: self.cloud,
            config: self.config,
            status: self.status,
        }
    }
}

impl RouterModel {
    /// What the table holds for `id`.
    pub open spec fn info(self, id: SessionId) -> Option<SessionInfo> {
        lookup(self.sessions, id)
    }

    /// The mode `id` last reported.
    pub open spec fn mode_of(self, id: SessionId) -> Option<bool> {
        match self.info(id) {
            Some(info) => info.english,
            None => None,
        }
    }

    /// The mode of the foreground session: what the status bar shows.
    pub open spec fn status_mode(self) -> Option<bool> {
        match self.foreground {
            Some(id) => self.mode_of(id),
            None => None,
        }
    }

    /// Caps Lock of the foreground session.
    pub open spec fn foreground_caps(self) -> bool {
        match self.foreground {
            Some(id) => match self.info(id) {
                Some(info) => info.caps,
                None => false,
            },
            None => false,
        }
    }

    /// Whether punctuation turns full width in the given mode.
    pub open spec fn full_width_for(self, english: bool) -> bool {
        if english {
            self.config.english_full_width
        } else {
            self.config.full_width
        }
    }

    /// The status bar shows the foreground session's mode while it is enabled
    /// and that session has reported one; otherwise it is hidden.
    pub open spec fn expected_status(self) -> Option<StatusView> {
        match self.status_mode() {
            Some(english) => if self.config.status_enabled {
                Some(
                    StatusView {
                        english,
                        zhuyin: self.config.zhuyin,
                        caps: self.foreground_caps(),
                        full_width: self.full_width_for(english),
                        cloud: self.cloud,
                        theme: self.config.theme,
                        anchor: self.config.status_pos,
                        scheme: self.config.scheme,
                        wubi: self.config.wubi,
                    },
                )
            } else {
                None
            },
            None => None,
        }
    }

    /// The engine's privacy is the flag last reported by the focused session
    /// (public when no session, or an unknown one, is focused).
    pub open spec fn private_follows_focus(self) -> bool {
        self.private == match self.focused {
            Some(f) => match self.info(f) {
                Some(info) => info.private,
                None => false,
            },
            None => false,
        }
    }

    /// The host of `id` is known: it is open and reported its process.
    pub open spec fn has_host(self, id: SessionId) -> bool {
        match self.info(id) {
            Some(info) => info.pid != 0,
            None => false,
        }
    }

    /// The same state with the status bar showing what it asks for.
    pub open spec fn settled(self) -> RouterModel {
        RouterModel { status: self.expected_status(), ..self }
    }

    /// The foreground moved to `to`: a mode click not yet collected is
    /// dropped, and the status bar follows. Nothing changes when it stays.
    pub open spec fn switched(self, to: Option<SessionId>) -> RouterModel {
        if self.foreground == to {
            self
        } else {
            RouterModel { foreground: to, pending_mode: None, ..self }.settled()
        }
    }

    /// `session` collects the mode clicked on the status bar: only the
    /// foreground session gets it, and collecting clears it.
    pub open spec fn take_mode(self, session: SessionId) -> (Option<bool>, RouterModel) {
        if self.foreground == Some(session) {
            (self.pending_mode, RouterModel { pending_mode: None, ..self })
        } else {
            (None, self)
        }
    }

    /// `text` joins the queue of clicked text, after what is already there.
    pub open spec fn queue(self, text: Seq<char>) -> RouterModel {
        RouterModel {
            pending_commit: Some(
                match self.pending_commit {
                    Some(previous) => previous + text,
                    None => text,
                },
            ),
            ..self
        }
    }

    /// `session` collects the queued text: only the focused session gets it,
    /// and collecting clears it.
    pub open spec fn take_commit(self, session: SessionId) -> (Option<Seq<char>>, RouterModel) {
        if self.focused == Some(session) {
            (self.pending_commit, RouterModel { pending_commit: None, ..self })
        } else {
            (None, self)
        }
    }

    /// The composition state is clear: nothing waits to be committed, no
    /// sentence on show, the highlight on the first candidate.
    pub open spec fn composition_clear(self) -> bool {
        self.pending_commit is None && self.sentence is None && self.highlight == 0
    }
}

impl Router {
    /// No session occurs twice, and the status bar shows
    /// what [`RouterModel::expected_status`] says.
    pub open spec fn wf(&self) -> bool {
        &&& ids_unique(self@.sessions)
        &&& self@.status == self@.expected_status()
    }

    /// A router with no session.
    pub fn new(config: RouterConfig, cloud: bool) -> (r: Router)
        ensures
            r.wf(),
            r@.sessions.len() == 0,
            r@.focused is None,
            r@.foreground is None,
            r@.pending_mode is None,
            r@.composition_clear(),
            !r@.private,
            r@.private_follows_focus(),
            r@.cloud == cloud,
            r@.config == config,
            r@.status is None,
    {
        Router {
            sessions: Vec::new(),
            focused: None,
            foreground: None,
            pending_mode: None,
            pending_commit: None,
            highlight: 0,
            sentence: None,
            private: false,
            cloud,
            config,
            status: None,
        }
    }

    /// The number of open sessions.
    pub fn session_count(&self) -> (r: usize)
        ensures
            r == self@.sessions.len(),
    {
        self.sessions.len()
    }

    /// The focused session works in a private field (the engine learns nothing).
    pub fn is_private(&self) -> (r: bool)
        ensures
            r == self@.private,
    {
        self.private
    }

    /// The current configuration.
    pub fn config(&self) -> (r: RouterConfig)
        ensures
            r == self@.config,
    {
        self.config
    }

    /// What the status bar shows; `None` when hidden.
    pub fn status(&self) -> (r: Option<StatusView>)
        ensures
            r == self@.status,
    {
        self.status
    }

    /// The focused session.
    pub fn focused(&self) -> (r: Option<SessionId>)
        ensures
            r == self@.focused,
    {
        self.focused
    }

    /// The foreground session.
    pub fn foreground(&self) -> (r: Option<SessionId>)
        ensures
            r == self@.foreground,
    {
        self.foreground
    }

    /// The position of `id` in the table.
    fn find(&self, id: SessionId) -> (r: Option<usize>)
        requires
            ids_unique(self.sessions@),
        ensures
            match r {
                Some(i) => i < self.sessions@.len() && self.sessions@[i as int].id == id && lookup(
                    self.sessions@,
                    id,
                ) == Some(self.sessions@[i as int].info),
                None => lookup(self.sessions@, id) is None && forall|j: int|
                    0 <= j < self.sessions@.len() ==> self.sessions@[j].id != id,
            },
    {
        let mut k: usize = 0;
        while k < self.sessions.len()
            invariant
                k <= self.sessions@.len(),
                ids_unique(self.sessions@),
                forall|j: int| 0 <= j < k ==> self.sessions@[j].id != id,
            decreases self.sessions@.len() - k,
        {
            if self.sessions[k].id == id {
                proof {
                    lemma_lookup_at(self.sessions@, k as int);
                }
                return Some(k);
            }
            k = k + 1;
        }
        proof {
            lemma_lookup_absent(self.sessions@, id);
        }
        None
    }

    /// Shows or hides the status bar as the state asks.
    fn reconcile_status(&mut self)
        ensures
            final(self)@ == (RouterModel { status: old(self)@.expected_status(), ..old(self)@ }),
    {
        let mode = match self.foreground {
            Some(id) => match self.find_info(id) {
                Some(i) => self.sessions[i].info.english,
                None => None,
            },
            None => None,
        };
        self.status = match mode {
            Some(english) => if self.config.status_enabled {
                let caps = match self.foreground {
                    Some(id) => match self.find_info(id) {
                        Some(i) => self.sessions[i].info.caps,
                        None => false,
                    },
                    None => false,
                };
                Some(
                    StatusView {
                        english,
                        zhuyin: self.config.zhuyin,
                        caps,
                        full_width: self.full_width_for(english),
                        cloud: self.cloud,
                        theme: self.config.theme,
                        anchor: self.config.status_pos,
                        scheme: self.config.scheme,
                        wubi: self.config.wubi,
                    },
                )
            } else {
                None
            },
            None => None,
        };
        assert(self@ =~= (RouterModel { status: old(self)@.expected_status(), ..old(self)@ }));
    }

    /// The position of the first entry of `id` (no uniqueness needed).
    fn find_info(&self, id: SessionId) -> (r: Option<usize>)
        ensures
            match r {
                Some(i) => i < self.sessions@.len() && lookup(self.sessions@, id) == Some(
                    self.sessions@[i as int].info,
                ),
                None => lookup(self.sessions@, id) is None,
            },
    {
        let mut k: usize = 0;
        assert(self.sessions@.subrange(0, self.sessions@.len() as int) =~= self.sessions@);
        while k < self.sessions.len()
            invariant
                k <= self.sessions@.len(),
                lookup(self.sessions@, id) == lookup(
                    self.sessions@.subrange(k as int, self.sessions@.len() as int),
                    id,
                ),
            decreases self.sessions@.len() - k,
        {
            let ghost rest = self.sessions@.subrange(k as int, self.sessions@.len() as int);
            assert(rest.drop_first() =~= self.sessions@.subrange(
                k + 1,
                self.sessions@.len() as int,
            ));
            assert(rest[0] == self.sessions@[k as int]);
            if self.sessions[k].id == id {
                return Some(k);
            }
            k = k + 1;
        }
        None
    }

    /// Whether punctuation turns full width in the given mode (one setting per mode).
    pub fn full_width_for(&self, english: bool) -> (r: bool)
        ensures
            r == self@.full_width_for(english),
    {
        if english {
            self.config.english_full_width
        } else {
            self.config.full_width
        }
    }
}

/// The first session whose host is `hint = (thread id, process id)`: by both
/// ids, or by the process alone. A session that reported no process (0)
/// belongs to no window.
pub open spec fn owner(entries: Seq<SessionEntry>, hint: (u32, u32), by_thread: bool) -> Option<
    SessionId,
>
    decreases entries.len(),
{
    if entries.len() == 0 {
        None
    } else if entries[0].info.pid != 0 && entries[0].info.pid == hint.1 && (!by_thread
        || entries[0].info.tid == hint.0) {
        Some(entries[0].id)
    } else {
        owner(entries.drop_first(), hint, by_thread)
    }
}

/// The owner of the first hint that has one.
pub open spec fn first_owner(entries: Seq<SessionEntry>, hints: Seq<(u32, u32)>, by_thread: bool) -> Option<
    SessionId,
>
    decreases hints.len(),
{
    if hints.len() == 0 {
        None
    } else {
        match owner(entries, hints[0], by_thread) {
            Some(id) => Some(id),
            None => first_owner(entries, hints.drop_first(), by_thread),
        }
    }
}

/// The session of the foreground window: the hints go from the most trusted
/// (the window itself, its root, its descendants); a hint counts by thread and
/// process first, and only when none does, by the process alone.
pub open spec fn foreground_owner(entries: Seq<SessionEntry>, hints: Seq<(u32, u32)>) -> Option<
    SessionId,
> {
    match first_owner(entries, hints, true) {
        Some(id) => Some(id),
        None => first_owner(entries, hints, false),
    }
}

/// Entry `i` is a known host matching the hint: by its process, and when
/// `by_thread` also by its thread.
pub open spec fn entry_matches(entries: Seq<SessionEntry>, i: int, hint: (u32, u32), by_thread: bool) -> bool {
    &&& 0 <= i < entries.len()
    &&& entries[i].info.pid != 0
    &&& entries[i].info.pid == hint.1
    &&& (by_thread ==> entries[i].info.tid == hint.0)
}

/// No known session matches the hint.
pub open spec fn unmatched(entries: Seq<SessionEntry>, hint: (u32, u32), by_thread: bool) -> bool {
    forall|i: int| !#[trigger] entry_matches(entries, i, hint, by_thread)
}

proof fn lemma_owner(entries: Seq<SessionEntry>, hint: (u32, u32), by_thread: bool)
    ensures
        owner(entries, hint, by_thread) matches Some(id) ==> exists|i: int|
            entry_matches(entries, i, hint, by_thread) && #[trigger] entries[i].id == id,
        (exists|i: int| #[trigger] entry_matches(entries, i, hint, by_thread)) ==> owner(
            entries,
            hint,
            by_thread,
        ) is Some,
    decreases entries.len(),
{
    if entries.len() > 0 {
        let rest = entries.drop_first();
        lemma_owner(rest, hint, by_thread);
        if let Some(id) = owner(rest, hint, by_thread) {
            if !entry_matches(entries, 0, hint, by_thread) {
                let i = choose|i: int| entry_matches(rest, i, hint, by_thread) && #[trigger] rest[i].id == id;
                assert(entry_matches(entries, i + 1, hint, by_thread) && entries[i + 1].id == id);
            }
        }
        if exists|i: int| #[trigger] entry_matches(entries, i, hint, by_thread) {
            let i = choose|i: int| #[trigger] entry_matches(entries, i, hint, by_thread);
            if i > 0 {
                assert(entry_matches(rest, i - 1, hint, by_thread));
            }
        }
    }
}

proof fn lemma_first_owner(entries: Seq<SessionEntry>, hints: Seq<(u32, u32)>, by_thread: bool)
    ensures
        first_owner(entries, hints, by_thread) matches Some(id) ==> exists|i: int, j: int|
            0 <= j < hints.len() && #[trigger] entry_matches(entries, i, hints[j], by_thread) && entries[i].id
                == id && forall|k: int| 0 <= k < j ==> unmatched(entries, #[trigger] hints[k], by_thread),
        (exists|i: int, j: int| 0 <= j < hints.len() && #[trigger] entry_matches(entries, i, hints[j], by_thread))
            ==> first_owner(entries, hints, by_thread) is Some,
    decreases hints.len(),
{
    if hints.len() > 0 {
        let rest = hints.drop_first();
        lemma_owner(entries, hints[0], by_thread);
        lemma_first_owner(entries, rest, by_thread);
        match owner(entries, hints[0], by_thread) {
            Some(id) => {
                let i = choose|i: int| entry_matches(entries, i, hints[0], by_thread) && #[trigger] entries[i].id
                    == id;
                assert(entry_matches(entries, i, hints[0], by_thread) && entries[i].id == id);
                assert(forall|k: int| 0 <= k < 0 ==> unmatched(entries, #[trigger] hints[k], by_thread));
            },
            None => {
                assert(unmatched(entries, hints[0], by_thread));
                if let Some(id) = first_owner(entries, rest, by_thread) {
                    let (i, j) = choose|i: int, j: int|
                        0 <= j < rest.len() && #[trigger] entry_matches(entries, i, rest[j], by_thread) && entries[i].id
                            == id && forall|k: int| 0 <= k < j ==> unmatched(entries, #[trigger] rest[k], by_thread);
                    assert(hints[j + 1] == rest[j]);
                    assert(entry_matches(entries, i, hints[j + 1], by_thread) && entries[i].id == id);
                    assert forall|k: int| 0 <= k < j + 1 implies unmatched(entries, #[trigger] hints[k], by_thread) by {
                        if k > 0 {
                            assert(hints[k] == rest[k - 1]);
                        }
                    }
                }
                if exists|i: int, j: int| 0 <= j < hints.len() && #[trigger] entry_matches(entries, i, hints[j], by_thread) {
                    let (i, j) = choose|i: int, j: int| 0 <= j < hints.len() && #[trigger] entry_matches(entries, i, hints[j], by_thread);
                    if j == 0 {
                        assert(false);
                    } else {
                        assert(rest[j - 1] == hints[j]);
                        assert(entry_matches(entries, i, rest[j - 1], by_thread));
                    }
                }
            },
        }
    }
}

/// The foreground session is found by thread and process together whenever
/// any hint matches a known session by both: the session found then sits on
/// the very thread and process of the first such hint (a window on another
/// thread of the same process does not count). Only when no hint matches by both does one
/// match by the process alone; and a session is found exactly when some known
/// session's process is among the hints.
pub proof fn lemma_foreground_needs_both_ids(entries: Seq<SessionEntry>, hints: Seq<(u32, u32)>)
    ensures
        (exists|i: int, j: int| 0 <= j < hints.len() && #[trigger] entry_matches(entries, i, hints[j], true))
            ==> (foreground_owner(entries, hints) matches Some(id) && exists|i: int, j: int|
            0 <= j < hints.len() && #[trigger] entry_matches(entries, i, hints[j], true) && entries[i].id
                == id && forall|k: int| 0 <= k < j ==> unmatched(entries, #[trigger] hints[k], true)),
        foreground_owner(entries, hints) matches Some(id) ==> exists|i: int, j: int|
            0 <= j < hints.len() && #[trigger] entry_matches(entries, i, hints[j], false) && entries[i].id
                == id,
        foreground_owner(entries, hints) is Some <==> exists|i: int, j: int|
            0 <= j < hints.len() && #[trigger] entry_matches(entries, i, hints[j], false),
{
    lemma_first_owner(entries, hints, true);
    lemma_first_owner(entries, hints, false);
    if let Some(id) = first_owner(entries, hints, true) {
        let (i, j) = choose|i: int, j: int|
            0 <= j < hints.len() && #[trigger] entry_matches(entries, i, hints[j], true) && entries[i].id == id;
        assert(entry_matches(entries, i, hints[j], false));
    }
    if exists|i: int, j: int| 0 <= j < hints.len() && #[trigger] entry_matches(entries, i, hints[j], true) {
        let (i, j) = choose|i: int, j: int| 0 <= j < hints.len() && #[trigger] entry_matches(entries, i, hints[j], true);
        assert(entry_matches(entries, i, hints[j], false));
    }
}

/// A fresh table entry for a session that (re)opened.
pub open spec fn opened_info(app: Option<Seq<char>>, pid: u32, tid: u32, info: SessionInfo) -> bool {
    &&& opt_chars(info.app) == app
    &&& !info.private
    &&& info.pid == pid
    &&& info.tid == tid
    &&& info.english is None
    &&& info.surrounding_before is None
    &&& info.surrounding_after is None
    &&& !info.caps
}

impl Router {
    proof fn lemma_remove_insert(s: Seq<SessionEntry>, i: int, e: SessionEntry)
        requires
            0 <= i < s.len(),
        ensures
            s.remove(i).insert(i, e) == s.update(i, e),
    {
        assert(s.remove(i).insert(i, e) =~= s.update(i, e));
    }

    /// Records a session's mode (and Caps Lock when given); nothing for an
    /// unknown session.
    fn set_mode(&mut self, session: SessionId, english: Option<bool>, caps: Option<bool>)
        requires
            ids_unique(old(self).sessions@),
        ensures
            ids_unique(final(self).sessions@),
            final(self)@.sessions.len() == old(self)@.sessions.len(),
            forall|x: SessionId| #[trigger] final(self)@.info(x) == (if x == session {
                match old(self)@.info(x) {
                    Some(info) => Some(
                        SessionInfo {
                            english,
                            caps: match caps {
                                Some(c) => c,
                                None => info.caps,
                            },
                            ..info
                        },
                    ),
                    None => None,
                }
            } else {
                old(self)@.info(x)
            }),
            forall|j: int|
                0 <= j < final(self)@.sessions.len() ==> (#[trigger] final(self)@.sessions[j]).id
                    == old(self)@.sessions[j].id && final(self)@.sessions[j].info.pid == old(self)@.sessions[j].info.pid && final(self)@.sessions[j].info.tid == old(self)@.sessions[j].info.tid,
            final(self)@ == (RouterModel { sessions: final(self)@.sessions, ..old(self)@ }),
    {
        match self.find(session) {
            Some(i) => {
                let ghost s0 = self.sessions@;
                let mut e = self.sessions.remove(i);
                e.info.english = english;
                if let Some(c) = caps {
                    e.info.caps = c;
                }
                self.sessions.insert(i, e);
                proof {
                    Self::lemma_remove_insert(s0, i as int, e);
                    assert(self.sessions@ == s0.update(i as int, e));
                    assert forall|x: SessionId| #[trigger] lookup(self.sessions@, x) == (if x == session {
                        match lookup(s0, x) {
                            Some(info) => Some(
                                SessionInfo {
                                    english,
                                    caps: match caps {
                                        Some(c) => c,
                                        None => info.caps,
                                    },
                                    ..info
                                },
                            ),
                            None => None,
                        }
                    } else {
                        lookup(s0, x)
                    }) by {
                        lemma_lookup_update(s0, i as int, e, x);
                    }
                    assert(ids_unique(self.sessions@));
                }
            },
            None => {},
        }
        assert(self@ =~= (RouterModel { sessions: self@.sessions, ..old(self)@ }));
    }

    /// The session's mode: recorded under it, shown only when it is the
    /// foreground session. With no foreground known yet, a session whose host
    /// is known becomes the foreground (so the bar shows before the first key).
    pub fn handle_mode_changed(&mut self, session: SessionId, english: bool, caps: bool)
        requires
            old(self).wf(),
        ensures
            final(self).wf(),
            final(self)@.info(session) == match old(self)@.info(session) {
                Some(i) => Some(SessionInfo { english: Some(english), caps, ..i }),
                None => None,
            },
            final(self)@.mode_of(session) == (if old(self)@.info(session) is Some {
                Some(english)
            } else {
                None
            }),
            forall|x: SessionId| x != session ==> #[trigger] final(self)@.info(x) == old(self)@.info(x),
            old(self)@.private_follows_focus() ==> final(self)@.private_follows_focus(),
            final(self)@.foreground == (if old(self)@.foreground is None && old(self)@.has_host(
                session,
            ) {
                Some(session)
            } else {
                old(self)@.foreground
            }),
            final(self)@.pending_mode == old(self)@.pending_mode,
            final(self)@.sessions.len() == old(self)@.sessions.len(),
            final(self)@ == (RouterModel {
                sessions: final(self)@.sessions,
                foreground: final(self)@.foreground,
                status: final(self)@.status,
                ..old(self)@
            }),
    {
        let ghost old_model = self@;
        let host = match self.find(session) {
            Some(i) => self.sessions[i].info.pid != 0,
            None => false,
        };
        self.set_mode(session, Some(english), Some(caps));
        let ghost mid = self@;
        assert forall|x: SessionId| x != session implies #[trigger] mid.info(x) == old_model.info(x) by {
            assert(mid.info(x) == old_model.info(x));
        }
        match self.foreground {
            Some(foreground) => {
                if foreground != session {
                    proof {
                        assert(self@.info(foreground) == old_model.info(foreground));
                        assert(self@.expected_status() == old_model.expected_status());
                    }
                    assert forall|x: SessionId| x != session implies #[trigger] self@.info(x)
                        == old_model.info(x) by {
                        assert(mid.info(x) == old_model.info(x));
                    }
                    assert(self@.info(session) == mid.info(session));
                    proof {
                        if let Some(f) = old_model.focused {
                            assert(self@.info(f) == mid.info(f));
                        }
                    }
                    return;
                }
            },
            None => {
                if host {
                    self.foreground = Some(session);
                }
            },
        }
        self.reconcile_status();
        assert(self@.sessions == mid.sessions);
        assert forall|x: SessionId| x != session implies #[trigger] self@.info(x) == old_model.info(x) by {
            assert(mid.info(x) == old_model.info(x));
        }
        assert(self@.info(session) == mid.info(session));
        proof {
            if let Some(f) = old_model.focused {
                assert(self@.info(f) == mid.info(f));
            }
        }
    }

    /// The session switched to another input method: its mode is void, and if
    /// it was in the foreground the status bar has nothing to show.
    pub fn handle_ime_switched(&mut self, session: SessionId)
        requires
            old(self).wf(),
        ensures
            final(self).wf(),
            final(self)@.info(session) == match old(self)@.info(session) {
                Some(i) => Some(SessionInfo { english: None, ..i }),
                None => None,
            },
            final(self)@.mode_of(session) is None,
            forall|x: SessionId| x != session ==> #[trigger] final(self)@.info(x) == old(self)@.info(x),
            old(self)@.private_follows_focus() ==> final(self)@.private_follows_focus(),
            old(self)@.foreground == Some(session) ==> final(self)@.foreground is None
                && final(self)@.pending_mode is None,
            old(self)@.foreground != Some(session) ==> final(self)@.foreground == old(self)@.foreground && final(self)@.pending_mode == old(self)@.pending_mode,
            final(self)@ == (RouterModel {
                sessions: final(self)@.sessions,
                foreground: final(self)@.foreground,
                pending_mode: final(self)@.pending_mode,
                status: final(self)@.status,
                ..old(self)@
            }),
    {
        let ghost old_model = self@;
        self.set_mode(session, None, None);
        let ghost mid = self@;
        assert forall|x: SessionId| x != session implies #[trigger] mid.info(x) == old_model.info(x) by {
            assert(mid.info(x) == old_model.info(x));
        }
        self.reconcile_status();
        self.drop_foreground(session);
        assert(self@.sessions == mid.sessions);
        assert forall|x: SessionId| x != session implies #[trigger] self@.info(x) == old_model.info(x) by {
            assert(mid.info(x) == old_model.info(x));
        }
        assert(self@.info(session) == mid.info(session));
        proof {
            if let Some(f) = old_model.focused {
                assert(self@.info(f) == mid.info(f));
            }
        }
    }

    /// The only way the foreground changes: the status bar follows it, and a
    /// mode click the previous application did not collect is dropped.
    fn switch_foreground(&mut self, session: Option<SessionId>)
        requires
            old(self).wf(),
        ensures
            final(self).wf(),
            final(self)@ == old(self)@.switched(session),
    {
        if self.foreground == session {
            return;
        }
        self.foreground = session;
        self.pending_mode = None;
        self.reconcile_status();
    }

    /// A key arrived from `session`: it is in the foreground.
    pub fn set_foreground(&mut self, session: SessionId)
        requires
            old(self).wf(),
        ensures
            old(self)@.private_follows_focus() ==> final(self)@.private_follows_focus(),
            final(self).wf(),
            final(self)@ == old(self)@.switched(Some(session)),
    {
        self.switch_foreground(Some(session));
    }

    /// The session went away: if it was in the foreground, nothing is.
    pub fn drop_foreground(&mut self, session: SessionId)
        requires
            old(self).wf(),
        ensures
            old(self)@.private_follows_focus() ==> final(self)@.private_follows_focus(),
            final(self).wf(),
            final(self)@ == (if old(self)@.foreground == Some(session) {
                old(self)@.switched(None)
            } else {
                old(self)@
            }),
    {
        if self.foreground == Some(session) {
            self.switch_foreground(None);
        }
    }

    /// The first session, in table order, that owns `hint`.
    fn owner_of(&self, hint: (u32, u32), by_thread: bool) -> (r: Option<SessionId>)
        ensures
            r == owner(self.sessions@, hint, by_thread),
    {
        let mut k: usize = 0;
        assert(self.sessions@.subrange(0, self.sessions@.len() as int) =~= self.sessions@);
        while k < self.sessions.len()
            invariant
                k <= self.sessions@.len(),
                owner(self.sessions@, hint, by_thread) == owner(
                    self.sessions@.subrange(k as int, self.sessions@.len() as int),
                    hint,
                    by_thread,
                ),
            decreases self.sessions@.len() - k,
        {
            let ghost rest = self.sessions@.subrange(k as int, self.sessions@.len() as int);
            assert(rest.drop_first() =~= self.sessions@.subrange(
                k + 1,
                self.sessions@.len() as int,
            ));
            assert(rest[0] == self.sessions@[k as int]);
            let info = &self.sessions[k].info;
            if info.pid != 0 && info.pid == hint.1 && (!by_thread || info.tid == hint.0) {
                return Some(self.sessions[k].id);
            }
            k = k + 1;
        }
        None
    }

    fn first_owner_of(&self, hints: &Vec<(u32, u32)>, by_thread: bool) -> (r: Option<SessionId>)
        ensures
            r == first_owner(self.sessions@, hints@, by_thread),
    {
        let mut k: usize = 0;
        assert(hints@.subrange(0, hints@.len() as int) =~= hints@);
        while k < hints.len()
            invariant
                k <= hints@.len(),
                first_owner(self.sessions@, hints@, by_thread) == first_owner(
                    self.sessions@,
                    hints@.subrange(k as int, hints@.len() as int),
                    by_thread,
                ),
            decreases hints@.len() - k,
        {
            let ghost rest = hints@.subrange(k as int, hints@.len() as int);
            assert(rest.drop_first() =~= hints@.subrange(k + 1, hints@.len() as int));
            assert(rest[0] == hints@[k as int]);
            let found = self.owner_of(hints[k], by_thread);
            if found.is_some() {
                return found;
            }
            k = k + 1;
        }
        None
    }

    /// Which session the foreground window belongs to (see [`foreground_owner`]).
    pub fn match_foreground(&self, hints: &Vec<(u32, u32)>) -> (r: Option<SessionId>)
        ensures
            r == foreground_owner(self@.sessions, hints@),
    {
        match self.first_owner_of(hints, true) {
            Some(id) => Some(id),
            None => self.first_owner_of(hints, false),
        }
    }

    /// The foreground window changed: the status bar follows the session it
    /// belongs to, and hides when it belongs to none.
    pub fn handle_foreground(&mut self, hints: Vec<(u32, u32)>)
        requires
            old(self).wf(),
        ensures
            old(self)@.private_follows_focus() ==> final(self)@.private_follows_focus(),
            final(self).wf(),
            final(self)@ == old(self)@.switched(foreground_owner(old(self)@.sessions, hints@)),
    {
        let matched = self.match_foreground(&hints);
        self.switch_foreground(matched);
    }

    /// The mode the status bar shows.
    pub fn status_mode(&self) -> (r: Option<bool>)
        requires
            ids_unique(self@.sessions),
        ensures
            r == self@.status_mode(),
    {
        match self.foreground {
            Some(id) => match self.find(id) {
                Some(i) => self.sessions[i].info.english,
                None => None,
            },
            None => None,
        }
    }

    /// A text service collects the mode clicked on the status bar; only the
    /// foreground session gets it, and collecting clears it.
    pub fn take_pending_mode(&mut self, session: SessionId) -> (r: Option<bool>)
        requires
            old(self).wf(),
        ensures
            old(self)@.private_follows_focus() ==> final(self)@.private_follows_focus(),
            final(self).wf(),
            (r, final(self)@) == old(self)@.take_mode(session),
    {
        if self.foreground != Some(session) {
            return None;
        }
        let r = self.pending_mode;
        self.pending_mode = None;
        assert(self@ =~= (RouterModel { pending_mode: None, ..old(self)@ }));
        r
    }
}

/// A click on the status bar.
#[derive(Debug, Clone, Copy, PartialEq, Eq, Structural)]
pub enum StatusEvent {
    /// The mode cell: switch Chinese / English.
    ToggleMode,
    /// The punctuation cell: switch full-width punctuation for the current mode.
    TogglePunctuation,
    /// The cloud cell: switch online prediction.
    ToggleCloud,
    /// The bar was dragged to this top-left corner.
    Moved(i32, i32),
}

/// A value written back to the configuration file.
#[derive(Debug, Clone, Copy, PartialEq, Eq, Structural)]
pub enum ConfigValue {
    Bool(bool),
    Int(i64),
}

/// One key to write back to the configuration file.
#[derive(Debug, Clone, Copy)]
pub struct ConfigWrite {
    pub section: &'static str,
    pub key: &'static str,
    pub value: ConfigValue,
}

pub open spec fn writes_model(v: Seq<ConfigWrite>) -> Seq<(Seq<char>, Seq<char>, ConfigValue)> {
    v.map_values(|w: ConfigWrite| (w.section@, w.key@, w.value))
}

/// What the caller does after a status-bar click.
#[derive(Debug)]
pub struct StatusOutcome {
    /// Keys to write back to the configuration file, in order.
    pub writes: Vec<ConfigWrite>,
    /// Cloud prediction was switched to this value: attach the predictor again,
    /// and when it is off cancel the request in flight.
    pub cloud: Option<bool>,
}

/// A click in the candidate window.
#[derive(Debug, Clone, Copy, PartialEq, Eq, Structural)]
pub enum CandidateEvent {
    /// Row `row` of the current page (counted from 0): commit it.
    Pick(usize),
    /// The sentence completion at the top: accept it, as Tab does.
    PickSentence,
}

/// What the caller does after a candidate-window click.
#[derive(Debug, Clone, PartialEq, Eq)]
pub enum CandidateAction {
    /// Commit the candidate at this global index, then queue its text.
    Commit(usize),
    /// Accept this sentence, then queue the text the engine gives back.
    AcceptSentence(String),
    /// No sentence yet: ask for one now.
    RequestSentence,
}

/// The candidate a click on `row` means: that row of the page the highlight is on.
pub open spec fn picked_index(highlight: nat, page_size: nat, row: nat) -> nat {
    (highlight / page_size) * page_size + row
}

impl Router {
    /// Writes `info` over the table entry at `i`.
    fn put_info(&mut self, i: usize, info: SessionInfo)
        requires
            i < old(self).sessions@.len(),
            ids_unique(old(self).sessions@),
        ensures
            ids_unique(final(self).sessions@),
            final(self).sessions@ == old(self).sessions@.update(
                i as int,
                SessionEntry { id: old(self).sessions@[i as int].id, info },
            ),
            forall|x: SessionId| #[trigger] final(self)@.info(x) == (if x == old(self).sessions@[i as int].id {
                Some(info)
            } else {
                old(self)@.info(x)
            }),
            final(self)@ == (RouterModel { sessions: final(self)@.sessions, ..old(self)@ }),
    {
        let ghost s0 = self.sessions@;
        let old_entry = self.sessions.remove(i);
        let e = SessionEntry { id: old_entry.id, info };
        self.sessions.insert(i, e);
        proof {
            Self::lemma_remove_insert(s0, i as int, e);
            assert forall|x: SessionId| #[trigger] lookup(self.sessions@, x) == (if x == s0[i as int].id {
                Some(info)
            } else {
                lookup(s0, x)
            }) by {
                lemma_lookup_update(s0, i as int, e, x);
            }
        }
        assert(self@ =~= (RouterModel { sessions: self@.sessions, ..old(self)@ }));
    }

    /// A text service opened `session`: it gets a fresh table entry (a session
    /// that opens again starts over).
    pub fn open_session(&mut self, session: SessionId, app: Option<String>, pid: u32, tid: u32)
        requires
            old(self).wf(),
        ensures
            final(self).wf(),
            final(self)@.info(session) matches Some(info) && opened_info(opt_chars(app), pid, tid, info),
            forall|x: SessionId| x != session ==> #[trigger] final(self)@.info(x) == old(self)@.info(x),
            final(self)@.sessions.len() == old(self)@.sessions.len() + (if old(self)@.info(
                session,
            ) is Some {
                0int
            } else {
                1int
            }),
            final(self)@.foreground == old(self)@.foreground,
            final(self)@.focused == old(self)@.focused,
            final(self)@.pending_mode == old(self)@.pending_mode,
            old(self)@.private_follows_focus() && old(self)@.focused != Some(session)
                ==> final(self)@.private_follows_focus(),
            final(self)@ == (RouterModel {
                sessions: final(self)@.sessions,
                status: final(self)@.status,
                ..old(self)@
            }),
    {
        let ghost app_view = opt_chars(app);
        let info = SessionInfo {
            app,
            private: false,
            pid,
            tid,
            english: None,
            surrounding_before: None,
            surrounding_after: None,
            caps: false,
        };
        let ghost fresh = info;
        match self.find(session) {
            Some(i) => {
                self.put_info(i, info);
            },
            None => {
                let ghost s0 = self.sessions@;
                let e = SessionEntry { id: session, info };
                self.sessions.push(e);
                proof {
                    assert forall|x: SessionId| #[trigger] lookup(self.sessions@, x) == (if x == session {
                        Some(fresh)
                    } else {
                        lookup(s0, x)
                    }) by {
                        lemma_lookup_push(s0, e, x);
                    }
                    assert(ids_unique(self.sessions@)) by {
                        assert forall|a: int, b: int| 0 <= a < b < self.sessions@.len() implies self.sessions@[a].id != self.sessions@[b].id by {
                            if b == s0.len() {
                                assert(self.sessions@[a] == s0[a]);
                            } else {
                                assert(self.sessions@[a] == s0[a] && self.sessions@[b] == s0[b]);
                            }
                        }
                    }
                }
            },
        }
        let ghost mid = self@;
        self.reconcile_status();
        assert forall|x: SessionId| #[trigger] self@.info(x) == mid.info(x) by {}
    }

    /// `session` closed: it leaves the table, and the status bar hides if it
    /// was the foreground one.
    pub fn close_session(&mut self, session: SessionId)
        requires
            old(self).wf(),
        ensures
            final(self).wf(),
            final(self)@.info(session) is None,
            forall|x: SessionId| x != session ==> #[trigger] final(self)@.info(x) == old(self)@.info(x),
            final(self)@.sessions.len() == old(self)@.sessions.len() - (if old(self)@.info(
                session,
            ) is Some {
                1int
            } else {
                0int
            }),
            old(self)@.foreground == Some(session) ==> final(self)@.foreground is None
                && final(self)@.pending_mode is None,
            old(self)@.foreground != Some(session) ==> final(self)@.foreground == old(self)@.foreground
                && final(self)@.pending_mode == old(self)@.pending_mode,
            old(self)@.private_follows_focus() && old(self)@.focused != Some(session)
                ==> final(self)@.private_follows_focus(),
            final(self)@ == (RouterModel {
                sessions: final(self)@.sessions,
                foreground: final(self)@.foreground,
                pending_mode: final(self)@.pending_mode,
                status: final(self)@.status,
                ..old(self)@
            }),
    {
        let ghost old_model = self@;
        match self.find(session) {
            Some(i) => {
                let ghost s0 = self.sessions@;
                let _gone = self.sessions.remove(i);
                proof {
                    assert forall|x: SessionId| #[trigger] lookup(self.sessions@, x) == (if x == session {
                        None
                    } else {
                        lookup(s0, x)
                    }) by {
                        lemma_lookup_remove(s0, i as int, x);
                    }
                    assert(ids_unique(self.sessions@)) by {
                        assert forall|a: int, b: int| 0 <= a < b < self.sessions@.len() implies self.sessions@[a].id != self.sessions@[b].id by {
                            let a0 = if a < i { a } else { a + 1 };
                            let b0 = if b < i { b } else { b + 1 };
                            assert(self.sessions@[a] == s0[a0] && self.sessions@[b] == s0[b0]);
                        }
                    }
                }
            },
            None => {},
        }
        let ghost mid = self@;
        self.reconcile_status();
        self.drop_foreground(session);
        assert(self@.sessions == mid.sessions);
        assert forall|x: SessionId| #[trigger] self@.info(x) == mid.info(x) by {}
    }
}

/// What a click on the status bar does to the router (`pre` before, `post`
/// after) and which keys it writes back.
///
/// The mode cell does nothing while the built-in English mode is off, or when
/// the foreground session has no mode; otherwise the foreground session's
/// mode flips at once and the target mode waits for that session. The
/// punctuation cell flips the setting of the mode on show (Chinese when none),
/// the cloud cell flips online prediction (dropping the sentence on show when
/// it goes off), and a drag remembers the corner.
pub open spec fn status_event_effect(
    pre: RouterModel,
    post: RouterModel,
    event: StatusEvent,
    writes: Seq<(Seq<char>, Seq<char>, ConfigValue)>,
    cloud: Option<bool>,
) -> bool {
    match event {
        StatusEvent::ToggleMode => {
            match (pre.foreground, pre.status_mode()) {
                (Some(fg), Some(english)) => if pre.config.english_mode {
                    &&& post == RouterModel {
                        sessions: post.sessions,
                        pending_mode: Some(!english),
                        status: post.status,
                        ..pre
                    }
                    &&& post.info(fg) == match pre.info(fg) {
                        Some(i) => Some(SessionInfo { english: Some(!english), ..i }),
                        None => None,
                    }
                    &&& post.mode_of(fg) == Some(!english)
                    &&& forall|x: SessionId| x != fg ==> #[trigger] post.info(x) == pre.info(x)
                    &&& post.sessions.len() == pre.sessions.len()
                    &&& writes.len() == 0
                    &&& cloud is None
                } else {
                    post == pre && writes.len() == 0 && cloud is None
                },
                _ => post == pre && writes.len() == 0 && cloud is None,
            }
        },
        StatusEvent::TogglePunctuation => {
            let english = pre.status_mode() == Some(true);
            let value = !pre.full_width_for(english);
            &&& post == RouterModel {
                config: if english {
                    RouterConfig { english_full_width: value, ..pre.config }
                } else {
                    RouterConfig { full_width: value, ..pre.config }
                },
                status: post.status,
                ..pre
            }
            &&& writes == seq![
                (
                    "general"@,
                    if english {
                        "english_full_width_punctuation"@
                    } else {
                        "full_width_punctuation"@
                    },
                    ConfigValue::Bool(value),
                ),
            ]
            &&& cloud is None
        },
        StatusEvent::ToggleCloud => {
            &&& post == RouterModel {
                cloud: !pre.cloud,
                sentence: if pre.cloud {
                    None
                } else {
                    pre.sentence
                },
                status: post.status,
                ..pre
            }
            &&& writes == seq![("predict"@, "enabled"@, ConfigValue::Bool(!pre.cloud))]
            &&& cloud == Some(!pre.cloud)
        },
        StatusEvent::Moved(x, y) => {
            &&& post == RouterModel {
                config: RouterConfig { status_pos: Some((x, y)), ..pre.config },
                status: post.status,
                ..pre
            }
            &&& writes == seq![
                ("status_bar"@, "x"@, ConfigValue::Int(x as i64)),
                ("status_bar"@, "y"@, ConfigValue::Int(y as i64)),
            ]
            &&& cloud is None
        },
    }
}

impl Router {
    fn toggle_mode(&mut self) -> (r: StatusOutcome)
        requires
            old(self).wf(),
        ensures
            final(self).wf(),
            status_event_effect(old(self)@, final(self)@, StatusEvent::ToggleMode, writes_model(r.writes@), r.cloud),
    {
        let writes: Vec<ConfigWrite> = Vec::new();
        assert(writes_model(writes@) =~= Seq::empty());
        if !self.config.english_mode {
            return StatusOutcome { writes, cloud: None };
        }
        let session = match self.foreground {
            Some(s) => s,
            None => {
                return StatusOutcome { writes, cloud: None };
            },
        };
        let english = match self.status_mode() {
            Some(e) => e,
            None => {
                return StatusOutcome { writes, cloud: None };
            },
        };
        self.pending_mode = Some(!english);
        let ghost before = self@;
        self.set_mode(session, Some(!english), None);
        let ghost mid = self@;
        assert forall|x: SessionId| x != session implies #[trigger] mid.info(x) == before.info(x) by {
            assert(mid.info(x) == before.info(x));
        }
        self.reconcile_status();
        assert forall|x: SessionId| x != session implies #[trigger] self@.info(x) == old(self)@.info(x) by {
            assert(mid.info(x) == before.info(x));
        }
        assert(self@.info(session) == mid.info(session));
        assert(self@.mode_of(session) == mid.mode_of(session));
        StatusOutcome { writes, cloud: None }
    }

    fn toggle_punctuation(&mut self) -> (r: StatusOutcome)
        requires
            old(self).wf(),
        ensures
            final(self).wf(),
            status_event_effect(old(self)@, final(self)@, StatusEvent::TogglePunctuation, writes_model(r.writes@), r.cloud),
    {
        let mut writes: Vec<ConfigWrite> = Vec::new();
        let english = self.status_mode() == Some(true);
        let full_width = !self.full_width_for(english);
        let key = if english {
            self.config.english_full_width = full_width;
            "english_full_width_punctuation"
        } else {
            self.config.full_width = full_width;
            "full_width_punctuation"
        };
        writes.push(ConfigWrite { section: "general", key, value: ConfigValue::Bool(full_width) });
        assert(writes_model(writes@) =~= seq![("general"@, key@, ConfigValue::Bool(full_width))]);
        self.reconcile_status();
        StatusOutcome { writes, cloud: None }
    }

    fn toggle_cloud(&mut self) -> (r: StatusOutcome)
        requires
            old(self).wf(),
        ensures
            final(self).wf(),
            status_event_effect(old(self)@, final(self)@, StatusEvent::ToggleCloud, writes_model(r.writes@), r.cloud),
    {
        let mut writes: Vec<ConfigWrite> = Vec::new();
        let enabled = !self.cloud;
        self.cloud = enabled;
        writes.push(ConfigWrite { section: "predict", key: "enabled", value: ConfigValue::Bool(enabled) });
        if !enabled {
            self.sentence = None;
        }
        assert(writes_model(writes@) =~= seq![("predict"@, "enabled"@, ConfigValue::Bool(enabled))]);
        self.reconcile_status();
        StatusOutcome { writes, cloud: Some(enabled) }
    }

    fn moved(&mut self, x: i32, y: i32) -> (r: StatusOutcome)
        requires
            old(self).wf(),
        ensures
            final(self).wf(),
            status_event_effect(old(self)@, final(self)@, StatusEvent::Moved(x, y), writes_model(r.writes@), r.cloud),
    {
        let mut writes: Vec<ConfigWrite> = Vec::new();
        self.config.status_pos = Some((x, y));
        writes.push(ConfigWrite { section: "status_bar", key: "x", value: ConfigValue::Int(x as i64) });
        writes.push(ConfigWrite { section: "status_bar", key: "y", value: ConfigValue::Int(y as i64) });
        assert(writes_model(writes@) =~= seq![
            ("status_bar"@, "x"@, ConfigValue::Int(x as i64)),
            ("status_bar"@, "y"@, ConfigValue::Int(y as i64)),
        ]);
        self.reconcile_status();
        StatusOutcome { writes, cloud: None }
    }

    /// A click on the status bar (see [`status_event_effect`]); the bar then
    /// shows what the new state asks.
    pub fn handle_status_event(&mut self, event: StatusEvent) -> (r: StatusOutcome)
        requires
            old(self).wf(),
        ensures
            old(self)@.private_follows_focus() ==> final(self)@.private_follows_focus(),
            final(self).wf(),
            status_event_effect(old(self)@, final(self)@, event, writes_model(r.writes@), r.cloud),
    {
        match event {
            StatusEvent::ToggleMode => self.toggle_mode(),
            StatusEvent::TogglePunctuation => self.toggle_punctuation(),
            StatusEvent::ToggleCloud => self.toggle_cloud(),
            StatusEvent::Moved(x, y) => self.moved(x, y),
        }
    }
}

impl Router {
    /// Clears the composition state: nothing queued, no sentence, the
    /// highlight back on the first candidate.
    pub fn reset_composition(&mut self)
        requires
            old(self).wf(),
        ensures
            old(self)@.private_follows_focus() ==> final(self)@.private_follows_focus(),
            final(self).wf(),
            final(self)@ == (RouterModel {
                pending_commit: None,
                sentence: None,
                highlight: 0,
                ..old(self)@
            }),
    {
        self.pending_commit = None;
        self.sentence = None;
        self.highlight = 0;
        assert(self@ =~= (RouterModel {
            pending_commit: None,
            sentence: None,
            highlight: 0,
            ..old(self)@
        }));
    }

    /// The highlight moved (keys, paging).
    pub fn set_highlight(&mut self, highlight: usize)
        requires
            old(self).wf(),
        ensures
            old(self)@.private_follows_focus() ==> final(self)@.private_follows_focus(),
            final(self).wf(),
            final(self)@ == (RouterModel { highlight: highlight as nat, ..old(self)@ }),
    {
        self.highlight = highlight;
        assert(self@ =~= (RouterModel { highlight: highlight as nat, ..old(self)@ }));
    }

    /// A sentence completion arrived (or went away).
    pub fn set_sentence(&mut self, sentence: Option<String>)
        requires
            old(self).wf(),
        ensures
            old(self)@.private_follows_focus() ==> final(self)@.private_follows_focus(),
            final(self).wf(),
            final(self)@ == (RouterModel { sentence: opt_chars(sentence), ..old(self)@ }),
    {
        self.sentence = sentence;
        assert(self@ =~= (RouterModel { sentence: opt_chars(sentence), ..old(self)@ }));
    }

    /// A click in the candidate window. A row of the page means the candidate
    /// at that row of the page the highlight is on; the sentence is accepted
    /// when one is on show (and leaves the frame), and asked for now otherwise.
    pub fn handle_candidate_event(&mut self, event: CandidateEvent) -> (r: CandidateAction)
        requires
            old(self).wf(),
            event matches CandidateEvent::Pick(row) ==> old(self)@.config.page_size > 0 && picked_index(
                old(self)@.highlight,
                old(self)@.config.page_size as nat,
                row as nat,
            ) <= usize::MAX,
        ensures
            old(self)@.private_follows_focus() ==> final(self)@.private_follows_focus(),
            final(self).wf(),
            match event {
                CandidateEvent::Pick(row) => {
                    &&& r == CandidateAction::Commit(
                        picked_index(old(self)@.highlight, old(self)@.config.page_size as nat, row as nat) as usize,
                    )
                    &&& final(self)@ == old(self)@
                },
                CandidateEvent::PickSentence => match old(self)@.sentence {
                    Some(sentence) => {
                        &&& r matches CandidateAction::AcceptSentence(s) && s@ == sentence
                        &&& final(self)@ == (RouterModel { sentence: None, ..old(self)@ })
                    },
                    None => r == CandidateAction::RequestSentence && final(self)@ == old(self)@,
                },
            },
    {
        match event {
            CandidateEvent::Pick(row) => {
                let page_size = self.config.page_size;
                let page = self.highlight / page_size;
                proof {
                    let h = self.highlight as int;
                    let p = page_size as int;
                    assert((h / p) * p <= h) by (nonlinear_arith)
                        requires
                            h >= 0,
                            p > 0,
                    ;
                }
                let index = page * page_size + row;
                CandidateAction::Commit(index)
            },
            CandidateEvent::PickSentence => {
                match self.sentence.take() {
                    Some(sentence) => {
                        assert(self@ =~= (RouterModel { sentence: None, ..old(self)@ }));
                        CandidateAction::AcceptSentence(sentence)
                    },
                    None => CandidateAction::RequestSentence,
                }
            },
        }
    }

    /// Queues text to commit until the focused session's next poll; text
    /// queued before and not yet collected stays in front of it.
    pub fn queue_commit(&mut self, text: String)
        requires
            old(self).wf(),
        ensures
            old(self)@.private_follows_focus() ==> final(self)@.private_follows_focus(),
            final(self).wf(),
            final(self)@ == old(self)@.queue(text@),
    {
        match self.pending_commit.take() {
            Some(previous) => {
                let mut joined = previous;
                append_chars(&mut joined, text.as_str());
                self.pending_commit = Some(joined);
            },
            None => {
                self.pending_commit = Some(text);
            },
        }
        assert(self@ =~= (RouterModel {
            pending_commit: Some(
                match old(self)@.pending_commit {
                    Some(previous) => previous + text@,
                    None => text@,
                },
            ),
            ..old(self)@
        }));
    }

    /// The queued text, for the focused session only (a click can only land on
    /// it); collecting clears it.
    pub fn take_pending_commit(&mut self, session: SessionId) -> (r: Option<String>)
        requires
            old(self).wf(),
        ensures
            old(self)@.private_follows_focus() ==> final(self)@.private_follows_focus(),
            final(self).wf(),
            (opt_chars(r), final(self)@) == old(self)@.take_commit(session),
    {
        if self.focused != Some(session) {
            return None;
        }
        let r = self.pending_commit.take();
        assert(self@ =~= (RouterModel { pending_commit: None, ..old(self)@ }));
        r
    }

    /// Whether `session`'s input field is private (false when unknown).
    fn private_of(&self, session: SessionId) -> (r: bool)
        requires
            ids_unique(self.sessions@),
        ensures
            r == (match self@.info(session) {
                Some(info) => info.private,
                None => false,
            }),
    {
        match self.find(session) {
            Some(i) => self.sessions[i].info.private,
            None => false,
        }
    }

    /// Keys arrive from `session`: it holds the composition from now on. When
    /// the focus moves, the composition state is cleared and the engine takes
    /// the new session's privacy; returns whether the focus moved.
    pub fn ensure_focus(&mut self, session: SessionId) -> (moved: bool)
        requires
            old(self).wf(),
        ensures
            final(self).wf(),
            moved == (old(self)@.focused != Some(session)),
            moved ==> final(self)@.private_follows_focus(),
            !moved ==> final(self)@ == old(self)@,
            moved ==> final(self)@ == (RouterModel {
                focused: Some(session),
                private: match old(self)@.info(session) {
                    Some(info) => info.private,
                    None => false,
                },
                pending_commit: None,
                sentence: None,
                highlight: 0,
                ..old(self)@
            }),
    {
        if self.focused == Some(session) {
            return false;
        }
        self.reset_composition();
        self.focused = Some(session);
        self.private = self.private_of(session);
        assert(self@ =~= (RouterModel {
            focused: Some(session),
            private: match old(self)@.info(session) {
                Some(info) => info.private,
                None => false,
            },
            pending_commit: None,
            sentence: None,
            highlight: 0,
            ..old(self)@
        }));
        true
    }

    /// The executable name of the focused session's application.
    pub fn focused_app(&self) -> (r: Option<String>)
        requires
            ids_unique(self@.sessions),
        ensures
            opt_chars(r) == (match self@.focused {
                Some(id) => match self@.info(id) {
                    Some(info) => opt_chars(info.app),
                    None => None,
                },
                None => None,
            }),
    {
        match self.focused {
            Some(id) => match self.find(id) {
                Some(i) => match &self.sessions[i].info.app {
                    Some(app) => Some(app.clone()),
                    None => None,
                },
                None => None,
            },
            None => None,
        }
    }

    /// The session's input field turned private or public: recorded, and the
    /// engine follows at once when it is the focused session.
    #[verifier::rlimit(40)]
    pub fn set_privacy(&mut self, session: SessionId, private: bool)
        requires
            old(self).wf(),
        ensures
            final(self).wf(),
            final(self)@.info(session) == (match old(self)@.info(session) {
                Some(info) => Some(SessionInfo { private, ..info }),
                None => None,
            }),
            forall|x: SessionId| x != session ==> #[trigger] final(self)@.info(x) == old(self)@.info(x),
            final(self)@.private == (if old(self)@.focused == Some(session) {
                private
            } else {
                old(self)@.private
            }),
            old(self)@.private_follows_focus() && (old(self)@.focused == Some(session) ==> old(
                self,
            )@.info(session) is Some) ==> final(self)@.private_follows_focus(),
            final(self)@.focused == old(self)@.focused,
            final(self)@.foreground == old(self)@.foreground,
            final(self)@.sessions.len() == old(self)@.sessions.len(),
            final(self)@ == (RouterModel {
                sessions: final(self)@.sessions,
                private: final(self)@.private,
                ..old(self)@
            }),
    {
        let ghost old_model = self@;
        let ghost expected = |x: SessionId|
            if x == session {
                match old_model.info(x) {
                    Some(info) => Some(SessionInfo { private, ..info }),
                    None => None,
                }
            } else {
                old_model.info(x)
            };
        match self.find(session) {
            Some(i) => {
                let e = &self.sessions[i];
                let info = SessionInfo {
                    app: match &e.info.app {
                        Some(a) => Some(a.clone()),
                        None => None,
                    },
                    private,
                    pid: e.info.pid,
                    tid: e.info.tid,
                    english: e.info.english,
                    surrounding_before: match &e.info.surrounding_before {
                        Some(a) => Some(a.clone()),
                        None => None,
                    },
                    surrounding_after: match &e.info.surrounding_after {
                        Some(a) => Some(a.clone()),
                        None => None,
                    },
                    caps: e.info.caps,
                };
                assert(info == SessionInfo { private, ..self.sessions@[i as int].info });
                self.put_info(i, info);
                assert forall|x: SessionId| #[trigger] self@.info(x) == expected(x) by {}
            },
            None => {
                assert forall|x: SessionId| #[trigger] self@.info(x) == expected(x) by {}
            },
        }
        let ghost after_put = self@;
        if self.focused == Some(session) {
            self.private = private;
        }
        proof {
            assert forall|x: SessionId| #[trigger] self@.info(x) == expected(x) by {
                assert(after_put.info(x) == expected(x));
            }
            if let Some(fg) = old_model.foreground {
                assert(self@.info(fg) == expected(fg));
            }
            assert(self@.expected_status() == old_model.expected_status());
            if let Some(f) = old_model.focused {
                assert(self@.info(f) == expected(f));
            }
        }
    }

    /// Focus leaves `session`: the caller hands out the raw input only when
    /// `session` holds a composition (`composing`); the composition state is
    /// cleared either way, so one application's letters never land in another.
    pub fn commit_raw_for(&mut self, session: SessionId, composing: bool) -> (take: bool)
        requires
            old(self).wf(),
        ensures
            old(self)@.private_follows_focus() ==> final(self)@.private_follows_focus(),
            final(self).wf(),
            take == (old(self)@.focused == Some(session) && composing),
            final(self)@ == (RouterModel {
                pending_commit: None,
                sentence: None,
                highlight: 0,
                ..old(self)@
            }),
    {
        let take = self.focused == Some(session) && composing;
        self.reset_composition();
        take
    }
}

/// The status bar shows the foreground session's mode exactly when it is
/// enabled and that session has reported one, and is hidden otherwise.
pub proof fn lemma_status_shows_the_foreground_mode(router: Router)
    requires
        router.wf(),
    ensures
        router@.status is Some <==> (router@.config.status_enabled && router@.status_mode() is Some),
        router@.status matches Some(view) ==> Some(view.english) == router@.status_mode()
            && view.full_width == router@.full_width_for(view.english) && view.cloud
            == router@.cloud,
{
}

/// A click on the mode cell flips the foreground session's mode and nothing
/// else of it: the status bar then shows the other mode with the same Caps
/// Lock, and the new mode waits for that session to collect it. With the
/// built-in English mode off the click changes nothing.
pub proof fn lemma_mode_click_shows_the_other_mode(
    pre: RouterModel,
    post: RouterModel,
    writes: Seq<(Seq<char>, Seq<char>, ConfigValue)>,
    cloud: Option<bool>,
)
    requires
        status_event_effect(pre, post, StatusEvent::ToggleMode, writes, cloud),
        post.status == post.expected_status(),
    ensures
        !pre.config.english_mode ==> post == pre,
        pre.config.english_mode && pre.status_mode() is Some ==> {
            let english = pre.status_mode()->0;
            &&& post.status_mode() == Some(!english)
            &&& post.foreground_caps() == pre.foreground_caps()
            &&& post.pending_mode == Some(!english)
            &&& pre.config.status_enabled ==> (post.status matches Some(v) && v.english == !english
                && v.caps == pre.foreground_caps())
        },
{
}

/// Privacy follows the focused session across any update that keeps the
/// focus, the engine's flag and every session's reported flag (a mode report,
/// Caps Lock, the surrounding text, a switch to another input method): what
/// held before still holds.
pub proof fn lemma_privacy_survives_other_updates(pre: RouterModel, post: RouterModel)
    requires
        pre.private_follows_focus(),
        post.focused == pre.focused,
        post.private == pre.private,
        forall|x: SessionId|
            (#[trigger] post.info(x) is Some) == (pre.info(x) is Some) && (post.info(x) matches Some(
                i,
            ) ==> i.private == pre.info(x)->0.private),
    ensures
        post.private_follows_focus(),
{
    match pre.focused {
        Some(f) => {
            assert(post.info(f) is Some == pre.info(f) is Some);
        },
        None => {},
    }
}

/// A mode clicked on the status bar is handed out once, and only to the
/// foreground session.
pub proof fn lemma_pending_mode_goes_once_to_the_foreground(
    m: RouterModel,
    session: SessionId,
    other: SessionId,
)
    ensures
        m.foreground != Some(session) ==> m.take_mode(session).0 is None && m.take_mode(session).1
            == m,
        m.foreground == Some(session) ==> m.take_mode(session).0 == m.pending_mode && m.take_mode(
            session,
        ).1.take_mode(other).0 is None,
{
}

/// When the foreground moves, a mode click the previous application did not
/// collect is dropped: no session can collect it afterwards.
pub proof fn lemma_new_foreground_drops_the_pending_mode(
    m: RouterModel,
    to: Option<SessionId>,
    session: SessionId,
)
    requires
        m.foreground != to,
    ensures
        m.switched(to).pending_mode is None,
        m.switched(to).take_mode(session).0 is None,
{
}

/// Clicked text is never lost: two clicks before a poll are collected
/// together, in order, by the focused session only.
pub proof fn lemma_queued_text_is_collected_in_order(
    m: RouterModel,
    a: Seq<char>,
    b: Seq<char>,
    session: SessionId,
)
    requires
        m.pending_commit is None,
    ensures
        m.queue(a).queue(b).take_commit(session).0 == (if m.focused == Some(session) {
            Some(a + b)
        } else {
            None
        }),
        m.focused != Some(session) ==> m.queue(a).queue(b).take_commit(session).1 == m.queue(
            a,
        ).queue(b),
{
}

/// A row clicked in the candidate window lies on the page of the highlight.
pub proof fn lemma_picked_row_is_on_the_highlighted_page(highlight: nat, page_size: nat, row: nat)
    requires
        page_size > 0,
        row < page_size,
    ensures
        picked_index(highlight, page_size, row) / page_size == highlight / page_size,
        picked_index(highlight, page_size, row) % page_size == row,
{
    let p = page_size as int;
    let q = (highlight / page_size) as int;
    let r = row as int;
    vstd::arithmetic::div_mod::lemma_fundamental_div_mod_converse(q * p + r, p, q, r);
}

/// At most this many ownership hints are collected for one foreground window.
pub const MAX_HINTS: usize = 32;

/// Adds a window's `(thread id, process id)` to the hints unless it is already
/// there (a frame and its children often share a thread).
pub fn add_hint(hints: &mut Vec<(u32, u32)>, identity: (u32, u32))
    ensures
        final(hints)@ == (if old(hints)@.contains(identity) {
            old(hints)@
        } else {
            old(hints)@.push(identity)
        }),
{
    let mut k: usize = 0;
    while k < hints.len()
        invariant
            k <= hints@.len(),
            hints@ == old(hints)@,
            forall|j: int| 0 <= j < k ==> hints@[j] != identity,
        decreases hints@.len() - k,
    {
        if hints[k].0 == identity.0 && hints[k].1 == identity.1 {
            assert(hints@[k as int] == identity);
            return;
        }
        k = k + 1;
    }
    hints.push(identity);
}

/// Whether enough hints were collected to stop walking the child windows.
pub fn hints_full(hints: &Vec<(u32, u32)>) -> (r: bool)
    ensures
        r == (hints@.len() >= MAX_HINTS),
{
    hints.len() >= MAX_HINTS
}

impl Router {
    /// A new configuration was loaded: the router takes it and the cloud
    /// switch from it, the status bar follows at once, and a sentence from a
    /// predictor that was replaced is dropped.
    pub fn apply_config(&mut self, config: RouterConfig, cloud: bool, predictor_replaced: bool)
        requires
            old(self).wf(),
        ensures
            old(self)@.private_follows_focus() ==> final(self)@.private_follows_focus(),
            final(self).wf(),
            final(self)@ == (RouterModel {
                config,
                cloud,
                sentence: if predictor_replaced {
                    None
                } else {
                    old(self)@.sentence
                },
                ..old(self)@
            }).settled(),
    {
        self.config = config;
        self.cloud = cloud;
        if predictor_replaced {
            self.sentence = None;
        }
        self.reconcile_status();
    }
}

} // verus!
