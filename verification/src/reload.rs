//! Hot reloading of the configuration: at most once a second, the watched
//! state is compared with what is on disk (the caller reads the disk), and the
//! plan says what to load again. Also which prediction backends to attach.

use vstd::prelude::*;

verus! {

/// The least time between two looks at the configuration file, in milliseconds.
pub const CONFIG_POLL_INTERVAL_MS: u64 = 1000;

/// One loadable file of the user's dictionary directory: path, modification
/// time (when known) and size.
#[derive(Debug, Clone, PartialEq, Eq)]
pub struct DictionaryFile {
    pub path: String,
    pub modified: Option<u64>,
    pub len: u64,
}

pub open spec fn files_view(v: Seq<DictionaryFile>) -> Seq<(Seq<char>, Option<u64>, u64)> {
    v.map_values(|f: DictionaryFile| (f.path@, f.modified, f.len))
}

/// What was applied last: when the file was looked at, its modification time,
/// and the snapshot of the dictionary directory.
#[derive(Debug)]
pub struct ConfigReload {
    /// When the last look happened (milliseconds of a monotonic clock).
    pub last_check: u64,
    pub last_mtime: Option<u64>,
    pub dictionary_files: Vec<DictionaryFile>,
}

/// What one poll asks the caller to do.
#[derive(Debug, Clone, Copy, PartialEq, Eq, Structural)]
pub struct ReloadPlan {
    /// The poll looked (at most once per interval): handle the forget requests.
    pub checked: bool,
    /// The dictionary directory changed: load the extra dictionaries again.
    pub reload_dictionaries: bool,
    /// The configuration file changed: read it and apply it (a file that does
    /// not parse keeps the old configuration and is not retried).
    pub reload_config: bool,
}

fn same_files(a: &Vec<DictionaryFile>, b: &Vec<DictionaryFile>) -> (r: bool)
    ensures
        r == (files_view(a@) == files_view(b@)),
{
    if a.len() != b.len() {
        assert(files_view(a@).len() != files_view(b@).len());
        return false;
    }
    let mut i: usize = 0;
    while i < a.len()
        invariant
            i <= a.len(),
            a.len() == b.len(),
            forall|j: int| 0 <= j < i ==> files_view(a@)[j] == files_view(b@)[j],
        decreases a.len() - i,
    {
        let x = &a[i];
        let y = &b[i];
        let same_modified = match (x.modified, y.modified) {
            (Some(p), Some(q)) => p == q,
            (None, None) => true,
            _ => false,
        };
        if !(x.path == y.path && same_modified && x.len == y.len) {
            assert(files_view(a@)[i as int] != files_view(b@)[i as int]);
            return false;
        }
        i = i + 1;
    }
    assert(files_view(a@) =~= files_view(b@));
    true
}

/// The watched state as plain values.
pub struct ReloadModel {
    pub last_check: u64,
    pub last_mtime: Option<u64>,
    pub files: Seq<(Seq<char>, Option<u64>, u64)>,
}

/// A poll at `now` looks once a full interval has passed since the last look.
pub open spec fn due(m: ReloadModel, now: u64) -> bool {
    now >= m.last_check && now - m.last_check >= CONFIG_POLL_INTERVAL_MS
}

/// One poll at `now`, with the directory snapshot and the configuration file's
/// modification time as they are on disk. Nothing happens before the interval
/// is over. A new snapshot reloads the dictionaries (and leaves the
/// configuration alone); a new modification time reloads the configuration,
/// and is remembered whether or not the file parses.
pub open spec fn poll_spec(
    m: ReloadModel,
    now: u64,
    files: Seq<(Seq<char>, Option<u64>, u64)>,
    mtime: Option<u64>,
) -> (ReloadPlan, ReloadModel) {
    if !due(m, now) {
        (ReloadPlan { checked: false, reload_dictionaries: false, reload_config: false }, m)
    } else {
        (
            ReloadPlan {
                checked: true,
                reload_dictionaries: files != m.files,
                reload_config: mtime != m.last_mtime,
            },
            ReloadModel { last_check: now, last_mtime: mtime, files },
        )
    }
}

impl ConfigReload {
    pub open spec fn model(&self) -> ReloadModel {
        ReloadModel {
            last_check: self.last_check,
            last_mtime: self.last_mtime,
            files: files_view(self.dictionary_files@),
        }
    }

    /// Starts watching: the state as it is now.
    pub fn watch_config(now: u64, mtime: Option<u64>, files: Vec<DictionaryFile>) -> (r: ConfigReload)
        ensures
            r.model() == (ReloadModel { last_check: now, last_mtime: mtime, files: files_view(files@) }),
    {
        ConfigReload { last_check: now, last_mtime: mtime, dictionary_files: files }
    }

    /// Whether a poll at `now` looks.
    pub fn is_due(&self, now: u64) -> (r: bool)
        ensures
            r == due(self.model(), now),
    {
        now >= self.last_check && now - self.last_check >= CONFIG_POLL_INTERVAL_MS
    }

    /// One poll (see [`poll_spec`]).
    pub fn poll_config_reload(&mut self, now: u64, files: Vec<DictionaryFile>, mtime: Option<u64>) -> (plan: ReloadPlan)
        ensures
            (plan, final(self).model()) == poll_spec(old(self).model(), now, files_view(files@), mtime),
    {
        if !self.is_due(now) {
            return ReloadPlan { checked: false, reload_dictionaries: false, reload_config: false };
        }
        self.last_check = now;
        let reload_dictionaries = !same_files(&files, &self.dictionary_files);
        if reload_dictionaries {
            self.dictionary_files = files;
        }
        let reload_config = match (mtime, self.last_mtime) {
            (Some(a), Some(b)) => a != b,
            (None, None) => false,
            _ => true,
        };
        self.last_mtime = mtime;
        ReloadPlan { checked: true, reload_dictionaries, reload_config }
    }
}

/// A changed configuration file is read once: the next poll that finds the
/// same modification time reads nothing (a file that does not parse is not
/// retried every second), and a change in the dictionary directory alone never
/// reads the configuration again.
pub proof fn lemma_a_change_is_read_once(
    m: ReloadModel,
    now: u64,
    later: u64,
    files: Seq<(Seq<char>, Option<u64>, u64)>,
    new_files: Seq<(Seq<char>, Option<u64>, u64)>,
    mtime: Option<u64>,
)
    requires
        due(m, now),
    ensures
        !poll_spec(poll_spec(m, now, files, mtime).1, later, new_files, mtime).0.reload_config,
        poll_spec(poll_spec(m, now, files, mtime).1, later, files, mtime).0 matches ReloadPlan {
            reload_dictionaries: false,
            reload_config: false,
            ..
        },
{
}

/// Which implementation serves a prediction role.
#[derive(Debug, Clone, Copy, PartialEq, Eq, Structural)]
pub enum Backend {
    /// The local one (no prediction, no gloss filling).
    Local,
    /// The cloud one.
    Cloud,
}

/// The predictor and the gloss filler to attach.
#[derive(Debug, Clone, Copy, PartialEq, Eq, Structural)]
pub struct CloudAttachment {
    pub predictor: Backend,
    pub gloss_filler: Backend,
}

/// With `[predict]` off both roles stay local; with it on, each uses the cloud
/// when its client could be built (it needs a key) and the local one otherwise.
pub fn attach_cloud(enabled: bool, predictor_built: bool, filler_built: bool) -> (r: CloudAttachment)
    ensures
        r.predictor == (if enabled && predictor_built {
            Backend::Cloud
        } else {
            Backend::Local
        }),
        r.gloss_filler == (if enabled && filler_built {
            Backend::Cloud
        } else {
            Backend::Local
        }),
{
    if !enabled {
        return CloudAttachment { predictor: Backend::Local, gloss_filler: Backend::Local };
    }
    let predictor = if predictor_built {
        Backend::Cloud
    } else {
        Backend::Local
    };
    let gloss_filler = if filler_built {
        Backend::Cloud
    } else {
        Backend::Local
    };
    CloudAttachment { predictor, gloss_filler }
}

} // verus!
