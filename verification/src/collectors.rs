//! Local event collectors only inspect sources explicitly selected by the user.
//!
//! Reading the sources (the session manager, the watched directory, systemd)
//! happens outside this module; what is read arrives here as plain values.
use vstd::prelude::*;

use crate::events::{EventKind, LocalEvent};
use crate::text::{chars_of, str_eq, trim, trim_range, range_eq};

verus! {

#[derive(Debug, Clone, Copy, PartialEq, Eq, Structural)]
pub enum SessionEvent {
    Locked,
    Unlocked,
    IdleStarted,
    IdleEnded,
}

#[derive(Debug, Clone, PartialEq, Eq)]
pub enum FileEvent {
    Created(String),
    Modified(String),
    DownloadCompleted(String),
}

/// A file event with its path as text.
pub enum FileEventModel {
    Created(Seq<char>),
    Modified(Seq<char>),
    DownloadCompleted(Seq<char>),
}

impl View for FileEvent {
    type V = FileEventModel;

    open spec fn view(&self) -> FileEventModel {
        match self {
            FileEvent::Created(p) => FileEventModel::Created(p@),
            FileEvent::Modified(p) => FileEventModel::Modified(p@),
            FileEvent::DownloadCompleted(p) => FileEventModel::DownloadCompleted(p@),
        }
    }
}

#[derive(Debug, Clone, PartialEq, Eq)]
pub enum TaskEvent {
    Started(String),
    Succeeded(String),
    Failed(String),
}

/// A task event with its name as text.
pub enum TaskEventModel {
    Started(Seq<char>),
    Succeeded(Seq<char>),
    Failed(Seq<char>),
}

impl View for TaskEvent {
    type V = TaskEventModel;

    open spec fn view(&self) -> TaskEventModel {
        match self {
            TaskEvent::Started(n) => TaskEventModel::Started(n@),
            TaskEvent::Succeeded(n) => TaskEventModel::Succeeded(n@),
            TaskEvent::Failed(n) => TaskEventModel::Failed(n@),
        }
    }
}

pub open spec fn task_events_view(s: Seq<TaskEvent>) -> Seq<TaskEventModel> {
    s.map_values(|e: TaskEvent| e@)
}

#[derive(Debug, Clone, PartialEq, Eq)]
pub enum NotificationEvent {
    Received { app: String, summary: String, body: String },
}

#[derive(Debug, Clone, PartialEq, Eq)]
pub enum BrowserEvent {
    TabChanged { title: String, url: String },
    DownloadCompleted(String),
    MediaChanged { playing: bool },
}

pub fn file_event(event: FileEvent) -> (e: LocalEvent)
    ensures
        e.kind == EventKind::File,
        match event {
            FileEvent::Created(p) => e.summary@ == "File created"@ && e.detail@ == p@,
            FileEvent::Modified(p) => e.summary@ == "File modified"@ && e.detail@ == p@,
            FileEvent::DownloadCompleted(p) => e.summary@ == "Download completed"@ && e.detail@
                == p@,
        },
{
    let (summary, detail) = match event {
        FileEvent::Created(path) => ("File created", path),
        FileEvent::Modified(path) => ("File modified", path),
        FileEvent::DownloadCompleted(path) => ("Download completed", path),
    };
    LocalEvent { kind: EventKind::File, summary: summary.to_owned(), detail }
}

pub fn notification_event(event: NotificationEvent) -> (e: LocalEvent)
    ensures
        e.kind == EventKind::Notification,
        match event {
            NotificationEvent::Received { app, summary, body } => e.summary@ == app@ + ": "@
                + summary@ && e.detail@ == body@,
        },
{
    match event {
        NotificationEvent::Received { app, summary, body } => {
            let mut s = String::new();
            s.append(app.as_str());
            s.append(": ");
            s.append(summary.as_str());
            LocalEvent { kind: EventKind::Notification, summary: s, detail: body }
        },
    }
}

pub fn browser_event(event: BrowserEvent) -> (e: LocalEvent)
    ensures
        e.kind == EventKind::Browser,
        match event {
            BrowserEvent::TabChanged { title, url } => e.summary@ == "Browser tab changed"@
                && e.detail@ == title@ + " ("@ + url@ + ")"@,
            BrowserEvent::DownloadCompleted(p) => e.summary@ == "Browser download completed"@
                && e.detail@ == p@,
            BrowserEvent::MediaChanged { playing } => e.summary@ == "Browser media changed"@
                && e.detail@ == (if playing {
                "playing"@
            } else {
                "paused"@
            }),
        },
{
    let (summary, detail) = match event {
        BrowserEvent::TabChanged { title, url } => {
            let mut d = String::new();
            d.append(title.as_str());
            d.append(" (");
            d.append(url.as_str());
            d.append(")");
            ("Browser tab changed", d)
        },
        BrowserEvent::DownloadCompleted(path) => ("Browser download completed", path),
        BrowserEvent::MediaChanged { playing } => (
            "Browser media changed",
            if playing {
                "playing"
            } else {
                "paused"
            }.to_owned(),
        ),
    };
    LocalEvent { kind: EventKind::Browser, summary: summary.to_owned(), detail }
}

/// Remembers the last known idle state and reports its changes.
#[derive(Debug)]
pub struct IdleWatcher {
    idle: Option<bool>,
}

impl View for IdleWatcher {
    type V = Option<bool>;

    closed spec fn view(&self) -> Option<bool> {
        self.idle
    }
}

impl Default for IdleWatcher {
    fn default() -> (w: IdleWatcher)
        ensures
            w@ is None,
    {
        IdleWatcher { idle: None }
    }
}

/// The session event for a change of the idle state from `previous` to `current`.
pub open spec fn idle_transition(previous: Option<bool>, current: bool) -> Option<SessionEvent> {
    match previous {
        Some(false) => if current {
            Some(SessionEvent::IdleStarted)
        } else {
            None
        },
        Some(true) => if !current {
            Some(SessionEvent::IdleEnded)
        } else {
            None
        },
        None => None,
    }
}

impl IdleWatcher {
    /// Takes the current idle state, when known, and reports a change from the
    /// previous known state.
    pub fn poll(&mut self, idle: Option<bool>) -> (e: Option<SessionEvent>)
        ensures
            match idle {
                None => e is None && final(self)@ == old(self)@,
                Some(current) => e == idle_transition(old(self)@, current) && final(self)@
                    == Some(current),
            },
    {
        let current = match idle {
            Some(c) => c,
            None => return None,
        };
        let previous = self.idle;
        self.idle = Some(current);
        match (previous, current) {
            (Some(false), true) => Some(SessionEvent::IdleStarted),
            (Some(true), false) => Some(SessionEvent::IdleEnded),
            _ => None,
        }
    }

    pub fn is_idle(&self) -> (b: bool)
        ensures
            b == (self@ == Some(true)),
    {
        match self.idle {
            Some(b) => b,
            None => false,
        }
    }
}

/// The event for a lock state read after `previous` (the last one read, if any):
/// the first reading and every change are reported.
pub fn lock_event(previous: Option<bool>, current: bool) -> (e: Option<SessionEvent>)
    ensures
        e == if previous == Some(current) {
            None
        } else if current {
            Some(SessionEvent::Locked)
        } else {
            Some(SessionEvent::Unlocked)
        },
{
    match previous {
        Some(p) if p == current => None,
        _ => if current {
            Some(SessionEvent::Locked)
        } else {
            Some(SessionEvent::Unlocked)
        },
    }
}

/// The session state that `loginctl ... --value` printed: `yes`, `no`, or unknown.
pub open spec fn session_flag(output: Seq<char>) -> Option<bool> {
    if trim(output) == "yes"@ {
        Some(true)
    } else if trim(output) == "no"@ {
        Some(false)
    } else {
        None
    }
}

pub fn parse_session_flag(output: &str) -> (r: Option<bool>)
    ensures
        r == session_flag(output@),
{
    if crate::text::trimmed_eq(output, "yes") {
        Some(true)
    } else if crate::text::trimmed_eq(output, "no") {
        Some(false)
    } else {
        None
    }
}

pub fn session_event(event: SessionEvent) -> (e: LocalEvent)
    ensures
        e.kind == EventKind::Activity,
        e.summary@ == "Session state"@,
        e.detail@ == match event {
            SessionEvent::Locked => "locked"@,
            SessionEvent::Unlocked => "unlocked"@,
            SessionEvent::IdleStarted => "idle"@,
            SessionEvent::IdleEnded => "active"@,
        },
{
    let detail = match event {
        SessionEvent::Locked => "locked",
        SessionEvent::Unlocked => "unlocked",
        SessionEvent::IdleStarted => "idle",
        SessionEvent::IdleEnded => "active",
    };
    LocalEvent {
        kind: EventKind::Activity,
        summary: "Session state".to_owned(),
        detail: detail.to_owned(),
    }
}

pub fn task_event(event: TaskEvent) -> (e: LocalEvent)
    ensures
        e.kind == EventKind::Task,
        match event {
            TaskEvent::Started(n) => e.summary@ == "Task started"@ && e.detail@ == n@,
            TaskEvent::Succeeded(n) => e.summary@ == "Task succeeded"@ && e.detail@ == n@,
            TaskEvent::Failed(n) => e.summary@ == "Task failed"@ && e.detail@ == n@,
        },
{
    let (summary, detail) = match event {
        TaskEvent::Started(name) => ("Task started", name),
        TaskEvent::Succeeded(name) => ("Task succeeded", name),
        TaskEvent::Failed(name) => ("Task failed", name),
    };
    LocalEvent { kind: EventKind::Task, summary: summary.to_owned(), detail }
}

// ---------------------------------------------------------------------------
// Watched directory
// ---------------------------------------------------------------------------
/// What one poll remembers of a file.
#[derive(Debug, Clone, Copy, PartialEq, Eq, Structural)]
pub struct FileState {
    /// Modification time in nanoseconds from the Unix epoch (negative before it).
    pub modified: Option<i128>,
    pub size: u64,
    pub stable_polls: u8,
}

/// One entry of the watched directory, as listed by the caller.
#[derive(Debug, Clone)]
pub struct FileEntry {
    /// The entry's path: the directory joined with the entry's name.
    pub path: String,
    pub is_file: bool,
    /// Modification time in nanoseconds from the Unix epoch, when known.
    pub modified: Option<i128>,
    pub size: u64,
}

/// Index of the last `c` in `s`, or -1.
pub open spec fn last_index_of(s: Seq<char>, c: char) -> int
    decreases s.len(),
{
    if s.len() == 0 {
        -1
    } else if s.last() == c {
        s.len() - 1
    } else {
        last_index_of(s.drop_last(), c)
    }
}

/// The last component of an entry path (after the last `'/'`).
pub open spec fn file_name(path: Seq<char>) -> Seq<char> {
    path.skip(last_index_of(path, '/') + 1)
}

/// `Path::extension` of a file name: the text after the last `'.'`, unless the
/// name has no dot, starts with its only dot, or is `".."`.
pub open spec fn extension(name: Seq<char>) -> Option<Seq<char>> {
    let i = last_index_of(name, '.');
    if name == ".."@ || i <= 0 {
        None
    } else {
        Some(name.skip(i + 1))
    }
}

/// Browsers write partial downloads under these extensions.
pub open spec fn is_partial_path(path: Seq<char>) -> bool {
    match extension(file_name(path)) {
        Some(e) => e == "part"@ || e == "crdownload"@ || e == "tmp"@,
        None => false,
    }
}

fn last_index(v: &Vec<char>, lo: usize, hi: usize, c: char) -> (r: Option<usize>)
    requires
        lo <= hi <= v@.len(),
    ensures
        match r {
            Some(k) => lo <= k < hi && last_index_of(v@.subrange(lo as int, hi as int), c) == k
                - lo,
            None => last_index_of(v@.subrange(lo as int, hi as int), c) == -1,
        },
{
    let mut i = hi;
    while i > lo
        invariant
            lo <= i <= hi <= v@.len(),
            last_index_of(v@.subrange(lo as int, hi as int), c) == last_index_of(
                v@.subrange(lo as int, i as int),
                c,
            ),
        decreases i - lo,
    {
        proof {
            crate::text::lemma_sub_drop_last(v@, lo as int, i as int);
        }
        if v[i - 1] == c {
            return Some(i - 1);
        }
        i = i - 1;
    }
    None
}

/// Whether `path` names a partial download (`.part`, `.crdownload`, `.tmp`).
pub fn is_partial_download(path: &str) -> (b: bool)
    ensures
        b == is_partial_path(path@),
{
    let v = chars_of(path);
    let n = v.len();
    let ghost p = v@;
    assert(v@.subrange(0, n as int) =~= p);
    let start = match last_index(&v, 0, n, '/') {
        Some(k) => k + 1,
        None => 0,
    };
    assert(v@.subrange(start as int, n as int) =~= file_name(p));
    let ghost name = file_name(p);
    let dots = chars_of("..");
    if range_eq(&v, start, n, &dots) {
        return false;
    }
    let dot = match last_index(&v, start, n, '.') {
        Some(k) => k,
        None => return false,
    };
    if dot == start {
        return false;
    }
    proof {
        assert(name.skip(dot - start + 1) =~= v@.subrange(dot + 1, n as int));
    }
    let part = chars_of("part");
    let crdownload = chars_of("crdownload");
    let tmp = chars_of("tmp");
    range_eq(&v, dot + 1, n, &part) || range_eq(&v, dot + 1, n, &crdownload) || range_eq(
        &v,
        dot + 1,
        n,
        &tmp,
    )
}

/// The map that a list of (path, state) pairs stands for; later pairs win.
pub open spec fn pairs_map(v: Seq<(String, FileState)>) -> Map<Seq<char>, FileState>
    decreases v.len(),
{
    if v.len() == 0 {
        Map::empty()
    } else {
        pairs_map(v.drop_last()).insert(v.last().0@, v.last().1)
    }
}

fn lookup(v: &Vec<(String, FileState)>, key: &String) -> (r: Option<FileState>)
    ensures
        match r {
            Some(s) => pairs_map(v@).contains_key(key@) && pairs_map(v@)[key@] == s,
            None => !pairs_map(v@).contains_key(key@),
        },
{
    let mut i = v.len();
    assert(v@.take(v@.len() as int) =~= v@);
    while i > 0
        invariant
            i <= v@.len(),
            pairs_map(v@).contains_key(key@) == pairs_map(v@.take(i as int)).contains_key(key@),
            pairs_map(v@).contains_key(key@) ==> pairs_map(v@)[key@] == pairs_map(
                v@.take(i as int),
            )[key@],
        decreases i,
    {
        proof {
            assert(v@.take(i as int).drop_last() =~= v@.take(i - 1));
            assert(v@.take(i as int).last() == v@[i - 1]);
        }
        if v[i - 1].0 == *key {
            return Some(v[i - 1].1);
        }
        i = i - 1;
    }
    assert(v@.take(0) =~= Seq::<(String, FileState)>::empty());
    None
}

/// The change that a file shows against its previous state.
pub open spec fn file_change(prev: Option<FileState>, e: FileEntry) -> Option<FileEventModel> {
    match prev {
        None => Some(FileEventModel::Created(e.path@)),
        Some(p) => if p.modified != e.modified || p.size != e.size {
            Some(FileEventModel::Modified(e.path@))
        } else if p.stable_polls == 1 {
            Some(FileEventModel::DownloadCompleted(e.path@))
        } else {
            None
        },
    }
}

/// The state remembered for a file after this poll.
pub open spec fn next_file_state(prev: Option<FileState>, e: FileEntry) -> FileState {
    FileState {
        modified: e.modified,
        size: e.size,
        stable_polls: match prev {
            None => 0,
            Some(p) => if p.modified == e.modified && p.size == e.size {
                if p.stable_polls == 255 {
                    255
                } else {
                    (p.stable_polls + 1) as u8
                }
            } else {
                0
            },
        },
    }
}

pub open spec fn previous_state(old: Map<Seq<char>, FileState>, path: Seq<char>) -> Option<
    FileState,
> {
    if old.contains_key(path) {
        Some(old[path])
    } else {
        None
    }
}

/// Regular files that are not partial downloads are watched.
pub open spec fn watched(e: FileEntry) -> bool {
    e.is_file && !is_partial_path(e.path@)
}

/// The events and the new file states of one scan of `entries` against `old`.
pub open spec fn scan(old: Map<Seq<char>, FileState>, entries: Seq<FileEntry>) -> (
    Seq<FileEventModel>,
    Map<Seq<char>, FileState>,
)
    decreases entries.len(),
{
    if entries.len() == 0 {
        (Seq::empty(), Map::empty())
    } else {
        let (events, current) = scan(old, entries.drop_last());
        let e = entries.last();
        if !watched(e) {
            (events, current)
        } else {
            let prev = previous_state(old, e.path@);
            (
                match file_change(prev, e) {
                    Some(x) => events.push(x),
                    None => events,
                },
                current.insert(e.path@, next_file_state(prev, e)),
            )
        }
    }
}

/// The unchanged-poll count of a file that was already present at the first
/// scan: past the count at which a download completes, so that such a file is
/// never reported while it stays unchanged.
pub const SETTLED_POLLS: u8 = 2;

/// `files` with every file marked as settled.
pub open spec fn settled(files: Map<Seq<char>, FileState>) -> Map<Seq<char>, FileState> {
    Map::new(
        |k: Seq<char>| files.contains_key(k),
        |k: Seq<char>| FileState { stable_polls: SETTLED_POLLS, ..files[k] },
    )
}

/// What a `FileWatcher` holds, as the contracts see it.
pub struct FileWatcherModel {
    pub directory: Seq<char>,
    pub files: Map<Seq<char>, FileState>,
    pub primed: bool,
}

/// Polls one user-approved directory. A download completes after two unchanged polls.
pub struct FileWatcher {
    directory: String,
    files: Vec<(String, FileState)>,
    primed: bool,
}

impl View for FileWatcher {
    type V = FileWatcherModel;

    closed spec fn view(&self) -> FileWatcherModel {
        FileWatcherModel {
            directory: self.directory@,
            files: pairs_map(self.files@),
            primed: self.primed,
        }
    }
}

pub open spec fn file_events_view(s: Seq<FileEvent>) -> Seq<FileEventModel> {
    s.map_values(|e: FileEvent| e@)
}

impl FileWatcher {
    pub fn new(directory: String) -> (w: FileWatcher)
        ensures
            w@.directory == directory@,
            w@.files == Map::<Seq<char>, FileState>::empty(),
            !w@.primed,
    {
        FileWatcher { directory, files: Vec::new(), primed: false }
    }

    /// The directory that the caller lists for each poll.
    pub fn directory(&self) -> (d: &str)
        ensures
            d@ == self@.directory,
    {
        self.directory.as_str()
    }

    /// Compares the listing of the directory with the previous one. `None` (the
    /// directory could not be read) changes nothing. The first successful scan
    /// reports nothing and records the files that exist as settled, so they are
    /// reported again only once they change.
    pub fn poll(&mut self, listing: Option<Vec<FileEntry>>) -> (events: Vec<FileEvent>)
        ensures
            match listing {
                None => events@.len() == 0 && final(self)@ == old(self)@,
                Some(entries) => {
                    let (evs, current) = scan(old(self)@.files, entries@);
                    &&& final(self)@.directory == old(self)@.directory
                    &&& final(self)@.files == if old(self)@.primed {
                        current
                    } else {
                        settled(current)
                    }
                    &&& final(self)@.primed
                    &&& file_events_view(events@) == if old(self)@.primed {
                        evs
                    } else {
                        Seq::empty()
                    }
                },
            },
    {
        let entries = match listing {
            Some(e) => e,
            None => return Vec::new(),
        };
        let ghost old_files = pairs_map(self.files@);
        let mut current: Vec<(String, FileState)> = Vec::new();
        let mut events: Vec<FileEvent> = Vec::new();
        let mut i: usize = 0;
        while i < entries.len()
            invariant
                i <= entries@.len(),
                old_files == pairs_map(self.files@),
                old_files == old(self)@.files,
                self.directory == old(self).directory,
                self.primed == old(self).primed,
                ({
                    let (evs, cur) = scan(old_files, entries@.take(i as int));
                    file_events_view(events@) == evs && pairs_map(current@) == if self.primed {
                        cur
                    } else {
                        settled(cur)
                    }
                }),
            decreases entries@.len() - i,
        {
            let entry = &entries[i];
            proof {
                assert(entries@.take(i + 1).drop_last() =~= entries@.take(i as int));
                assert(entries@.take(i + 1).last() == entries@[i as int]);
            }
            let partial = is_partial_download(entry.path.as_str());
            if entry.is_file && !partial {
                let prev = lookup(&self.files, &entry.path);
                assert(prev == previous_state(old_files, entry.path@));
                let ghost old_events = events@;
                match prev {
                    None => {
                        events.push(FileEvent::Created(entry.path.clone()));
                    },
                    Some(p) => {
                        if p.modified != entry.modified || p.size != entry.size {
                            events.push(FileEvent::Modified(entry.path.clone()));
                        } else if p.stable_polls == 1 {
                            events.push(FileEvent::DownloadCompleted(entry.path.clone()));
                        }
                    },
                }
                let stable_polls: u8 = if !self.primed {
                    SETTLED_POLLS
                } else {
                    match prev {
                        None => 0,
                        Some(p) => {
                            if p.modified == entry.modified && p.size == entry.size {
                                p.stable_polls.saturating_add(1)
                            } else {
                                0
                            }
                        },
                    }
                };
                let ghost old_current = current@;
                current.push(
                    (
                        entry.path.clone(),
                        FileState { modified: entry.modified, size: entry.size, stable_polls },
                    ),
                );
                proof {
                    assert(current@.drop_last() =~= old_current);
                    let (_, cur0) = scan(old_files, entries@.take(i as int));
                    let st = next_file_state(prev, *entry);
                    assert(settled(cur0.insert(entry.path@, st)) =~= settled(cur0).insert(
                        entry.path@,
                        FileState { stable_polls: SETTLED_POLLS, ..st },
                    ));
                    assert(file_events_view(events@) =~= match file_change(prev, *entry) {
                        Some(x) => file_events_view(old_events).push(x),
                        None => file_events_view(old_events),
                    });
                }
            }
            i = i + 1;
        }
        assert(entries@.take(entries@.len() as int) =~= entries@);
        self.files = current;
        if !self.primed {
            self.primed = true;
            events = Vec::new();
        }
        events
    }
}

// ---------------------------------------------------------------------------
// Task completion
// ---------------------------------------------------------------------------
/// A source of task start and completion events.
pub trait TaskCompletionAdapter {
    fn poll(&mut self) -> Vec<TaskEvent>;
}

/// What became of a watched child process when it was last checked.
#[derive(Debug, Clone, Copy, PartialEq, Eq, Structural)]
pub enum ChildStatus {
    /// Still running.
    Running,
    /// Exited successfully.
    Succeeded,
    /// Exited with a failure, or its status could not be read.
    Failed,
}

/// Start and completion reporting for a process started through an
/// independently approved action.
pub struct ProcessTask {
    task_name: String,
    reported_started: bool,
    completed: bool,
}

pub struct ProcessTaskModel {
    pub task_name: Seq<char>,
    pub reported_started: bool,
    pub completed: bool,
}

impl View for ProcessTask {
    type V = ProcessTaskModel;

    closed spec fn view(&self) -> ProcessTaskModel {
        ProcessTaskModel {
            task_name: self.task_name@,
            reported_started: self.reported_started,
            completed: self.completed,
        }
    }
}

impl ProcessTask {
    pub fn new(task_name: String) -> (t: ProcessTask)
        ensures
            t@.task_name == task_name@,
            !t@.reported_started,
            !t@.completed,
    {
        ProcessTask { task_name, reported_started: false, completed: false }
    }

    /// Whether the next poll needs the child's exit status.
    pub fn awaits_exit(&self) -> (b: bool)
        ensures
            b == (self@.reported_started && !self@.completed),
    {
        self.reported_started && !self.completed
    }

    /// Reports the start once, then the outcome once; `status` is read only
    /// while `awaits_exit` holds.
    pub fn poll(&mut self, status: ChildStatus) -> (events: Vec<TaskEvent>)
        ensures
            final(self)@.task_name == old(self)@.task_name,
            old(self)@.completed ==> events@.len() == 0 && final(self)@ == old(self)@,
            !old(self)@.completed && !old(self)@.reported_started ==> task_events_view(events@)
                == seq![TaskEventModel::Started(old(self)@.task_name)]
                && final(self)@.reported_started && !final(self)@.completed,
            !old(self)@.completed && old(self)@.reported_started ==> final(self)@.reported_started
                && match status {
                ChildStatus::Running => events@.len() == 0 && !final(self)@.completed,
                ChildStatus::Succeeded => task_events_view(events@) == seq![
                    TaskEventModel::Succeeded(old(self)@.task_name),
                ] && final(self)@.completed,
                ChildStatus::Failed => task_events_view(events@) == seq![
                    TaskEventModel::Failed(old(self)@.task_name),
                ] && final(self)@.completed,
            },
    {
        if self.completed {
            return Vec::new();
        }
        if !self.reported_started {
            self.reported_started = true;
            let mut events = Vec::new();
            events.push(TaskEvent::Started(self.task_name.clone()));
            assert(task_events_view(events@) =~= seq![TaskEventModel::Started(self.task_name@)]);
            return events;
        }
        let mut events = Vec::new();
        match status {
            ChildStatus::Succeeded => {
                self.completed = true;
                events.push(TaskEvent::Succeeded(self.task_name.clone()));
                assert(task_events_view(events@) =~= seq![
                    TaskEventModel::Succeeded(self.task_name@),
                ]);
            },
            ChildStatus::Failed => {
                self.completed = true;
                events.push(TaskEvent::Failed(self.task_name.clone()));
                assert(task_events_view(events@) =~= seq![TaskEventModel::Failed(self.task_name@)]);
            },
            ChildStatus::Running => {},
        }
        events
    }
}

/// The `systemctl --user is-active` state of each watched unit.
pub struct SystemdUnitWatcher {
    units: Vec<(String, Option<String>)>,
}

/// A unit name with its last observed state, as text.
pub open spec fn unit_view(u: (String, Option<String>)) -> (Seq<char>, Option<Seq<char>>) {
    (
        u.0@,
        match u.1 {
            Some(s) => Some(s@),
            None => None,
        },
    )
}

/// The event for a unit whose state changed from `previous` to `current`.
pub open spec fn unit_transition(unit: Seq<char>, previous: Option<Seq<char>>, current: Seq<char>) -> Option<TaskEventModel> {
    if previous == Some("active"@) && current == "inactive"@ {
        Some(TaskEventModel::Succeeded(unit))
    } else if current == "failed"@ && previous != Some("failed"@) {
        Some(TaskEventModel::Failed(unit))
    } else if current == "active"@ && previous != Some("active"@) {
        Some(TaskEventModel::Started(unit))
    } else {
        None
    }
}

/// The states and events after one poll of `units` with `outputs` (the output
/// of `is-active` for each unit, or `None` when it could not be run).
pub open spec fn unit_poll(units: Seq<(Seq<char>, Option<Seq<char>>)>, outputs: Seq<Option<Seq<char>>>) -> (
    Seq<TaskEventModel>,
    Seq<(Seq<char>, Option<Seq<char>>)>,
)
    decreases units.len(),
{
    if units.len() == 0 || outputs.len() == 0 {
        (Seq::empty(), units)
    } else {
        let (events, states) = unit_poll(units.drop_last(), outputs.drop_last());
        let (name, previous) = units.last();
        match outputs.last() {
            None => (events, states.push((name, previous))),
            Some(out) => {
                let current = trim(out);
                (
                    match unit_transition(name, previous, current) {
                        Some(e) => events.push(e),
                        None => events,
                    },
                    states.push((name, Some(current))),
                )
            },
        }
    }
}

impl View for SystemdUnitWatcher {
    type V = Seq<(Seq<char>, Option<Seq<char>>)>;

    closed spec fn view(&self) -> Seq<(Seq<char>, Option<Seq<char>>)> {
        self.units@.map_values(|u: (String, Option<String>)| unit_view(u))
    }
}

/// Names in first-occurrence order, each once.
pub open spec fn distinct_names(names: Seq<Seq<char>>) -> Seq<Seq<char>>
    decreases names.len(),
{
    if names.len() == 0 {
        Seq::empty()
    } else {
        let before = distinct_names(names.drop_last());
        if before.contains(names.last()) {
            before
        } else {
            before.push(names.last())
        }
    }
}

impl SystemdUnitWatcher {
    /// Watches each named unit once, with no state observed yet.
    pub fn new(unit_names: Vec<String>) -> (w: SystemdUnitWatcher)
        ensures
            w@.map_values(|u: (Seq<char>, Option<Seq<char>>)| u.0) == distinct_names(
                unit_names@.map_values(|n: String| n@),
            ),
            forall|i: int| 0 <= i < w@.len() ==> (#[trigger] w@[i]).1 is None,
    {
        let ghost names = unit_names@.map_values(|n: String| n@);
        let mut units: Vec<(String, Option<String>)> = Vec::new();
        let mut i: usize = 0;
        while i < unit_names.len()
            invariant
                i <= unit_names@.len(),
                names == unit_names@.map_values(|n: String| n@),
                units@.map_values(|u: (String, Option<String>)| unit_view(u).0)
                    == distinct_names(names.take(i as int)),
                forall|j: int| 0 <= j < units@.len() ==> (#[trigger] units@[j]).1 is None,
            decreases unit_names@.len() - i,
        {
            let name = &unit_names[i];
            let ghost seen = distinct_names(names.take(i as int));
            proof {
                assert(names.take(i + 1).drop_last() =~= names.take(i as int));
                assert(names.take(i + 1).last() == name@);
            }
            let mut found = false;
            let mut j: usize = 0;
            while j < units.len()
                invariant
                    j <= units@.len(),
                    units@.map_values(|u: (String, Option<String>)| unit_view(u).0) == seen,
                    found == exists|k: int| 0 <= k < j && seen[k] == name@,
                decreases units@.len() - j,
            {
                proof {
                    assert(units@.map_values(|u: (String, Option<String>)| unit_view(u).0)[j as int]
                        == units@[j as int].0@);
                }
                if units[j].0 == *name {
                    found = true;
                }
                j = j + 1;
            }
            proof {
                if seen.contains(name@) {
                    let k = choose|k: int| 0 <= k < seen.len() && seen[k] == name@;
                    assert(found);
                }
                if found {
                    let k = choose|k: int| 0 <= k < j && seen[k] == name@;
                    assert(seen.contains(name@));
                }
            }
            if !found {
                let ghost before = units@;
                units.push((name.clone(), None));
                proof {
                    assert(units@.map_values(|u: (String, Option<String>)| unit_view(u).0)
                        =~= before.map_values(|u: (String, Option<String>)| unit_view(u).0).push(
                        name@,
                    ));
                }
            }
            i = i + 1;
        }
        assert(names.take(unit_names@.len() as int) =~= names);
        let w = SystemdUnitWatcher { units };
        assert(w@.map_values(|u: (Seq<char>, Option<Seq<char>>)| u.0) =~= units@.map_values(
            |u: (String, Option<String>)| unit_view(u).0,
        ));
        w
    }

    /// The watched unit names, in polling order.
    pub fn unit_names(&self) -> (names: Vec<String>)
        ensures
            names@.map_values(|n: String| n@) == self@.map_values(
                |u: (Seq<char>, Option<Seq<char>>)| u.0,
            ),
    {
        let mut names: Vec<String> = Vec::new();
        let mut i: usize = 0;
        while i < self.units.len()
            invariant
                i <= self.units@.len(),
                names@.map_values(|n: String| n@) == self@.map_values(
                    |u: (Seq<char>, Option<Seq<char>>)| u.0,
                ).take(i as int),
            decreases self.units@.len() - i,
        {
            let ghost before = names@;
            names.push(self.units[i].0.clone());
            proof {
                assert(names@.map_values(|n: String| n@) =~= before.map_values(|n: String| n@).push(
                    self.units@[i as int].0@,
                ));
                assert(self@.map_values(|u: (Seq<char>, Option<Seq<char>>)| u.0).take(i + 1)
                    =~= self@.map_values(|u: (Seq<char>, Option<Seq<char>>)| u.0).take(
                    i as int,
                ).push(self.units@[i as int].0@));
            }
            i = i + 1;
        }
        assert(self@.map_values(|u: (Seq<char>, Option<Seq<char>>)| u.0).take(
            self.units@.len() as int,
        ) =~= self@.map_values(|u: (Seq<char>, Option<Seq<char>>)| u.0));
        names
    }

    /// Takes the `is-active` output for each unit in `unit_names` order (`None`
    /// where the command could not run) and reports starts, successes and failures.
    pub fn poll_states(&mut self, outputs: Vec<Option<String>>) -> (events: Vec<TaskEvent>)
        requires
            outputs@.len() == old(self)@.len(),
        ensures
            ({
                let (evs, states) = unit_poll(
                    old(self)@,
                    outputs@.map_values(
                        |o: Option<String>|
                            match o {
                                Some(s) => Some(s@),
                                None => None,
                            },
                    ),
                );
                task_events_view(events@) == evs && final(self)@ == states
            }),
    {
        let ghost outs = outputs@.map_values(
            |o: Option<String>|
                match o {
                    Some(s) => Some(s@),
                    None => None,
                },
        );
        let ghost units0 = self@;
        let mut events: Vec<TaskEvent> = Vec::new();
        let mut i: usize = 0;
        while i < outputs.len()
            invariant
                i <= outputs@.len(),
                outputs@.len() == self.units@.len(),
                units0.len() == self.units@.len(),
                outs == outputs@.map_values(
                    |o: Option<String>|
                        match o {
                            Some(s) => Some(s@),
                            None => None,
                        },
                ),
                ({
                    let (evs, states) = unit_poll(units0.take(i as int), outs.take(i as int));
                    &&& task_events_view(events@) == evs
                    &&& self@.take(i as int) == states
                    &&& self@.skip(i as int) == units0.skip(i as int)
                }),
            decreases outputs@.len() - i,
        {
            proof {
                assert(units0.take(i + 1).drop_last() =~= units0.take(i as int));
                assert(outs.take(i + 1).drop_last() =~= outs.take(i as int));
                assert(units0.take(i + 1).last() == units0[i as int]);
                assert(self@[i as int] == units0[i as int]) by {
                    assert(self@.skip(i as int)[0] == units0.skip(i as int)[0]);
                }
            }
            let ghost before_units = self@;
            let ghost before_events = events@;
            match &outputs[i] {
                None => {
                    proof {
                        assert(self@.take(i + 1) =~= self@.take(i as int).push(self@[i as int]));
                    }
                },
                Some(out) => {
                    let v = chars_of(out.as_str());
                    assert(v@.subrange(0, v@.len() as int) =~= v@);
                    let (a, b) = trim_range(&v, 0, v.len());
                    let current = out.as_str().substring_char(a, b).to_owned();
                    let ghost name = self@[i as int].0;
                    let ghost previous = self@[i as int].1;
                    let event = {
                        let prev = &self.units[i].1;
                        let prev_active = match prev {
                            Some(p) => str_eq(p.as_str(), "active"),
                            None => false,
                        };
                        let prev_failed = match prev {
                            Some(p) => str_eq(p.as_str(), "failed"),
                            None => false,
                        };
                        proof {
                            assert(prev_active == (previous == Some("active"@)));
                            assert(prev_failed == (previous == Some("failed"@)));
                        }
                        let is_inactive = str_eq(current.as_str(), "inactive");
                        let is_failed = str_eq(current.as_str(), "failed");
                        let is_active = str_eq(current.as_str(), "active");
                        if prev_active && is_inactive {
                            Some(TaskEvent::Succeeded(self.units[i].0.clone()))
                        } else if is_failed && !prev_failed {
                            Some(TaskEvent::Failed(self.units[i].0.clone()))
                        } else if is_active && !prev_active {
                            Some(TaskEvent::Started(self.units[i].0.clone()))
                        } else {
                            None
                        }
                    };
                    match event {
                        Some(e) => {
                            events.push(e);
                        },
                        None => {},
                    }
                    let ghost cur = current@;
                    let unit_name = self.units[i].0.clone();
                    self.units.set(i, (unit_name, Some(current)));
                    proof {
                        assert(task_events_view(events@) =~= match unit_transition(
                            name,
                            previous,
                            cur,
                        ) {
                            Some(e) => task_events_view(before_events).push(e),
                            None => task_events_view(before_events),
                        });
                        assert(self@.take(i + 1) =~= before_units.take(i as int).push(
                            (name, Some(cur)),
                        ));
                        assert(self@.skip(i + 1) =~= before_units.skip(i + 1));
                    }
                },
            }
            proof {
                assert(self@.skip(i + 1) =~= units0.skip(i + 1)) by {
                    assert forall|j: int| 0 <= j < units0.len() - (i + 1) implies #[trigger] self@.skip(
                        i + 1,
                    )[j] == units0.skip(i + 1)[j] by {
                        assert(self@.skip(i + 1)[j] == before_units.skip(i as int)[j + 1]);
                        assert(units0.skip(i + 1)[j] == units0.skip(i as int)[j + 1]);
                    }
                }
            }
            i = i + 1;
        }
        assert(units0.take(i as int) =~= units0);
        assert(outs.take(i as int) =~= outs);
        assert(self@.take(i as int) =~= self@);
        events
    }
}

// ---------------------------------------------------------------------------
// Laws
// ---------------------------------------------------------------------------
/// One entry scanned on its own.
pub proof fn lemma_scan_one(old: Map<Seq<char>, FileState>, e: FileEntry)
    ensures
        scan(old, seq![e]) == if !watched(e) {
            (Seq::<FileEventModel>::empty(), Map::<Seq<char>, FileState>::empty())
        } else {
            let prev = previous_state(old, e.path@);
            (
                match file_change(prev, e) {
                    Some(x) => seq![x],
                    None => Seq::<FileEventModel>::empty(),
                },
                Map::<Seq<char>, FileState>::empty().insert(e.path@, next_file_state(prev, e)),
            )
        },
{
    let s = seq![e];
    assert(s.drop_last() =~= Seq::<FileEntry>::empty());
    assert(s.last() == e);
    assert(scan(old, Seq::<FileEntry>::empty()) == (
        Seq::<FileEventModel>::empty(),
        Map::<Seq<char>, FileState>::empty(),
    ));
    assert(Seq::<FileEventModel>::empty().push(FileEventModel::Created(e.path@)) =~= seq![
        FileEventModel::Created(e.path@),
    ]);
    assert(Seq::<FileEventModel>::empty().push(FileEventModel::Modified(e.path@)) =~= seq![
        FileEventModel::Modified(e.path@),
    ]);
    assert(Seq::<FileEventModel>::empty().push(FileEventModel::DownloadCompleted(e.path@))
        =~= seq![FileEventModel::DownloadCompleted(e.path@)]);
}

/// The idle watcher reports only changes: the same state twice reports nothing,
/// and a report always names the new state.
pub proof fn law_idle_only_transitions(previous: Option<bool>, current: bool)
    ensures
        idle_transition(Some(current), current) is None,
        idle_transition(previous, current) == Some(SessionEvent::IdleStarted) ==> previous
            == Some(false) && current,
        idle_transition(previous, current) == Some(SessionEvent::IdleEnded) ==> previous
            == Some(true) && !current,
        previous is None ==> idle_transition(previous, current) is None,
{
}

/// The rules of a unit's state change: succeeded when it goes from active to
/// inactive; failed whenever it enters failed (from any other state, active
/// included); started whenever it enters active; nothing otherwise.
pub proof fn law_unit_transitions(unit: Seq<char>, previous: Option<Seq<char>>, current: Seq<char>)
    ensures
        previous == Some("active"@) && current == "inactive"@ ==> unit_transition(
            unit,
            previous,
            current,
        ) == Some(TaskEventModel::Succeeded(unit)),
        current == "failed"@ && previous != Some("failed"@) ==> unit_transition(
            unit,
            previous,
            current,
        ) == Some(TaskEventModel::Failed(unit)),
        current == "active"@ && previous != Some("active"@) ==> unit_transition(
            unit,
            previous,
            current,
        ) == Some(TaskEventModel::Started(unit)),
        unit_transition(unit, previous, current) is Some ==> (previous == Some("active"@)
            && current == "inactive"@) || (current == "failed"@ && previous != Some("failed"@)) || (
        current == "active"@ && previous != Some("active"@)),
{
    reveal_strlit("active");
    reveal_strlit("inactive");
    reveal_strlit("failed");
    assert("failed"@.len() != "inactive"@.len());
    assert("active"@.len() != "inactive"@.len());
    assert("active"@[0] != "failed"@[0]);
}

/// The state a unit keeps after a poll: the trimmed output, or the previous
/// state when the command could not run.
pub open spec fn next_unit_state(previous: Option<Seq<char>>, output: Option<Seq<char>>) -> Option<Seq<char>> {
    match output {
        Some(o) => Some(trim(o)),
        None => previous,
    }
}

/// The event that one unit's poll gives.
pub open spec fn unit_change(unit: (Seq<char>, Option<Seq<char>>), output: Option<Seq<char>>) -> Option<TaskEventModel> {
    match output {
        Some(o) => unit_transition(unit.0, unit.1, trim(o)),
        None => None,
    }
}

/// A poll of systemd units, unit by unit: each unit keeps its name and moves to
/// its new state (kept where its command could not run); each unit's change
/// (`Succeeded` from active to inactive, `Failed` on entering failed, `Started`
/// on entering active) is reported, and no other event.
pub proof fn law_unit_poll_per_unit(
    units: Seq<(Seq<char>, Option<Seq<char>>)>,
    outputs: Seq<Option<Seq<char>>>,
)
    requires
        outputs.len() == units.len(),
    ensures
        ({
            let (events, states) = unit_poll(units, outputs);
            &&& states.len() == units.len()
            &&& forall|i: int|
                0 <= i < units.len() ==> #[trigger] states[i] == (
                    units[i].0,
                    next_unit_state(units[i].1, outputs[i]),
                )
            &&& forall|i: int|
                0 <= i < units.len() && #[trigger] unit_change(units[i], outputs[i]) is Some
                    ==> events.contains(unit_change(units[i], outputs[i])->0)
            &&& forall|j: int|
                0 <= j < events.len() ==> exists|i: int|
                    0 <= i < units.len() && #[trigger] unit_change(units[i], outputs[i]) == Some(
                        #[trigger] events[j],
                    )
        }),
    decreases units.len(),
{
    if units.len() > 0 {
        let us = units.drop_last();
        let os = outputs.drop_last();
        law_unit_poll_per_unit(us, os);
        let (events0, states0) = unit_poll(us, os);
        let (events, states) = unit_poll(units, outputs);
        let n = units.len() - 1;
        assert(forall|i: int| 0 <= i < n ==> us[i] == units[i] && os[i] == outputs[i]);
        assert forall|i: int| 0 <= i < units.len() implies #[trigger] states[i] == (
            units[i].0,
            next_unit_state(units[i].1, outputs[i]),
        ) by {
            if i < n {
                assert(states0[i] == (us[i].0, next_unit_state(us[i].1, os[i])));
            }
        }
        assert(forall|j: int| 0 <= j < events0.len() ==> events[j] == events0[j]);
        assert forall|i: int|
            0 <= i < units.len() && #[trigger] unit_change(units[i], outputs[i]) is Some implies events.contains(
            unit_change(units[i], outputs[i])->0,
        ) by {
            if i < n {
                assert(unit_change(us[i], os[i]) is Some);
                let x = unit_change(us[i], os[i])->0;
                assert(events0.contains(x));
                let k = choose|k: int| 0 <= k < events0.len() && events0[k] == x;
                assert(events[k] == x);
            } else {
                assert(events[events.len() - 1] == unit_change(units[i], outputs[i])->0);
            }
        }
        assert forall|j: int| 0 <= j < events.len() implies exists|i: int|
            0 <= i < units.len() && #[trigger] unit_change(units[i], outputs[i]) == Some(
                #[trigger] events[j],
            ) by {
            if j < events0.len() {
                let i = choose|i: int|
                    0 <= i < us.len() && #[trigger] unit_change(us[i], os[i]) == Some(events0[j]);
                assert(unit_change(units[i], outputs[i]) == Some(events[j]));
            } else {
                assert(unit_change(units[n], outputs[n]) == Some(events[j]));
            }
        }
    }
}

/// The file an event names.
pub open spec fn event_path(e: FileEventModel) -> Seq<char> {
    match e {
        FileEventModel::Created(p) => p,
        FileEventModel::Modified(p) => p,
        FileEventModel::DownloadCompleted(p) => p,
    }
}

/// No two entries of a listing name the same path.
pub open spec fn distinct_paths(entries: Seq<FileEntry>) -> bool {
    forall|i: int, j: int|
        0 <= i < j < entries.len() ==> #[trigger] entries[i].path@ != #[trigger] entries[j].path@
}

/// The change an entry shows against the remembered states.
pub open spec fn entry_change(old: Map<Seq<char>, FileState>, e: FileEntry) -> Option<FileEventModel> {
    file_change(previous_state(old, e.path@), e)
}

/// Whether `x` is the change that entry `e` shows.
pub open spec fn reports(old: Map<Seq<char>, FileState>, e: FileEntry, x: FileEventModel) -> bool {
    entry_change(old, e) == Some(x)
}

/// Whether `x` is the change of some watched entry of `entries`.
pub open spec fn from_some_entry(old: Map<Seq<char>, FileState>, entries: Seq<FileEntry>, x: FileEventModel) -> bool {
    exists|i: int| 0 <= i < entries.len() && watched(entries[i]) && #[trigger] reports(old, entries[i], x)
}

/// A scan of a listing, file by file: each watched file (a regular file that is
/// not a partial download) is remembered with its new state, and nothing else is;
/// each watched file's change (created when new, modified when its size or time
/// changed, completed after its second unchanged poll) is reported, no other
/// event, and at most one event per file.
pub proof fn law_scan_per_file(old: Map<Seq<char>, FileState>, entries: Seq<FileEntry>)
    requires
        distinct_paths(entries),
    ensures
        ({
            let (events, current) = scan(old, entries);
            &&& forall|i: int|
                0 <= i < entries.len() && watched(#[trigger] entries[i]) ==> current.contains_key(
                    entries[i].path@,
                ) && current[entries[i].path@] == next_file_state(
                    previous_state(old, entries[i].path@),
                    entries[i],
                )
            &&& forall|p: Seq<char>|
                #[trigger] current.contains_key(p) ==> exists|i: int|
                    0 <= i < entries.len() && watched(#[trigger] entries[i]) && entries[i].path@
                        == p
            &&& forall|i: int|
                0 <= i < entries.len() && watched(#[trigger] entries[i]) && entry_change(
                    old,
                    entries[i],
                ) is Some ==> events.contains(entry_change(old, entries[i])->0)
            &&& forall|j: int|
                0 <= j < events.len() ==> #[trigger] from_some_entry(old, entries, events[j])
            &&& forall|j: int, k: int|
                0 <= j < k < events.len() ==> event_path(#[trigger] events[j]) != event_path(
                    #[trigger] events[k],
                )
        }),
    decreases entries.len(),
{
    if entries.len() > 0 {
        let es = entries.drop_last();
        let n = entries.len() - 1;
        let e = entries.last();
        assert(forall|i: int| 0 <= i < n ==> es[i] == entries[i]);
        assert(distinct_paths(es)) by {
            assert forall|i: int, j: int| 0 <= i < j < es.len() implies #[trigger] es[i].path@
                != #[trigger] es[j].path@ by {
                assert(entries[i].path@ != entries[j].path@);
            }
        }
        law_scan_per_file(old, es);
        let (events0, current0) = scan(old, es);
        let (events, current) = scan(old, entries);
        assert(entries[n] == e);
        assert(forall|i: int| 0 <= i < n ==> entries[i].path@ != e.path@) by {
            assert forall|i: int| 0 <= i < n implies entries[i].path@ != e.path@ by {
                assert(entries[i].path@ != entries[n].path@);
            }
        }
        if !watched(e) {
            assert(events == events0 && current == current0);
            assert forall|i: int|
                0 <= i < entries.len() && watched(#[trigger] entries[i]) implies current.contains_key(
                entries[i].path@,
            ) && current[entries[i].path@] == next_file_state(
                previous_state(old, entries[i].path@),
                entries[i],
            ) by {
                assert(i < n);
                assert(watched(es[i]));
            }
            assert forall|i: int|
                0 <= i < entries.len() && watched(#[trigger] entries[i]) && entry_change(
                    old,
                    entries[i],
                ) is Some implies events.contains(entry_change(old, entries[i])->0) by {
                assert(i < n);
                assert(watched(es[i]));
            }
            assert forall|j: int, k: int| 0 <= j < k < events.len() implies event_path(
                #[trigger] events[j],
            ) != event_path(#[trigger] events[k]) by {
                assert(events0[j] == events[j] && events0[k] == events[k]);
            }
            assert forall|p: Seq<char>| #[trigger] current.contains_key(p) implies exists|i: int|
                0 <= i < entries.len() && watched(#[trigger] entries[i]) && entries[i].path@
                    == p by {
                let i = choose|i: int|
                    0 <= i < es.len() && watched(#[trigger] es[i]) && es[i].path@ == p;
                assert(entries[i] == es[i]);
            }
            assert forall|j: int| 0 <= j < events.len() implies #[trigger] from_some_entry(
                old,
                entries,
                events[j],
            ) by {
                assert(from_some_entry(old, es, events0[j]));
                let i = choose|i: int|
                    0 <= i < es.len() && watched(es[i]) && #[trigger] reports(old, es[i], events0[j]);
                assert(entries[i] == es[i]);
                assert(watched(entries[i]) && reports(old, entries[i], events[j]));
            }
        } else {
            let prev = previous_state(old, e.path@);
            assert forall|i: int|
                0 <= i < entries.len() && watched(#[trigger] entries[i]) implies current.contains_key(
                entries[i].path@,
            ) && current[entries[i].path@] == next_file_state(
                previous_state(old, entries[i].path@),
                entries[i],
            ) by {
                if i < n {
                    assert(watched(es[i]));
                }
            }
            assert forall|p: Seq<char>| #[trigger] current.contains_key(p) implies exists|i: int|
                0 <= i < entries.len() && watched(#[trigger] entries[i]) && entries[i].path@
                    == p by {
                if p != e.path@ {
                    assert(current0.contains_key(p));
                    let i = choose|i: int|
                        0 <= i < es.len() && watched(#[trigger] es[i]) && es[i].path@ == p;
                    assert(entries[i] == es[i]);
                } else {
                    assert(watched(entries[n]));
                }
            }
            assert(forall|j: int| 0 <= j < events0.len() ==> events[j] == events0[j]);
            assert forall|i: int|
                0 <= i < entries.len() && watched(#[trigger] entries[i]) && entry_change(
                    old,
                    entries[i],
                ) is Some implies events.contains(entry_change(old, entries[i])->0) by {
                if i < n {
                    assert(watched(es[i]));
                    let x = entry_change(old, es[i])->0;
                    assert(events0.contains(x));
                    let k = choose|k: int| 0 <= k < events0.len() && events0[k] == x;
                    assert(events[k] == x);
                } else {
                    assert(events[events.len() - 1] == entry_change(old, e)->0);
                }
            }
            assert forall|j: int| 0 <= j < events.len() implies #[trigger] from_some_entry(
                old,
                entries,
                events[j],
            ) by {
                if j < events0.len() {
                    assert(from_some_entry(old, es, events0[j]));
                    let i = choose|i: int|
                        0 <= i < es.len() && watched(es[i]) && #[trigger] reports(old, es[i], events0[j]);
                    assert(entries[i] == es[i]);
                    assert(watched(entries[i]) && reports(old, entries[i], events[j]));
                } else {
                    assert(watched(entries[n]));
                    assert(reports(old, entries[n], events[j]));
                }
            }
            assert forall|j: int, k: int| 0 <= j < k < events.len() implies event_path(
                #[trigger] events[j],
            ) != event_path(#[trigger] events[k]) by {
                if k >= events0.len() {
                    assert(from_some_entry(old, es, events0[j]));
                    let i = choose|i: int|
                        0 <= i < es.len() && watched(es[i]) && #[trigger] reports(old, es[i], events0[j]);
                    assert(event_path(events0[j]) == es[i].path@);
                    assert(event_path(events[k]) == e.path@);
                    assert(entries[i] == es[i]);
                } else {
                    assert(events[j] == events0[j] && events[k] == events0[k]);
                }
            }
        }
    } else {
        assert(scan(old, entries).0 =~= Seq::<FileEventModel>::empty());
    }
}

/// In a whole listing, a settled file that stays unchanged is named by no event
/// and stays settled; with `law_first_scan_settles`, a file present at the first
/// scan is never reported while it stays unchanged, at any later poll.
pub proof fn law_settled_files_stay_quiet_in_listing(
    old: Map<Seq<char>, FileState>,
    entries: Seq<FileEntry>,
    i: int,
)
    requires
        distinct_paths(entries),
        0 <= i < entries.len(),
        watched(entries[i]),
        old.contains_key(entries[i].path@),
        old[entries[i].path@].stable_polls >= SETTLED_POLLS,
        old[entries[i].path@].modified == entries[i].modified,
        old[entries[i].path@].size == entries[i].size,
    ensures
        ({
            let (events, current) = scan(old, entries);
            &&& forall|j: int| 0 <= j < events.len() ==> event_path(#[trigger] events[j]) != entries[i].path@
            &&& current[entries[i].path@].stable_polls >= SETTLED_POLLS
            &&& current[entries[i].path@].modified == entries[i].modified
            &&& current[entries[i].path@].size == entries[i].size
        }),
{
    law_scan_per_file(old, entries);
    let (events, current) = scan(old, entries);
    assert(watched(entries[i]));
    assert(entry_change(old, entries[i]) is None);
    assert forall|j: int| 0 <= j < events.len() implies event_path(#[trigger] events[j])
        != entries[i].path@ by {
        assert(from_some_entry(old, entries, events[j]));
        let k = choose|k: int|
            0 <= k < entries.len() && watched(entries[k]) && #[trigger] reports(old, entries[k], events[j]);
        assert(event_path(events[j]) == entries[k].path@);
        if k != i {
            if k < i {
                assert(entries[k].path@ != entries[i].path@);
            } else {
                assert(entries[i].path@ != entries[k].path@);
            }
        }
    }
}

/// A new file is reported as created; after one unchanged poll it is reported as
/// a completed download on the next unchanged poll, and then it is settled: by
/// `law_settled_file_stays_quiet`, no later poll reports it while it stays
/// unchanged.
pub proof fn law_download_completes_after_two_unchanged_polls(
    old: Map<Seq<char>, FileState>,
    e: FileEntry,
)
    requires
        watched(e),
        !old.contains_key(e.path@),
    ensures
        ({
            let (ev1, m1) = scan(old, seq![e]);
            let (ev2, m2) = scan(m1, seq![e]);
            let (ev3, m3) = scan(m2, seq![e]);
            let (ev4, m4) = scan(m3, seq![e]);
            &&& ev1 == seq![FileEventModel::Created(e.path@)]
            &&& ev2 == Seq::<FileEventModel>::empty()
            &&& ev3 == seq![FileEventModel::DownloadCompleted(e.path@)]
            &&& ev4 == Seq::<FileEventModel>::empty()
            &&& m3[e.path@].stable_polls >= SETTLED_POLLS
            &&& m3[e.path@].modified == e.modified && m3[e.path@].size == e.size
        }),
{
    let s = seq![e];
    lemma_scan_one(old, e);
    let (ev1, m1) = scan(old, s);
    lemma_scan_one(m1, e);
    let (ev2, m2) = scan(m1, s);
    lemma_scan_one(m2, e);
    let (ev3, m3) = scan(m2, s);
    lemma_scan_one(m3, e);
}

/// A file that changes between polls is reported as modified, and its wait for
/// completion starts over.
pub proof fn law_changed_file_is_modified(old: Map<Seq<char>, FileState>, e: FileEntry)
    requires
        watched(e),
        old.contains_key(e.path@),
        old[e.path@].modified != e.modified || old[e.path@].size != e.size,
    ensures
        scan(old, seq![e]).0 == seq![FileEventModel::Modified(e.path@)],
        scan(old, seq![e]).1[e.path@].stable_polls == 0,
{
    lemma_scan_one(old, e);
}

/// A file recorded at the first scan is settled.
pub proof fn law_first_scan_settles(first: Map<Seq<char>, FileState>, path: Seq<char>)
    requires
        first.contains_key(path),
    ensures
        settled(first).contains_key(path),
        settled(first)[path].stable_polls == SETTLED_POLLS,
        settled(first)[path].modified == first[path].modified,
        settled(first)[path].size == first[path].size,
{
}

/// A settled file is not reported while it stays unchanged, and stays settled, so
/// a file present at the first scan is never reported as a download unless it
/// changes.
pub proof fn law_settled_file_stays_quiet(old: Map<Seq<char>, FileState>, e: FileEntry)
    requires
        watched(e),
        old.contains_key(e.path@),
        old[e.path@].stable_polls >= SETTLED_POLLS,
        old[e.path@].modified == e.modified,
        old[e.path@].size == e.size,
    ensures
        ({
            let (events, next) = scan(old, seq![e]);
            &&& events == Seq::<FileEventModel>::empty()
            &&& next[e.path@].stable_polls >= SETTLED_POLLS
            &&& next[e.path@].modified == e.modified
            &&& next[e.path@].size == e.size
        }),
{
    lemma_scan_one(old, e);
}

/// Partial downloads and directories are neither reported nor remembered.
pub proof fn law_unwatched_entries_are_ignored(old: Map<Seq<char>, FileState>, e: FileEntry)
    requires
        !e.is_file || is_partial_path(e.path@),
    ensures
        scan(old, seq![e]).0 == Seq::<FileEventModel>::empty(),
        scan(old, seq![e]).1 == Map::<Seq<char>, FileState>::empty(),
{
    lemma_scan_one(old, e);
}

} // verus!
