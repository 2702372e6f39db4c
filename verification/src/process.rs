//! The bookkeeping of managed child processes.
//!
//! Every process is known by its `(project, app, subcommand)` key.  The
//! table records, for each key, the status, the PID and the generation
//! id the process was started under; generation ids are handed out in
//! increasing order, so a newer start always carries a larger id.
use vstd::prelude::*;
use crate::text::text_eq;

verus! {

/// Status of a managed child process.
#[derive(Debug, Clone, Copy, PartialEq, Eq, Structural)]
pub enum ProcessStatus {
    /// Not running.
    Stopped,
    /// Spawn requested, waiting for first output or timeout.
    Starting,
    /// Running and producing output.
    Running,
    /// Stop requested, waiting for graceful shutdown.
    Stopping,
    /// Exited with a non-zero code (and not from SIGTERM).
    Crashed,
}

/// The lower-case name a status is shown by.
pub open spec fn status_text(s: ProcessStatus) -> Seq<char> {
    match s {
        ProcessStatus::Stopped => "stopped"@,
        ProcessStatus::Starting => "starting"@,
        ProcessStatus::Running => "running"@,
        ProcessStatus::Stopping => "stopping"@,
        ProcessStatus::Crashed => "crashed"@,
    }
}

/// A status counts as live while the process is starting or running.
pub open spec fn is_live(s: ProcessStatus) -> bool {
    s == ProcessStatus::Running || s == ProcessStatus::Starting
}

impl ProcessStatus {
    /// The status's lower-case name.
    pub fn as_str(&self) -> (r: &'static str)
        ensures
            r@ == status_text(*self),
    {
        match self {
            ProcessStatus::Stopped => "stopped",
            ProcessStatus::Starting => "starting",
            ProcessStatus::Running => "running",
            ProcessStatus::Stopping => "stopping",
            ProcessStatus::Crashed => "crashed",
        }
    }

    /// Whether the process is starting or running.
    pub fn is_live(&self) -> (r: bool)
        ensures
            r == is_live(*self),
    {
        match self {
            ProcessStatus::Running | ProcessStatus::Starting => true,
            _ => false,
        }
    }
}

/// The key a process is known by: project, app and subcommand names.
pub type Key = (Seq<char>, Seq<char>, Seq<char>);

/// Static metadata about a process.
#[derive(Debug)]
pub struct ProcessInfo {
    pub project: String,
    pub app: String,
    pub subcommand: String,
    pub status: ProcessStatus,
    pub pid: Option<u32>,
    pub generation_id: u64,
}

/// A process's metadata with its names as character sequences.
pub struct InfoView {
    pub project: Seq<char>,
    pub app: Seq<char>,
    pub subcommand: Seq<char>,
    pub status: ProcessStatus,
    pub pid: Option<u32>,
    pub generation_id: u64,
}

impl View for ProcessInfo {
    type V = InfoView;

    open spec fn view(&self) -> InfoView {
        InfoView {
            project: self.project@,
            app: self.app@,
            subcommand: self.subcommand@,
            status: self.status,
            pid: self.pid,
            generation_id: self.generation_id,
        }
    }
}

impl ProcessInfo {
    /// A copy of this record.
    pub fn duplicate(&self) -> (r: ProcessInfo)
        ensures
            r@ == self@,
    {
        ProcessInfo {
            project: self.project.clone(),
            app: self.app.clone(),
            subcommand: self.subcommand.clone(),
            status: self.status,
            pid: self.pid,
            generation_id: self.generation_id,
        }
    }
}

/// Notification that a terminal screen has changed and should be redrawn.
#[derive(Debug, Clone)]
pub struct ScreenUpdate {
    pub project: String,
    pub app: String,
    pub subcommand: String,
    pub generation_id: u64,
}

/// Lifecycle events emitted by the process manager.
#[derive(Debug, Clone)]
pub enum StateEvent {
    Started { project: String, app: String, subcommand: String },
    Stopped { project: String, app: String, subcommand: String },
    Crashed { project: String, app: String, subcommand: String },
    Screen(ScreenUpdate),
}

/// Mouse-related DEC private modes the emulator has enabled for a child.
#[derive(Debug, Clone, Copy, PartialEq, Eq, Structural)]
pub struct MouseModes {
    /// Mode 1000: report button presses.
    pub report_click: bool,
    /// Mode 1002: report motion while a button is held.
    pub drag: bool,
    /// Mode 1003: report all motion.
    pub motion: bool,
    /// Mode 1006: SGR extended coordinates.
    pub sgr: bool,
    /// Mode 1007: wheel becomes arrow keys on the alternate screen.
    pub alternate_scroll: bool,
}

impl MouseModes {
    /// All modes off: what an unknown process reports.
    pub fn none() -> (m: MouseModes)
        ensures
            !m.report_click && !m.drag && !m.motion && !m.sgr && !m.alternate_scroll,
    {
        MouseModes { report_click: false, drag: false, motion: false, sgr: false, alternate_scroll: false }
    }

    /// Whether the child asked for any kind of mouse reporting.
    pub fn reporting(&self) -> (r: bool)
        ensures
            r == (self.report_click || self.drag || self.motion),
    {
        self.report_click || self.drag || self.motion
    }
}

/// The key of a record.
pub open spec fn ikey(v: InfoView) -> Key {
    (v.project, v.app, v.subcommand)
}

/// The views of a list of records.
pub open spec fn info_views(s: Seq<ProcessInfo>) -> Seq<InfoView> {
    s.map_values(|e: ProcessInfo| e@)
}

/// No key occurs twice.
pub open spec fn distinct_rows(s: Seq<InfoView>) -> bool {
    forall|i: int, j: int| 0 <= i < j < s.len() ==> ikey(s[i]) != ikey(s[j])
}

/// The map from keys to records that a list without repeated keys stands for.
pub open spec fn rows_map(s: Seq<InfoView>) -> Map<Key, InfoView>
    decreases s.len(),
{
    if s.len() == 0 {
        Map::empty()
    } else {
        rows_map(s.drop_last()).insert(ikey(s.last()), s.last())
    }
}

/// A key is in the map exactly when some row has it.
pub proof fn lemma_rows_map_dom(s: Seq<InfoView>, k: Key)
    ensures
        rows_map(s).contains_key(k) <==> exists|i: int| 0 <= i < s.len() && ikey(s[i]) == k,
    decreases s.len(),
{
    if s.len() > 0 {
        lemma_rows_map_dom(s.drop_last(), k);
        if rows_map(s.drop_last()).contains_key(k) {
            let i = choose|i: int| 0 <= i < s.drop_last().len() && ikey(s.drop_last()[i]) == k;
            assert(ikey(s[i]) == k);
        }
        if exists|i: int| 0 <= i < s.len() && ikey(s[i]) == k {
            let i = choose|i: int| 0 <= i < s.len() && ikey(s[i]) == k;
            if i < s.len() - 1 {
                assert(ikey(s.drop_last()[i]) == k);
            }
        }
    }
}

/// In a list without repeated keys, the map gives each row under its key.
pub proof fn lemma_rows_map_at(s: Seq<InfoView>, i: int)
    requires
        distinct_rows(s),
        0 <= i < s.len(),
    ensures
        rows_map(s).contains_key(ikey(s[i])),
        rows_map(s)[ikey(s[i])] == s[i],
    decreases s.len(),
{
    if i < s.len() - 1 {
        assert(distinct_rows(s.drop_last()));
        lemma_rows_map_at(s.drop_last(), i);
        assert(ikey(s[i]) != ikey(s.last()));
    }
}

/// Dropping a row drops its key from the map.
pub proof fn lemma_rows_map_remove(s: Seq<InfoView>, i: int)
    requires
        distinct_rows(s),
        0 <= i < s.len(),
    ensures
        rows_map(s.remove(i)) == rows_map(s).remove(ikey(s[i])),
        distinct_rows(s.remove(i)),
    decreases s.len(),
{
    let k = ikey(s[i]);
    let d = s.drop_last();
    assert(distinct_rows(d));
    if i == s.len() - 1 {
        assert(s.remove(i) =~= d);
        if rows_map(d).contains_key(k) {
            lemma_rows_map_dom(d, k);
            let j = choose|j: int| 0 <= j < d.len() && ikey(d[j]) == k;
            assert(ikey(s[j]) == k);
        }
        assert(rows_map(s).remove(k) =~= rows_map(d));
    } else {
        lemma_rows_map_remove(d, i);
        let r = s.remove(i);
        assert(r.drop_last() =~= d.remove(i));
        assert(r.last() == s.last());
        assert(ikey(s.last()) != k);
        assert(rows_map(r) =~= rows_map(s).remove(k));
    }
}

/// A new key pushed onto a list keeps it free of repeats.
pub proof fn lemma_rows_push(s: Seq<InfoView>, v: InfoView)
    requires
        distinct_rows(s),
        !rows_map(s).contains_key(ikey(v)),
    ensures
        distinct_rows(s.push(v)),
        rows_map(s.push(v)) == rows_map(s).insert(ikey(v), v),
{
    assert(s.push(v).drop_last() =~= s);
    assert forall|i: int, j: int| 0 <= i < j < s.push(v).len()
        implies ikey(s.push(v)[i]) != ikey(s.push(v)[j]) by {
        if j == s.len() {
            lemma_rows_map_dom(s, ikey(v));
            assert(ikey(s[i]) != ikey(v));
        }
    }
}

/// A start recorded under the generation id handed out last carries the
/// largest generation of the table: every other process is older.
pub proof fn law_newest_generation(before: Map<Key, InfoView>, g: u64, k: Key, v: InfoView)
    requires
        forall|x: Key| before.contains_key(x) ==> #[trigger] before[x].generation_id < g,
        v.generation_id == g,
    ensures
        forall|x: Key| #[trigger] before.insert(k, v).contains_key(x) && x != k
            ==> before.insert(k, v)[x].generation_id < before.insert(k, v)[k].generation_id,
{
}

/// The record of a process just spawned under key `k`.
pub open spec fn started_info(k: Key, pid: u32, g: u64) -> InfoView {
    InfoView { project: k.0, app: k.1, subcommand: k.2, status: ProcessStatus::Starting, pid: Some(pid), generation_id: g }
}

/// Two starts in turn, each recorded under the generation that
/// `begin_start` handed out for it (the next one of the table, then that
/// plus one): the later start has the larger generation, its record is
/// `Starting` under that generation, and every other process, the earlier
/// start's among them, is older. The next generation must leave room for
/// both ids below `u64::MAX`.
pub proof fn law_later_start_is_newer(m0: Map<Key, InfoView>, next: u64, k1: Key, pid1: u32, k2: Key, pid2: u32)
    requires
        forall|x: Key| m0.contains_key(x) ==> #[trigger] m0[x].generation_id < next,
        next < u64::MAX - 1,
    ensures
        ({
            let g1 = next;
            let g2 = (next + 1) as u64;
            let m1 = m0.insert(k1, started_info(k1, pid1, g1));
            let m2 = m1.insert(k2, started_info(k2, pid2, g2));
            &&& g1 < g2
            &&& m2.contains_key(k2)
            &&& m2[k2].status == ProcessStatus::Starting
            &&& m2[k2].generation_id == g2
            &&& forall|x: Key| #[trigger] m2.contains_key(x) && x != k2 ==> m2[x].generation_id < g2
        }),
{
}

/// Removing a key leaves no record under it and the others untouched.
pub proof fn law_remove_forgets(before: Map<Key, InfoView>, k: Key, other: Key)
    requires
        other != k,
    ensures
        !before.remove(k).contains_key(k),
        before.remove(k).contains_key(other) == before.contains_key(other),
        before.contains_key(other) ==> before.remove(k)[other] == before[other],
{
}

/// The processes known to a manager, by key.
#[derive(Debug)]
pub struct ProcessTable {
    entries: Vec<ProcessInfo>,
    next_generation_id: u64,
}

impl View for ProcessTable {
    type V = Map<Key, InfoView>;

    closed spec fn view(&self) -> Map<Key, InfoView> {
        rows_map(info_views(self.entries@))
    }
}

impl ProcessTable {
    /// The generation id the next start will be given.
    pub closed spec fn next_generation(&self) -> u64 {
        self.next_generation_id
    }

    /// No key twice, every recorded generation below the next one, and the
    /// first generation handed out is 1.
    pub closed spec fn wf(&self) -> bool {
        &&& distinct_rows(info_views(self.entries@))
        &&& self.next_generation_id >= 1
        &&& forall|i: int| 0 <= i < self.entries@.len()
            ==> #[trigger] self.entries@[i].generation_id < self.next_generation_id
    }

    /// Every recorded generation is below the next one.
    pub proof fn lemma_generations_below(&self, k: Key)
        requires
            self.wf(),
            self@.contains_key(k),
        ensures
            self@[k].generation_id < self.next_generation(),
    {
        let s = info_views(self.entries@);
        lemma_rows_map_dom(s, k);
        let i = choose|i: int| 0 <= i < s.len() && ikey(s[i]) == k;
        lemma_rows_map_at(s, i);
        assert(self.entries@[i].generation_id < self.next_generation_id);
    }

    /// An empty table whose first start gets generation 1.
    pub fn new() -> (t: ProcessTable)
        ensures
            t.wf(),
            t@ == Map::<Key, InfoView>::empty(),
            t.next_generation() == 1,
    {
        let t = ProcessTable { entries: Vec::new(), next_generation_id: 1 };
        assert(info_views(t.entries@) =~= Seq::<InfoView>::empty());
        t
    }

    /// The generation id the next start will be given.
    pub fn next_generation_id(&self) -> (g: u64)
        ensures
            g == self.next_generation(),
    {
        self.next_generation_id
    }

    /// The index of the record with the given key.
    fn find(&self, project: &str, app: &str, subcommand: &str) -> (r: Option<usize>)
        requires
            self.wf(),
        ensures
            match r {
                Some(i) => i < self.entries@.len() && ikey(self.entries@[i as int]@) == (project@, app@, subcommand@),
                None => !self@.contains_key((project@, app@, subcommand@)),
            },
    {
        let ghost k = (project@, app@, subcommand@);
        let mut i: usize = 0;
        while i < self.entries.len()
            invariant
                i <= self.entries@.len(),
                k == (project@, app@, subcommand@),
                forall|j: int| 0 <= j < i ==> ikey(#[trigger] self.entries@[j]@) != k,
            decreases self.entries@.len() - i,
        {
            let e = &self.entries[i];
            if text_eq(e.project.as_str(), project) && text_eq(e.app.as_str(), app)
                && text_eq(e.subcommand.as_str(), subcommand) {
                return Some(i);
            }
            i = i + 1;
        }
        proof {
            let s = info_views(self.entries@);
            lemma_rows_map_dom(s, k);
            if self@.contains_key(k) {
                let j = choose|j: int| 0 <= j < s.len() && ikey(s[j]) == k;
                assert(ikey(self.entries@[j]@) == k);
            }
        }
        None
    }

    /// Whether a process is recorded under the key.
    pub fn contains(&self, project: &str, app: &str, subcommand: &str) -> (r: bool)
        requires
            self.wf(),
        ensures
            r == self@.contains_key((project@, app@, subcommand@)),
    {
        match self.find(project, app, subcommand) {
            Some(i) => {
                proof {
                    lemma_rows_map_at(info_views(self.entries@), i as int);
                }
                true
            },
            None => false,
        }
    }

    /// The record under the key, if any.
    pub fn get_info(&self, project: &str, app: &str, subcommand: &str) -> (r: Option<ProcessInfo>)
        requires
            self.wf(),
        ensures
            match r {
                Some(info) => self@.contains_key((project@, app@, subcommand@))
                    && info@ == self@[(project@, app@, subcommand@)],
                None => !self@.contains_key((project@, app@, subcommand@)),
            },
    {
        match self.find(project, app, subcommand) {
            Some(i) => {
                proof {
                    lemma_rows_map_at(info_views(self.entries@), i as int);
                }
                Some(self.entries[i].duplicate())
            },
            None => None,
        }
    }

    /// Every record, each key once, in no particular order.
    pub fn list(&self) -> (r: Vec<ProcessInfo>)
        requires
            self.wf(),
        ensures
            distinct_rows(info_views(r@)),
            rows_map(info_views(r@)) == self@,
    {
        let mut out: Vec<ProcessInfo> = Vec::new();
        let mut i: usize = 0;
        while i < self.entries.len()
            invariant
                i <= self.entries@.len(),
                info_views(out@) == info_views(self.entries@).take(i as int),
            decreases self.entries@.len() - i,
        {
            let d = self.entries[i].duplicate();
            let ghost prev = out@;
            out.push(d);
            proof {
                assert(out@ == prev.push(d));
                assert(info_views(out@) =~= info_views(prev).push(d@));
                assert(info_views(self.entries@).take(i + 1) =~= info_views(self.entries@).take(i as int).push(
                    self.entries@[i as int]@,
                ));
            }
            i = i + 1;
        }
        assert(info_views(self.entries@).take(self.entries@.len() as int) =~= info_views(self.entries@));
        out
    }

    /// Hands out the next generation id.
    pub fn begin_start(&mut self) -> (g: u64)
        requires
            old(self).wf(),
            old(self).next_generation() < u64::MAX,
        ensures
            final(self).wf(),
            g == old(self).next_generation(),
            final(self).next_generation() == g + 1,
            final(self)@ == old(self)@,
            forall|k: Key| old(self)@.contains_key(k) ==> #[trigger] old(self)@[k].generation_id < g,
    {
        proof {
            assert forall|k: Key| old(self)@.contains_key(k) implies #[trigger] old(self)@[k].generation_id
                < old(self).next_generation() by {
                old(self).lemma_generations_below(k);
            }
        }
        let g = self.next_generation_id;
        self.next_generation_id = g + 1;
        g
    }

    /// Drops the record under the key, if any.
    pub fn remove(&mut self, project: &str, app: &str, subcommand: &str)
        requires
            old(self).wf(),
        ensures
            final(self).wf(),
            final(self)@ == old(self)@.remove((project@, app@, subcommand@)),
            final(self).next_generation() == old(self).next_generation(),
    {
        match self.find(project, app, subcommand) {
            Some(i) => {
                let ghost before = info_views(self.entries@);
                let ghost olde = self.entries@;
                self.entries.remove(i);
                proof {
                    lemma_rows_map_remove(before, i as int);
                    assert(info_views(self.entries@) =~= before.remove(i as int));
                    assert forall|j: int| 0 <= j < self.entries@.len()
                        implies #[trigger] self.entries@[j].generation_id < self.next_generation_id by {
                        if j < i {
                            assert(self.entries@[j] == olde[j]);
                        } else {
                            assert(self.entries@[j] == olde[j + 1]);
                        }
                    }
                }
            },
            None => {
                assert(self@ =~= self@.remove((project@, app@, subcommand@)));
            },
        }
    }

    /// Records a freshly spawned process under the key, in place of any
    /// earlier record there: status `Starting`, the given PID and generation.
    pub fn record_started(&mut self, project: &str, app: &str, subcommand: &str, pid: u32, generation_id: u64)
        requires
            old(self).wf(),
            generation_id < old(self).next_generation(),
        ensures
            final(self).wf(),
            final(self)@ == old(self)@.insert(
                (project@, app@, subcommand@),
                started_info((project@, app@, subcommand@), pid, generation_id),
            ),
            final(self).next_generation() == old(self).next_generation(),
    {
        let ghost k = (project@, app@, subcommand@);
        let ghost m0 = self@;
        self.remove(project, app, subcommand);
        let info = ProcessInfo {
            project: project.to_string(),
            app: app.to_string(),
            subcommand: subcommand.to_string(),
            status: ProcessStatus::Starting,
            pid: Some(pid),
            generation_id: generation_id,
        };
        let ghost before = info_views(self.entries@);
        let ghost olde = self.entries@;
        self.entries.push(info);
        proof {
            assert(info_views(self.entries@) =~= before.push(info@));
            lemma_rows_push(before, info@);
            assert(self@ =~= m0.remove(k).insert(k, info@));
            assert(m0.remove(k).insert(k, info@) =~= m0.insert(k, info@));
            assert forall|j: int| 0 <= j < self.entries@.len()
                implies #[trigger] self.entries@[j].generation_id < self.next_generation_id by {
                if j < olde.len() {
                    assert(self.entries@[j] == olde[j]);
                }
            }
        }
    }

    /// Marks the process under the key as stopping; `false` when no process
    /// is recorded there.
    pub fn mark_stopping(&mut self, project: &str, app: &str, subcommand: &str) -> (found: bool)
        requires
            old(self).wf(),
        ensures
            final(self).wf(),
            found == old(self)@.contains_key((project@, app@, subcommand@)),
            found ==> final(self)@ == old(self)@.insert(
                (project@, app@, subcommand@),
                InfoView { status: ProcessStatus::Stopping, ..old(self)@[(project@, app@, subcommand@)] },
            ),
            !found ==> final(self)@ == old(self)@,
            final(self).next_generation() == old(self).next_generation(),
    {
        match self.find(project, app, subcommand) {
            Some(i) => {
                let ghost k = (project@, app@, subcommand@);
                proof {
                    lemma_rows_map_at(info_views(self.entries@), i as int);
                }
                let ghost m0 = self@;
                let mut e = self.entries.remove(i);
                let ghost before = info_views(self.entries@);
                proof {
                    lemma_rows_map_remove(info_views(old(self).entries@), i as int);
                    assert(before =~= info_views(old(self).entries@).remove(i as int));
                }
                e.status = ProcessStatus::Stopping;
                let ghost olde = self.entries@;
                self.entries.push(e);
                proof {
                    assert(info_views(self.entries@) =~= before.push(e@));
                    lemma_rows_push(before, e@);
                    assert(self@ =~= m0.remove(k).insert(k, e@));
                    assert(m0.remove(k).insert(k, e@) =~= m0.insert(k, e@));
                    assert forall|j: int| 0 <= j < self.entries@.len()
                        implies #[trigger] self.entries@[j].generation_id < self.next_generation_id by {
                        if j < olde.len() {
                            assert(olde[j] == self.entries@[j]);
                            if j < i {
                                assert(olde[j] == old(self).entries@[j]);
                            } else {
                                assert(olde[j] == old(self).entries@[j + 1]);
                            }
                        } else {
                            assert(old(self).entries@[i as int].generation_id < self.next_generation_id);
                        }
                    }
                }
                true
            },
            None => false,
        }
    }
}

} // verus!
