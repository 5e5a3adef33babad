//! The daemon: what each request does to its state, and what it answers.
use crate::history::ClickHistory;
use crate::messages::{
    Calculation, MemoryStats, Request, Response, Timestamp, WatcherStats, WriterStats,
};
use crate::model::Hit;
use crate::query_log::QueryLog;
use vstd::prelude::*;
use vstd::string::*;

verus! {

use crate::history::clicks;
use crate::query_log::{first_entries, recorded};
use crate::text::{ends_with, starts_with, trimmed, views};

// --- The launcher process ---

/// Whether the launcher is on the screen, and its process.
#[derive(Debug, Clone, Copy, PartialEq, Eq, Structural)]
pub struct GuiState {
    pub visible: bool,
    pub pid: Option<u32>,
}

/// What has to be done with the launcher process.
#[derive(Debug, Clone, Copy, PartialEq, Eq, Structural)]
pub enum GuiStep {
    /// Nothing.
    Keep,
    /// Start one.
    Spawn,
    /// Stop the one there is.
    Terminate { pid: Option<u32> },
}

/// The state without a launcher.
pub open spec fn no_gui() -> GuiState {
    GuiState { visible: false, pid: None }
}

/// The launcher is on the screen exactly if there is a process.
pub open spec fn gui_wf(s: GuiState) -> bool {
    s.visible == (s.pid is Some)
}

/// The state once a process that does not live any more was noticed.
pub open spec fn gui_checked(s: GuiState, alive: bool) -> GuiState {
    if s.pid is Some && !alive {
        no_gui()
    } else {
        s
    }
}

/// What toggling does.
pub open spec fn gui_toggled(s: GuiState, alive: bool) -> (GuiState, GuiStep) {
    let c = gui_checked(s, alive);
    if c.visible {
        (no_gui(), GuiStep::Terminate { pid: c.pid })
    } else {
        (c, GuiStep::Spawn)
    }
}

/// What showing does.
pub open spec fn gui_shown(s: GuiState, alive: bool) -> (GuiState, GuiStep) {
    let c = gui_checked(s, alive);
    if c.visible {
        (c, GuiStep::Keep)
    } else {
        (c, GuiStep::Spawn)
    }
}

/// What hiding does.
pub open spec fn gui_hidden(s: GuiState) -> (GuiState, GuiStep) {
    (no_gui(), GuiStep::Terminate { pid: s.pid })
}

/// The state once the process of the given number was started.
pub open spec fn gui_spawned(pid: u32) -> GuiState {
    GuiState { visible: true, pid: Some(pid) }
}

/// The state once the process of the given number has ended.
pub open spec fn gui_exited(s: GuiState, pid: u32) -> GuiState {
    if s.pid == Some(pid) {
        no_gui()
    } else {
        s
    }
}

impl Default for GuiState {
    fn default() -> (r: Self)
        ensures
            r == no_gui(),
    {
        GuiState { visible: false, pid: None }
    }
}

impl GuiState {
    /// Notices a process that does not live any more.
    fn check(&mut self, alive: bool)
        ensures
            *final(self) == gui_checked(*old(self), alive),
    {
        if self.pid.is_some() && !alive {
            self.pid = None;
            self.visible = false;
        }
    }

    /// Toggles the launcher. `alive` says whether its process lives, where there is one.
    pub fn toggle(&mut self, alive: bool) -> (r: GuiStep)
        ensures
            (*final(self), r) == gui_toggled(*old(self), alive),
    {
        self.check(alive);
        if self.visible {
            let pid = self.pid;
            self.pid = None;
            self.visible = false;
            GuiStep::Terminate { pid }
        } else {
            GuiStep::Spawn
        }
    }

    /// Shows the launcher. `alive` says whether its process lives, where there is one.
    pub fn show(&mut self, alive: bool) -> (r: GuiStep)
        ensures
            (*final(self), r) == gui_shown(*old(self), alive),
    {
        self.check(alive);
        if self.visible {
            GuiStep::Keep
        } else {
            GuiStep::Spawn
        }
    }

    /// Hides the launcher.
    pub fn conceal(&mut self) -> (r: GuiStep)
        ensures
            (*final(self), r) == gui_hidden(*old(self)),
    {
        let pid = self.pid;
        self.pid = None;
        self.visible = false;
        GuiStep::Terminate { pid }
    }

    /// A launcher was started.
    pub fn spawned(&mut self, pid: u32)
        ensures
            *final(self) == gui_spawned(pid),
    {
        self.pid = Some(pid);
        self.visible = true;
    }

    /// A launcher has ended.
    pub fn exited(&mut self, pid: u32)
        ensures
            *final(self) == gui_exited(*old(self), pid),
    {
        match self.pid {
            Some(p) => {
                if p == pid {
                    self.pid = None;
                    self.visible = false;
                }
            },
            None => {},
        }
    }
}

/// The launcher is on the screen exactly if there is a process, whatever happens.
pub proof fn law_gui_wf(s: GuiState, alive: bool, pid: u32)
    requires
        gui_wf(s),
    ensures
        gui_wf(no_gui()),
        gui_wf(gui_toggled(s, alive).0),
        gui_wf(gui_shown(s, alive).0),
        gui_wf(gui_hidden(s).0),
        gui_wf(gui_spawned(pid)),
        gui_wf(gui_exited(s, pid)),
{
}

/// Toggling twice, with the process living in between, leads back to no launcher, and stops
/// the process that the first toggle had started.
pub proof fn law_toggle_twice(pid: u32, alive: bool)
    ensures
        gui_toggled(no_gui(), alive).1 == GuiStep::Spawn,
        gui_toggled(gui_spawned(pid), true) == (no_gui(), GuiStep::Terminate { pid: Some(pid) }),
{
}

/// A launcher whose process has died is started anew, by showing and by toggling, and it is
/// not stopped.
pub proof fn law_dead_launcher_is_replaced(s: GuiState)
    requires
        gui_wf(s),
    ensures
        gui_toggled(s, false).1 == GuiStep::Spawn,
        gui_shown(s, false).1 == GuiStep::Spawn,
{
}

/// Showing a launcher that is there changes nothing; hiding leaves none; and the end of a
/// process that was replaced is passed over.
pub proof fn law_show_hide(s: GuiState, old_pid: u32, pid: u32)
    requires
        old_pid != pid,
    ensures
        gui_shown(gui_spawned(pid), true) == (gui_spawned(pid), GuiStep::Keep),
        gui_hidden(s).0 == no_gui(),
        gui_exited(gui_spawned(pid), old_pid) == gui_spawned(pid),
        gui_exited(gui_spawned(pid), pid) == no_gui(),
{
}

// --- Counters ---

/// How much was indexed, and when last.
#[derive(Debug, Clone, Copy, PartialEq, Eq, Structural)]
pub struct IndexStats {
    pub indexed_docs: u64,
    pub last_reindex: Option<Timestamp>,
}

impl Default for IndexStats {
    fn default() -> (r: Self)
        ensures
            r.indexed_docs == 0,
            r.last_reindex is None,
    {
        IndexStats { indexed_docs: 0, last_reindex: None }
    }
}

/// The counters once so many documents were indexed anew.
pub open spec fn stats_after(s: IndexStats, count: int, now: Timestamp) -> IndexStats {
    IndexStats { indexed_docs: (s.indexed_docs + count) as u64, last_reindex: Some(now) }
}

/// The counters once so many documents were indexed at the start; without any, nothing was.
pub open spec fn stats_at_start(s: IndexStats, count: int, now: Timestamp) -> IndexStats {
    if count > 0 {
        stats_after(s, count, now)
    } else {
        s
    }
}

impl IndexStats {
    /// So many documents were indexed on request.
    pub fn reindexed(&mut self, count: usize, now: Timestamp)
        requires
            old(self).indexed_docs + count <= u64::MAX,
        ensures
            *final(self) == stats_after(*old(self), count as int, now),
            final(self).indexed_docs == old(self).indexed_docs + count,
    {
        self.indexed_docs = self.indexed_docs + count as u64;
        self.last_reindex = Some(now);
    }

    /// So many files and other documents were indexed at start. Where there were none, the
    /// counters stay as they are.
    pub fn indexed_at_start(&mut self, fs_count: usize, other_count: usize, now: Timestamp)
        requires
            fs_count + other_count <= usize::MAX,
            old(self).indexed_docs + fs_count + other_count <= u64::MAX,
        ensures
            *final(self) == stats_at_start(*old(self), fs_count + other_count, now),
            final(self).indexed_docs == old(self).indexed_docs + fs_count + other_count,
    {
        let total: usize = fs_count + other_count;
        if total > 0 {
            self.reindexed(total, now);
        }
    }
}

/// A number of milliseconds as far as it fits in the counter.
pub open spec fn capped_ms(ms: u64) -> int {
    if ms > u32::MAX {
        u32::MAX as int
    } else {
        ms as int
    }
}

/// What the writer of the index has done; a latency beyond 32 bits is cut to the greatest
/// number there is.
pub fn collect_writer_stats(commits: u64, last_commit_latency_ms: u64, generation: u64) -> (r:
    WriterStats)
    ensures
        r.commits == commits,
        r.generation == generation,
        r.last_commit_latency_ms == capped_ms(last_commit_latency_ms),
{
    let latency: u32 = if last_commit_latency_ms > 0xffff_ffff {
        0xffff_ffff
    } else {
        last_commit_latency_ms as u32
    };
    WriterStats { commits, last_commit_latency_ms: latency, generation }
}

/// What the watcher of files has done.
pub fn collect_watcher_stats(
    directories: u64,
    excluded: u64,
    errors: u64,
    overflow_events: u64,
) -> (r: WatcherStats)
    ensures
        r == (WatcherStats { directories, excluded, errors, overflow_events }),
{
    WatcherStats { directories, excluded, errors, overflow_events }
}

// --- Requests ---

/// The state of the daemon.
pub struct Daemon {
    pub gui: GuiState,
    pub stats: IndexStats,
    pub history: ClickHistory,
    pub query_log: QueryLog,
}

/// What has to be done for a request.
pub enum Step<S> {
    /// Answer.
    Reply(Response<S>),
    /// Start a launcher, then answer.
    Spawn,
    /// Stop the launcher, then answer.
    Terminate { pid: Option<u32>, reply: Response<S> },
    /// Search, then answer.
    Search { q: String, limit: u32 },
    /// Index the paths anew, or everything where there are none, then answer.
    Reindex { paths: Vec<String> },
    /// Answer with the counters.
    Report,
    /// Show a preview of the hit, then answer.
    Preview { hit: Box<Hit<S>> },
}

/// The step for what has to be done with the launcher, when it is then on the screen or not.
pub open spec fn gui_answer<S>(step: GuiStep, visible: bool, r: Step<S>) -> bool {
    match step {
        GuiStep::Keep => r == Step::<S>::Reply(Response::Visibility { visible }),
        GuiStep::Spawn => r is Spawn,
        GuiStep::Terminate { pid } => r == (Step::<S>::Terminate {
            pid,
            reply: Response::Visibility { visible },
        }),
    }
}

/// What a request comes to: the daemon after it, and what is to be done for it.
pub open spec fn accepted<S>(
    before: Daemon,
    req: Request<S>,
    gui_alive: bool,
    is_calculation: bool,
    after: Daemon,
    r: Step<S>,
) -> bool {
    match req {
        Request::Toggle => {
            let (g, step) = gui_toggled(before.gui, gui_alive);
            after.gui == g && gui_answer(step, g.visible, r) && after.same_records(before)
        },
        Request::Show => {
            let (g, step) = gui_shown(before.gui, gui_alive);
            after.gui == g && gui_answer(step, g.visible, r) && after.same_records(before)
        },
        Request::Hide => {
            let (g, step) = gui_hidden(before.gui);
            after.gui == g && gui_answer(step, false, r) && after.same_records(before)
        },
        Request::Search { q, limit } => r == (Step::<S>::Search { q, limit }) && after == before,
        Request::Reindex { paths } => r == (Step::<S>::Reindex { paths }) && after == before,
        Request::Status => r is Report && after == before,
        Request::RecordClick { doc_id } => {
            &&& r == Step::<S>::Reply(Response::Done)
            &&& after.gui == before.gui
            &&& after.history@ == before.history@.insert(
                doc_id@,
                (clicks(before.history@, doc_id@) + 1) as u64,
            )
            &&& after.query_log == before.query_log
        },
        Request::RecordQuery { q } => {
            &&& r == Step::<S>::Reply(Response::Done)
            &&& after.gui == before.gui
            &&& after.history == before.history
            &&& after.query_log.max() == before.query_log.max()
            &&& after.query_log.entries() == (if is_calculation {
                before.query_log.entries()
            } else {
                recorded(before.query_log.entries(), before.query_log.max() as nat, q@)
            })
        },
        Request::SearchHistory { limit } => {
            &&& r matches Step::Reply(Response::Queries(v))
            &&& views(v@) == first_entries(before.query_log.entries(), limit as nat)
            &&& after == before
        },
        Request::Preview { hit } => r == (Step::<S>::Preview { hit }) && after == before,
    }
}

impl Daemon {
    /// The tables are in order.
    pub open spec fn wf(&self) -> bool {
        self.history.wf()
    }

    /// The clicks and the queries are those of another state.
    pub open spec fn same_records(&self, other: Daemon) -> bool {
        self.history@ == other.history@ && self.query_log.entries() == other.query_log.entries()
            && self.query_log.max() == other.query_log.max()
    }

    fn gui_step<S>(&self, step: GuiStep) -> (r: Step<S>)
        ensures
            gui_answer(step, self.gui.visible, r),
    {
        match step {
            GuiStep::Keep => Step::Reply(Response::Visibility { visible: self.gui.visible }),
            GuiStep::Spawn => Step::Spawn,
            GuiStep::Terminate { pid } => Step::Terminate {
                pid,
                reply: Response::Visibility { visible: self.gui.visible },
            },
        }
    }

    /// Takes a request. `gui_alive` says whether the launcher process lives, where there is
    /// one; `is_calculation` whether the query of the request is an arithmetic expression,
    /// which is not recorded.
    pub fn accept<S>(&mut self, req: Request<S>, gui_alive: bool, is_calculation: bool) -> (r: Step<
        S,
    >)
        requires
            old(self).wf(),
            req matches Request::RecordClick { doc_id } ==> clicks(old(self).history@, doc_id@)
                < u64::MAX,
        ensures
            final(self).wf(),
            final(self).stats == old(self).stats,
            accepted(*old(self), req, gui_alive, is_calculation, *final(self), r),
    {
        match req {
            Request::Toggle => {
                let step = self.gui.toggle(gui_alive);
                self.gui_step(step)
            },
            Request::Show => {
                let step = self.gui.show(gui_alive);
                self.gui_step(step)
            },
            Request::Hide => {
                let step = self.gui.conceal();
                self.gui_step(step)
            },
            Request::Search { q, limit } => Step::Search { q, limit },
            Request::Reindex { paths } => Step::Reindex { paths },
            Request::Status => Step::Report,
            Request::RecordClick { doc_id } => {
                self.history.record_click(doc_id.as_str());
                Step::Reply(Response::Done)
            },
            Request::RecordQuery { q } => {
                if !is_calculation {
                    self.query_log.record_query(q.as_str());
                }
                Step::Reply(Response::Done)
            },
            Request::SearchHistory { limit } => {
                Step::Reply(Response::Queries(self.query_log.recent(limit as usize)))
            },
            Request::Preview { hit } => Step::Preview { hit },
        }
    }

    /// A launcher was started for the request: the answer.
    pub fn gui_spawned<S>(&mut self, pid: u32) -> (r: Response<S>)
        ensures
            final(self).gui == gui_spawned(pid),
            final(self).stats == old(self).stats,
            final(self).history == old(self).history,
            final(self).query_log == old(self).query_log,
            r == (Response::<S>::Visibility { visible: true }),
    {
        self.gui.spawned(pid);
        Response::Visibility { visible: true }
    }

    /// The answer with the counters.
    pub fn status<S>(&self, watcher: WatcherStats, writer: WriterStats, memory: MemoryStats) -> (r:
        Response<S>)
        ensures
            r == (Response::<S>::Status {
                indexed_docs: self.stats.indexed_docs,
                last_reindex: self.stats.last_reindex,
                errors: 0,
                watcher: Some(watcher),
                writer: Some(writer),
                memory: Some(memory),
            }),
    {
        Response::Status {
            indexed_docs: self.stats.indexed_docs,
            last_reindex: self.stats.last_reindex,
            errors: 0,
            watcher: Some(watcher),
            writer: Some(writer),
            memory: Some(memory),
        }
    }
}

/// The answer to a search, in the version that the client speaks.
pub open spec fn search_answer<S>(
    version: u16,
    found: Result<Vec<Hit<S>>, String>,
    calculation: Option<Calculation>,
) -> Response<S> {
    match found {
        Ok(hits) => if version >= 2 {
            Response::HitsWithExtras { hits, calculation }
        } else {
            Response::Hits(hits)
        },
        Err(e) => Response::Error(e),
    }
}

/// The answer to a search: the hits, with the value of the query where it is an arithmetic
/// expression and the client knows of such; or why there are none.
pub fn search_reply<S>(
    version: u16,
    found: Result<Vec<Hit<S>>, String>,
    calculation: Option<Calculation>,
) -> (r: Response<S>)
    ensures
        r == search_answer(version, found, calculation),
{
    match found {
        Ok(hits) => {
            if version >= 2 {
                Response::HitsWithExtras { hits, calculation }
            } else {
                Response::Hits(hits)
            }
        },
        Err(e) => Response::Error(e),
    }
}

/// The answer to a request for indexing that failed.
pub fn reindex_failed<S>(error: &str) -> (r: Response<S>)
    ensures
        r matches Response::Error(m) && m@ == "Reindex failed: "@ + error@,
{
    let mut m = String::new();
    m.append("Reindex failed: ");
    m.append(error);
    assert(m@ =~= "Reindex failed: "@ + error@);
    Response::Error(m)
}

/// A client of the first version is never sent what it does not know.
pub proof fn law_first_version_gets_plain_hits<S>(
    found: Result<Vec<Hit<S>>, String>,
    calculation: Option<Calculation>,
)
    ensures
        !(search_answer(1, found, calculation) is HitsWithExtras),
        found matches Ok(hits) ==> search_answer(1, found, calculation) == Response::Hits(hits),
{
}

// --- Sources from the start ---

/// What the configuration says of Thunderbird, with whether the profile is there.
pub struct ThunderbirdSettings {
    pub enabled: bool,
    pub profile: Option<String>,
    pub profile_exists: bool,
    pub attachments: bool,
}

/// A mail directory of the configuration.
pub struct MaildirSettings {
    pub id: String,
    pub paths: Vec<String>,
    pub open_cmd: Option<String>,
}

/// A source that is registered at start, by its kind.
#[derive(Debug, Clone, Copy, PartialEq, Eq, Structural)]
pub enum BuiltinKind {
    Apps,
    Gloda,
    Attachments,
    Files,
    /// The mail directory of this number.
    Maildir(usize),
}

/// The sources that are registered at start, in their order, the mail directories left out.
pub open spec fn builtin_kinds(t: ThunderbirdSettings) -> Seq<BuiltinKind> {
    let mail = t.enabled && t.profile is Some && t.profile_exists;
    if mail && t.attachments {
        seq![BuiltinKind::Apps, BuiltinKind::Gloda, BuiltinKind::Attachments, BuiltinKind::Files]
    } else if mail {
        seq![BuiltinKind::Apps, BuiltinKind::Gloda, BuiltinKind::Files]
    } else {
        seq![BuiltinKind::Apps, BuiltinKind::Files]
    }
}

/// The name of the instance of a source.
pub open spec fn instance_name(kind: BuiltinKind, maildirs: Seq<MaildirSettings>) -> Seq<char> {
    match kind {
        BuiltinKind::Apps => "builtin:apps"@,
        BuiltinKind::Gloda => "builtin:gloda"@,
        BuiltinKind::Attachments => "builtin:tb_attachments"@,
        BuiltinKind::Files => "builtin:fs"@,
        BuiltinKind::Maildir(i) => maildirs[i as int].id@,
    }
}

/// The name of the instance of a source.
pub fn instance_id(kind: BuiltinKind, maildirs: &Vec<MaildirSettings>) -> (r: String)
    requires
        kind matches BuiltinKind::Maildir(i) ==> i < maildirs@.len(),
    ensures
        r@ == instance_name(kind, maildirs@),
{
    match kind {
        BuiltinKind::Apps => "builtin:apps".to_owned(),
        BuiltinKind::Gloda => "builtin:gloda".to_owned(),
        BuiltinKind::Attachments => "builtin:tb_attachments".to_owned(),
        BuiltinKind::Files => "builtin:fs".to_owned(),
        BuiltinKind::Maildir(i) => maildirs[i].id.clone(),
    }
}

/// The sources that there are: the built-in ones, then one for each mail directory.
pub open spec fn source_kinds(t: ThunderbirdSettings, maildirs: nat) -> Seq<BuiltinKind> {
    builtin_kinds(t) + Seq::new(maildirs, |i: int| BuiltinKind::Maildir(i as usize))
}

/// The sources that are registered at start, in their order: the applications, the messages
/// and attachments of Thunderbird where they are wanted and the profile is there, the files,
/// and the mail directories.
pub fn register_builtin_sources(t: &ThunderbirdSettings, maildirs: &Vec<MaildirSettings>) -> (r: Vec<
    BuiltinKind,
>)
    ensures
        r@ == source_kinds(*t, maildirs@.len()),
{
    let mut v: Vec<BuiltinKind> = Vec::new();
    v.push(BuiltinKind::Apps);
    if t.enabled && t.profile.is_some() && t.profile_exists {
        v.push(BuiltinKind::Gloda);
        if t.attachments {
            v.push(BuiltinKind::Attachments);
        }
    }
    v.push(BuiltinKind::Files);
    assert(v@ =~= builtin_kinds(*t));
    let ghost dirs = Seq::new(maildirs@.len(), |i: int| BuiltinKind::Maildir(i as usize));
    for i in 0..maildirs.len()
        invariant
            dirs == Seq::new(maildirs@.len(), |i: int| BuiltinKind::Maildir(i as usize)),
            v@ =~= builtin_kinds(*t) + dirs.take(i as int),
    {
        v.push(BuiltinKind::Maildir(i));
    }
    assert(dirs.take(maildirs@.len() as int) =~= dirs);
    v
}

/// Only showing and hiding requests touch the launcher, only a click touches the clicks, and
/// only a query that is recorded touches the log; no request that asks for something changes
/// anything.
pub proof fn law_requests_touch_their_own<S>(
    before: Daemon,
    req: Request<S>,
    gui_alive: bool,
    is_calculation: bool,
    after: Daemon,
    r: Step<S>,
)
    requires
        accepted(before, req, gui_alive, is_calculation, after, r),
    ensures
        !(req is Toggle || req is Show || req is Hide) ==> after.gui == before.gui,
        !(req is RecordClick) ==> after.history@ == before.history@,
        !(req is RecordQuery) ==> after.query_log.entries() == before.query_log.entries(),
        after.query_log.max() == before.query_log.max(),
        req is Search || req is Reindex || req is Status || req is SearchHistory || req is Preview
            ==> after == before,
{
}

/// Each request is answered by its own step, with what it was asked with, whole.
pub proof fn law_steps<S>(
    before: Daemon,
    req: Request<S>,
    gui_alive: bool,
    is_calculation: bool,
    after: Daemon,
    r: Step<S>,
)
    requires
        accepted(before, req, gui_alive, is_calculation, after, r),
    ensures
        req matches Request::Search { q, limit } ==> (r matches Step::Search { q: t, limit: n } && t
            == q && n == limit),
        req matches Request::Reindex { paths } ==> (r matches Step::Reindex { paths: p } && p
            == paths),
        req matches Request::Preview { hit } ==> (r matches Step::Preview { hit: h } && h == hit),
        req is Status <==> r is Report,
        r is Search ==> req is Search,
        r is Reindex ==> req is Reindex,
        r is Preview ==> req is Preview,
        r is Spawn ==> req is Toggle || req is Show,
        r is Terminate ==> req is Toggle || req is Hide,
        req is RecordClick || req is RecordQuery ==> r == Step::<S>::Reply(Response::Done),
{
}

/// A click counts once more for the document that was clicked, and for no other.
pub proof fn law_click_is_counted<S>(
    before: Daemon,
    doc_id: String,
    other: Seq<char>,
    gui_alive: bool,
    is_calculation: bool,
    after: Daemon,
    r: Step<S>,
)
    requires
        accepted(before, Request::RecordClick { doc_id }, gui_alive, is_calculation, after, r),
        clicks(before.history@, doc_id@) < u64::MAX,
    ensures
        clicks(after.history@, doc_id@) == clicks(before.history@, doc_id@) + 1,
        other != doc_id@ ==> clicks(after.history@, other) == clicks(before.history@, other),
{
}

/// A query that was recorded is the first of the earlier searches that are asked for next; a
/// calculation, or blank text, is not recorded.
pub proof fn law_query_is_remembered<S>(
    before: Daemon,
    q: String,
    limit: u32,
    gui_alive: bool,
    is_calculation: bool,
    after: Daemon,
    last: Daemon,
    r: Step<S>,
    answer: Step<S>,
)
    requires
        accepted(before, Request::RecordQuery { q }, gui_alive, is_calculation, after, r),
        accepted(after, Request::SearchHistory { limit }, gui_alive, is_calculation, last, answer),
    ensures
        answer matches Step::Reply(Response::Queries(v)) && v@.len() <= limit,
        answer matches Step::Reply(Response::Queries(v)) ==> {
            &&& !is_calculation && trimmed(q@).len() > 0 && before.query_log.max() > 0 && limit > 0
                ==> v@.len() > 0 && views(v@)[0] == trimmed(q@)
            &&& is_calculation || trimmed(q@).len() == 0 ==> views(v@) == first_entries(
                before.query_log.entries(),
                limit as nat,
            )
        },
{
    let v = answer->Reply_0->Queries_0;
    assert(views(v@).len() == v@.len());
    let e = after.query_log.entries();
    if !is_calculation && trimmed(q@).len() > 0 && before.query_log.max() > 0 && limit > 0 {
        assert(e.len() > 0 && e[0] == trimmed(q@));
    }
}

/// A launcher that runs is stopped by hiding it, by the number that it was started with, and by
/// toggling; one that does not run is started, and never twice.
pub proof fn law_launcher<S>(
    before: Daemon,
    pid: u32,
    is_calculation: bool,
    hidden: Daemon,
    toggled: Daemon,
    showed: Daemon,
    at_hide: Step<S>,
    at_toggle: Step<S>,
    at_show: Step<S>,
)
    requires
        before.gui == gui_spawned(pid),
        accepted(before, Request::Hide, true, is_calculation, hidden, at_hide),
        accepted(before, Request::Toggle, true, is_calculation, toggled, at_toggle),
        accepted(before, Request::Show, true, is_calculation, showed, at_show),
    ensures
        at_hide == (Step::<S>::Terminate {
            pid: Some(pid),
            reply: Response::Visibility { visible: false },
        }),
        at_toggle == at_hide,
        at_show == Step::<S>::Reply(Response::Visibility { visible: true }),
        hidden.gui == no_gui() && toggled.gui == no_gui() && showed.gui == before.gui,
        gui_toggled(no_gui(), true).1 == GuiStep::Spawn,
        gui_shown(no_gui(), true).1 == GuiStep::Spawn,
        gui_hidden(no_gui()).1 == (GuiStep::Terminate { pid: None }),
{
}

/// Every version gets all the hits; from the second on the calculation comes with them. An error
/// is answered as it is in every version.
pub proof fn law_search_answers<S>(
    version: u16,
    found: Result<Vec<Hit<S>>, String>,
    calculation: Option<Calculation>,
)
    ensures
        found matches Err(e) ==> (search_answer(version, found, calculation) matches Response::Error(
            m,
        ) && m == e),
        found matches Ok(hits) ==> (if version < 2 {
            search_answer(version, found, calculation) matches Response::Hits(h) && h == hits
        } else {
            search_answer(version, found, calculation) matches Response::HitsWithExtras {
                hits: h,
                calculation: c,
            } && h == hits && c == calculation
        }),
{
}

/// Applications and files are always sources; Thunderbird's mail is one exactly if it is
/// switched on and its profile is there, and its attachments if they are switched on too. Every
/// mail directory is one, and no source stands twice.
pub proof fn law_sources(t: ThunderbirdSettings, maildirs: nat, i: int)
    requires
        maildirs <= usize::MAX,
    ensures
        ({
            let k = source_kinds(t, maildirs);
            let mail = t.enabled && t.profile is Some && t.profile_exists;
            &&& k.contains(BuiltinKind::Apps)
            &&& k.contains(BuiltinKind::Files)
            &&& k.contains(BuiltinKind::Gloda) <==> mail
            &&& k.contains(BuiltinKind::Attachments) <==> mail && t.attachments
            &&& 0 <= i < maildirs ==> k.contains(BuiltinKind::Maildir(i as usize))
            &&& maildirs <= i <= usize::MAX ==> !k.contains(BuiltinKind::Maildir(i as usize))
            &&& k.no_duplicates()
        }),
{
    let k = source_kinds(t, maildirs);
    let b = builtin_kinds(t);
    assert(k[0] == BuiltinKind::Apps);
    assert(k[b.len() - 1] == BuiltinKind::Files);
    let mail = t.enabled && t.profile is Some && t.profile_exists;
    if mail {
        assert(k[1] == BuiltinKind::Gloda);
        if t.attachments {
            assert(k[2] == BuiltinKind::Attachments);
        }
    }
    if 0 <= i < maildirs {
        assert(k[b.len() + i] == BuiltinKind::Maildir(i as usize));
    }
}

/// The built-in sources have names of their own, all distinct.
pub proof fn law_source_names(a: BuiltinKind, b: BuiltinKind, maildirs: Seq<MaildirSettings>)
    requires
        !(a is Maildir),
        !(b is Maildir),
    ensures
        instance_name(a, maildirs) == instance_name(b, maildirs) <==> a == b,
        starts_with(instance_name(a, maildirs), "builtin:"@),
        a == BuiltinKind::Files ==> instance_name(a, maildirs) == "builtin:fs"@,
        a == BuiltinKind::Apps ==> ends_with(instance_name(a, maildirs), "apps"@),
        a == BuiltinKind::Gloda ==> ends_with(instance_name(a, maildirs), "gloda"@),
        a == BuiltinKind::Attachments ==> ends_with(instance_name(a, maildirs), "attachments"@),
{
    reveal_strlit("builtin:");
    reveal_strlit("builtin:apps");
    reveal_strlit("builtin:gloda");
    reveal_strlit("builtin:tb_attachments");
    reveal_strlit("builtin:fs");
    assert("builtin:apps"@[8] == 'a');
    assert("builtin:gloda"@[8] == 'g');
    assert("builtin:tb_attachments"@[8] == 't');
    assert("builtin:fs"@[8] == 'f');
    assert(instance_name(a, maildirs).take(8) =~= "builtin:"@);
    reveal_strlit("apps");
    reveal_strlit("gloda");
    reveal_strlit("attachments");
    assert("builtin:apps"@.skip(8) =~= "apps"@);
    assert("builtin:gloda"@.skip(8) =~= "gloda"@);
    assert("builtin:tb_attachments"@.skip(11) =~= "attachments"@);
}

/// Counts add up over runs, the last run's time is kept, and a start that indexed nothing leaves
/// both.
pub proof fn law_stats(s: IndexStats, m: int, n: int, now: Timestamp, later: Timestamp)
    requires
        0 <= m,
        0 <= n,
        s.indexed_docs + m + n <= u64::MAX,
    ensures
        stats_after(stats_after(s, m, now), n, later) == stats_after(s, m + n, later),
        stats_after(s, n, now).indexed_docs == s.indexed_docs + n,
        stats_after(s, n, now).last_reindex == Some(now),
        stats_at_start(s, 0, now) == s,
        n > 0 ==> stats_at_start(s, n, now) == stats_after(s, n, now),
{
}

/// A latency is told as it is as far as the counter reaches, and never as less than a shorter
/// one.
pub proof fn law_latency(a: u64, b: u64)
    requires
        a <= b,
    ensures
        a <= u32::MAX ==> capped_ms(a) == a,
        capped_ms(a) <= capped_ms(b) <= u32::MAX,
{
}

}
