//! Changes in the file system: what they mean for the index, and how often a source may be
//! indexed anew for them.
use crate::exclude::path_excluded;
use crate::exclude::PathPattern;
use crate::paths::{extension, file_name};
use crate::text::{ends, same};
use vstd::prelude::*;
use vstd::string::*;

verus! {

use crate::exclude::{excluded, sources};
use crate::paths::{extension_of, file_name_of};
use crate::text::{ends_with, lemma_views_push, views};

/// How a path has changed.
#[derive(Debug, Clone, Copy, PartialEq, Eq, Structural)]
pub enum FsEventKind {
    Removed,
    RenamedFrom,
    RenamedTo,
    CreatedOrModified,
    Other,
}

/// A path, and whether there is a file at it now.
pub struct EventPath {
    pub path: String,
    pub is_file: bool,
}

/// A change, and the paths that it concerns.
pub struct FsEvent {
    pub kind: FsEventKind,
    pub paths: Vec<EventPath>,
}

/// What a path of an event holds.
pub struct EventPathView {
    pub path: Seq<char>,
    pub is_file: bool,
}

/// What an event holds.
pub struct FsEventView {
    pub kind: FsEventKind,
    pub paths: Seq<EventPathView>,
}

/// What the paths hold.
pub open spec fn path_views(v: Seq<EventPath>) -> Seq<EventPathView> {
    Seq::new(v.len(), |i: int| EventPathView { path: v[i].path@, is_file: v[i].is_file })
}

impl View for FsEvent {
    type V = FsEventView;

    open spec fn view(&self) -> FsEventView {
        FsEventView { kind: self.kind, paths: path_views(self.paths@) }
    }
}

/// What the events hold.
pub open spec fn event_views(v: Seq<FsEvent>) -> Seq<FsEventView> {
    Seq::new(v.len(), |i: int| v[i]@)
}

/// The identifier of the document of a file.
pub open spec fn fs_id(path: Seq<char>) -> Seq<char> {
    "fs:"@ + path
}

/// The identifier of the document of a file.
pub fn fs_doc_id(path: &str) -> (r: String)
    ensures
        r@ == fs_id(path@),
{
    let mut s = String::new();
    s.append("fs:");
    s.append(path);
    assert(s@ =~= fs_id(path@));
    s
}

/// Whether an event takes its paths out of the index.
pub open spec fn removes(kind: FsEventKind) -> bool {
    kind is Removed || kind is RenamedFrom
}

/// Whether an event asks for its paths to be indexed.
pub open spec fn adds(kind: FsEventKind) -> bool {
    kind is RenamedTo || kind is CreatedOrModified
}

/// The identifiers of the paths.
pub open spec fn ids_of(paths: Seq<EventPathView>) -> Seq<Seq<char>> {
    Seq::new(paths.len(), |i: int| fs_id(paths[i].path))
}

/// The paths with a file that is not left out.
pub open spec fn wanted(
    paths: Seq<EventPathView>,
    subs: Seq<Seq<char>>,
    patterns: Seq<Seq<char>>,
) -> Seq<Seq<char>>
    decreases paths.len(),
{
    if paths.len() == 0 {
        Seq::empty()
    } else {
        let before = wanted(paths.drop_last(), subs, patterns);
        if paths.last().is_file && !excluded(paths.last().path, subs, patterns) {
            before.push(paths.last().path)
        } else {
            before
        }
    }
}

/// The documents that the events take out of the index, in the order of the events.
pub open spec fn deletes_of(events: Seq<FsEventView>) -> Seq<Seq<char>>
    decreases events.len(),
{
    if events.len() == 0 {
        Seq::empty()
    } else {
        let before = deletes_of(events.drop_last());
        if removes(events.last().kind) {
            before + ids_of(events.last().paths)
        } else {
            before
        }
    }
}

/// The files that the events ask to be indexed, in the order of the events.
pub open spec fn upserts_of(
    events: Seq<FsEventView>,
    subs: Seq<Seq<char>>,
    patterns: Seq<Seq<char>>,
) -> Seq<Seq<char>>
    decreases events.len(),
{
    if events.len() == 0 {
        Seq::empty()
    } else {
        let before = upserts_of(events.drop_last(), subs, patterns);
        if adds(events.last().kind) {
            before + wanted(events.last().paths, subs, patterns)
        } else {
            before
        }
    }
}

/// What a batch of events means for the index.
pub struct WatchPlan {
    /// The documents to take out.
    pub deletes: Vec<String>,
    /// The files to index.
    pub upserts: Vec<String>,
}

/// Adds the identifiers of the paths.
fn push_ids(out: &mut Vec<String>, paths: &Vec<EventPath>)
    ensures
        views(final(out)@) == views(old(out)@) + ids_of(path_views(paths@)),
{
    let ghost all = path_views(paths@);
    for i in 0..paths.len()
        invariant
            all == path_views(paths@),
            views(out@) =~= views(old(out)@) + ids_of(all).take(i as int),
    {
        let ghost before = out@;
        out.push(fs_doc_id(paths[i].path.as_str()));
        proof {
            lemma_views_push(before, out@.last());
            assert(all[i as int].path == paths@[i as int].path@);
        }
    }
    assert(ids_of(all).take(paths@.len() as int) =~= ids_of(all));
}

/// Adds the paths with a file that is not left out.
fn push_wanted(
    out: &mut Vec<String>,
    paths: &Vec<EventPath>,
    exclude: &Vec<String>,
    patterns: &Vec<PathPattern>,
)
    ensures
        views(final(out)@) == views(old(out)@) + wanted(
            path_views(paths@),
            views(exclude@),
            sources(patterns@),
        ),
{
    let ghost all = path_views(paths@);
    let mut i: usize = 0;
    assert(all.take(0) =~= Seq::<EventPathView>::empty());
    while i < paths.len()
        invariant
            i <= paths@.len(),
            all == path_views(paths@),
            views(out@) =~= views(old(out)@) + wanted(
                all.take(i as int),
                views(exclude@),
                sources(patterns@),
            ),
        decreases paths.len() - i,
    {
        proof {
            assert(all.take(i + 1).drop_last() =~= all.take(i as int));
            assert(all.take(i + 1).last() == all[i as int]);
        }
        if paths[i].is_file && !path_excluded(paths[i].path.as_str(), exclude, patterns) {
            let ghost before = out@;
            out.push(paths[i].path.clone());
            proof {
                lemma_views_push(before, out@.last());
            }
        }
        i = i + 1;
    }
    assert(all.take(i as int) =~= all);
}

/// What a batch of events means for the index: removed and renamed paths leave it, and the
/// files that are new, changed or renamed to are indexed, unless they are left out.
pub fn plan_events(
    events: &Vec<FsEvent>,
    exclude: &Vec<String>,
    patterns: &Vec<PathPattern>,
) -> (r: WatchPlan)
    ensures
        views(r.deletes@) == deletes_of(event_views(events@)),
        views(r.upserts@) == upserts_of(event_views(events@), views(exclude@), sources(patterns@)),
{
    let ghost all = event_views(events@);
    let mut deletes: Vec<String> = Vec::new();
    let mut upserts: Vec<String> = Vec::new();
    let mut i: usize = 0;
    assert(all.take(0) =~= Seq::<FsEventView>::empty());
    while i < events.len()
        invariant
            i <= events@.len(),
            all == event_views(events@),
            views(deletes@) =~= deletes_of(all.take(i as int)),
            views(upserts@) =~= upserts_of(
                all.take(i as int),
                views(exclude@),
                sources(patterns@),
            ),
        decreases events.len() - i,
    {
        proof {
            assert(all.take(i + 1).drop_last() =~= all.take(i as int));
            assert(all.take(i + 1).last() == events@[i as int]@);
        }
        match events[i].kind {
            FsEventKind::Removed => push_ids(&mut deletes, &events[i].paths),
            FsEventKind::RenamedFrom => push_ids(&mut deletes, &events[i].paths),
            FsEventKind::RenamedTo => push_wanted(&mut upserts, &events[i].paths, exclude, patterns),
            FsEventKind::CreatedOrModified => push_wanted(
                &mut upserts,
                &events[i].paths,
                exclude,
                patterns,
            ),
            FsEventKind::Other => {},
        }
        i = i + 1;
    }
    assert(all.take(i as int) =~= all);
    WatchPlan { deletes, upserts }
}

/// No path that is left out is ever indexed for an event.
pub proof fn law_excluded_never_indexed(
    events: Seq<FsEventView>,
    subs: Seq<Seq<char>>,
    patterns: Seq<Seq<char>>,
)
    ensures
        forall|i: int|
            0 <= i < upserts_of(events, subs, patterns).len() ==> !excluded(
                #[trigger] upserts_of(events, subs, patterns)[i],
                subs,
                patterns,
            ),
    decreases events.len(),
{
    if events.len() > 0 {
        law_excluded_never_indexed(events.drop_last(), subs, patterns);
        let before = upserts_of(events.drop_last(), subs, patterns);
        let all = upserts_of(events, subs, patterns);
        let w = wanted(events.last().paths, subs, patterns);
        lemma_wanted(events.last().paths, subs, patterns);
        assert forall|i: int| 0 <= i < all.len() implies !excluded(
            #[trigger] all[i],
            subs,
            patterns,
        ) by {
            if i < before.len() {
                assert(all[i] == before[i]);
            } else {
                assert(all[i] == w[i - before.len()]);
            }
        }
    }
}

proof fn lemma_wanted(
    paths: Seq<EventPathView>,
    subs: Seq<Seq<char>>,
    patterns: Seq<Seq<char>>,
)
    ensures
        forall|i: int|
            0 <= i < wanted(paths, subs, patterns).len() ==> !excluded(
                #[trigger] wanted(paths, subs, patterns)[i],
                subs,
                patterns,
            ),
    decreases paths.len(),
{
    if paths.len() > 0 {
        lemma_wanted(paths.drop_last(), subs, patterns);
        let before = wanted(paths.drop_last(), subs, patterns);
        let all = wanted(paths, subs, patterns);
        assert forall|i: int| 0 <= i < all.len() implies !excluded(
            #[trigger] all[i],
            subs,
            patterns,
        ) by {
            if i < before.len() {
                assert(all[i] == before[i]);
            }
        }
    }
}

// --- Sources ---

/// How long, in milliseconds, a source is not indexed anew after it was.
pub const REINDEX_COOLDOWN_MS: u64 = 30_000;

/// Whether one of the paths is that of a desktop file.
pub open spec fn touches_apps(events: Seq<FsEventView>) -> bool {
    exists|i: int, j: int|
        0 <= i < events.len() && 0 <= j < events[i].paths.len() && extension_of(
            (#[trigger] events[i].paths[j]).path,
        ) == Some("desktop"@)
}

/// Whether a path is that of a mailbox: a file with a name that is not that of a summary.
pub open spec fn is_mbox(p: EventPathView) -> bool {
    p.is_file && (match file_name_of(p.path) {
        Some(n) => !ends_with(n, ".msf"@),
        None => false,
    })
}

/// Whether one of the paths is that of a mailbox.
pub open spec fn touches_mail(events: Seq<FsEventView>) -> bool {
    exists|i: int, j: int|
        0 <= i < events.len() && 0 <= j < events[i].paths.len() && is_mbox(
            #[trigger] events[i].paths[j],
        )
}

/// Whether one of the events is about a desktop file.
pub fn has_app_events(events: &Vec<FsEvent>) -> (r: bool)
    ensures
        r == touches_apps(event_views(events@)),
{
    let ghost all = event_views(events@);
    for i in 0..events.len()
        invariant
            all == event_views(events@),
            forall|a: int, b: int|
                0 <= a < i && 0 <= b < all[a].paths.len() ==> extension_of(
                    (#[trigger] all[a].paths[b]).path,
                ) != Some("desktop"@),
    {
        let n: usize = events[i].paths.len();
        for j in 0..n
            invariant
                i < events@.len(),
                n == events@[i as int].paths@.len(),
                all == event_views(events@),
                forall|b: int|
                    0 <= b < j ==> extension_of((#[trigger] all[i as int].paths[b]).path) != Some(
                        "desktop"@,
                    ),
        {
            assert(all[i as int].paths[j as int].path == events@[i as int].paths@[j as int].path@);
            let is_app = match extension(events[i].paths[j].path.as_str()) {
                Some(e) => same(e.as_str(), "desktop"),
                None => false,
            };
            if is_app {
                return true;
            }
        }
    }
    false
}

/// Whether one of the events is about a mailbox.
pub fn has_mbox_events(events: &Vec<FsEvent>) -> (r: bool)
    ensures
        r == touches_mail(event_views(events@)),
{
    let ghost all = event_views(events@);
    for i in 0..events.len()
        invariant
            all == event_views(events@),
            forall|a: int, b: int|
                0 <= a < i && 0 <= b < all[a].paths.len() ==> !is_mbox(#[trigger] all[a].paths[b]),
    {
        let n: usize = events[i].paths.len();
        for j in 0..n
            invariant
                i < events@.len(),
                n == events@[i as int].paths@.len(),
                all == event_views(events@),
                forall|b: int| 0 <= b < j ==> !is_mbox(#[trigger] all[i as int].paths[b]),
        {
            assert(all[i as int].paths[j as int] == (EventPathView {
                path: events@[i as int].paths@[j as int].path@,
                is_file: events@[i as int].paths@[j as int].is_file,
            }));
            let mail = events[i].paths[j].is_file && (match file_name(
                events[i].paths[j].path.as_str(),
            ) {
                Some(n) => !ends(n.as_str(), ".msf"),
                None => false,
            });
            if mail {
                return true;
            }
        }
    }
    false
}

/// When the sources were last indexed anew, in milliseconds of a clock that only goes
/// forward.
#[derive(Debug, Clone, Copy, PartialEq, Eq, Structural)]
pub struct SourceWatcher {
    pub last_apps: Option<u64>,
    pub last_attachments: Option<u64>,
}

/// Whether a source may be indexed anew at `now`.
pub open spec fn cooled_down(last: Option<u64>, now: u64) -> bool {
    match last {
        Some(t) => now - t >= REINDEX_COOLDOWN_MS,
        None => true,
    }
}

/// Whether a source may be indexed anew at `now`.
pub fn cooldown_expired(last: Option<u64>, now: u64) -> (r: bool)
    requires
        last matches Some(t) ==> t <= now,
    ensures
        r == cooled_down(last, now),
{
    match last {
        Some(t) => now - t >= REINDEX_COOLDOWN_MS,
        None => true,
    }
}

impl Default for SourceWatcher {
    fn default() -> (r: Self)
        ensures
            r.last_apps is None,
            r.last_attachments is None,
    {
        SourceWatcher { last_apps: None, last_attachments: None }
    }
}

/// Whether the applications are to be read anew.
pub open spec fn apps_wanted(w: SourceWatcher, events: Seq<FsEventView>, now: u64) -> bool {
    touches_apps(events) && cooled_down(w.last_apps, now)
}

/// Whether the attachments are to be read anew.
pub open spec fn attachments_wanted(w: SourceWatcher, events: Seq<FsEventView>, now: u64) -> bool {
    touches_mail(events) && cooled_down(w.last_attachments, now)
}

impl SourceWatcher {
    /// Whether the applications are to be indexed anew for the events.
    pub fn apps_due(&self, events: &Vec<FsEvent>, now: u64) -> (r: bool)
        requires
            self.last_apps matches Some(t) ==> t <= now,
        ensures
            r == apps_wanted(*self, event_views(events@), now),
    {
        has_app_events(events) && cooldown_expired(self.last_apps, now)
    }

    /// Whether the attachments are to be indexed anew for the events.
    pub fn attachments_due(&self, events: &Vec<FsEvent>, now: u64) -> (r: bool)
        requires
            self.last_attachments matches Some(t) ==> t <= now,
        ensures
            r == attachments_wanted(*self, event_views(events@), now),
    {
        has_mbox_events(events) && cooldown_expired(self.last_attachments, now)
    }

    /// The applications were indexed anew.
    pub fn apps_indexed(&mut self, now: u64)
        ensures
            *final(self) == (SourceWatcher { last_apps: Some(now), ..*old(self) }),
    {
        self.last_apps = Some(now);
    }

    /// The attachments were indexed anew.
    pub fn attachments_indexed(&mut self, now: u64)
        ensures
            *final(self) == (SourceWatcher { last_attachments: Some(now), ..*old(self) }),
    {
        self.last_attachments = Some(now);
    }
}

// --- Laws ---

/// Events are taken one after the other: what two runs of events call for is what the one calls
/// for, then what the other does.
pub proof fn law_events_in_order(
    a: Seq<FsEventView>,
    b: Seq<FsEventView>,
    subs: Seq<Seq<char>>,
    patterns: Seq<Seq<char>>,
)
    ensures
        deletes_of(a + b) == deletes_of(a) + deletes_of(b),
        upserts_of(a + b, subs, patterns) == upserts_of(a, subs, patterns) + upserts_of(
            b,
            subs,
            patterns,
        ),
    decreases b.len(),
{
    if b.len() == 0 {
        assert(a + b =~= a);
        assert(deletes_of(a + b) =~= deletes_of(a) + deletes_of(b));
        assert(upserts_of(a + b, subs, patterns) =~= upserts_of(a, subs, patterns) + upserts_of(
            b,
            subs,
            patterns,
        ));
    } else {
        law_events_in_order(a, b.drop_last(), subs, patterns);
        assert((a + b).drop_last() =~= a + b.drop_last());
        assert((a + b).last() == b.last());
        assert(deletes_of(a + b) =~= deletes_of(a) + deletes_of(b));
        assert(upserts_of(a + b, subs, patterns) =~= upserts_of(a, subs, patterns) + upserts_of(
            b,
            subs,
            patterns,
        ));
    }
}

/// Every path that went away, or was renamed to another, has its document taken out, be it
/// excluded or not, and nothing of such an event is indexed.
pub proof fn law_gone_files(e: FsEventView, i: int, subs: Seq<Seq<char>>, patterns: Seq<Seq<char>>)
    requires
        0 <= i < e.paths.len(),
        e.kind == FsEventKind::Removed || e.kind == FsEventKind::RenamedFrom,
    ensures
        deletes_of(seq![e]).len() == e.paths.len(),
        deletes_of(seq![e])[i] == "fs:"@ + e.paths[i].path,
        upserts_of(seq![e], subs, patterns).len() == 0,
{
    assert(seq![e].drop_last() =~= Seq::empty());
    assert(deletes_of(seq![e].drop_last()) =~= Seq::empty());
    assert(deletes_of(seq![e]) =~= ids_of(e.paths));
    assert(upserts_of(seq![e].drop_last(), subs, patterns) =~= Seq::empty());
}

/// Every file that appeared, changed or got a new name is indexed, unless it is excluded, and
/// nothing else is; nothing of such an event is taken out. Other events call for nothing.
pub proof fn law_changed_files(
    e: FsEventView,
    path: Seq<char>,
    subs: Seq<Seq<char>>,
    patterns: Seq<Seq<char>>,
)
    requires
        e.kind != FsEventKind::Removed && e.kind != FsEventKind::RenamedFrom,
    ensures
        deletes_of(seq![e]).len() == 0,
        upserts_of(seq![e], subs, patterns).contains(path) <==> e.kind != FsEventKind::Other
            && !excluded(path, subs, patterns) && exists|i: int|
            0 <= i < e.paths.len() && (#[trigger] e.paths[i]).path == path && e.paths[i].is_file,
{
    assert(seq![e].drop_last() =~= Seq::empty());
    assert(deletes_of(seq![e].drop_last()).len() == 0);
    lemma_wanted_iff(e.paths, path, subs, patterns);
    assert(upserts_of(seq![e].drop_last(), subs, patterns) =~= Seq::empty());
    if adds(e.kind) {
        assert(upserts_of(seq![e], subs, patterns) =~= wanted(e.paths, subs, patterns));
    } else {
        assert(upserts_of(seq![e], subs, patterns) =~= Seq::empty());
    }
}

proof fn lemma_wanted_iff(
    paths: Seq<EventPathView>,
    path: Seq<char>,
    subs: Seq<Seq<char>>,
    patterns: Seq<Seq<char>>,
)
    ensures
        wanted(paths, subs, patterns).contains(path) <==> !excluded(path, subs, patterns)
            && exists|i: int|
            0 <= i < paths.len() && (#[trigger] paths[i]).path == path && paths[i].is_file,
    decreases paths.len(),
{
    if paths.len() > 0 {
        let t = paths.drop_last();
        let before = wanted(t, subs, patterns);
        let now = wanted(paths, subs, patterns);
        lemma_wanted_iff(t, path, subs, patterns);
        if before.contains(path) {
            let k = choose|k: int| 0 <= k < before.len() && before[k] == path;
            assert(now[k] == path);
            let i = choose|i: int|
                0 <= i < t.len() && (#[trigger] t[i]).path == path && t[i].is_file;
            assert(paths[i] == t[i]);
        }
        if exists|i: int|
            0 <= i < paths.len() && (#[trigger] paths[i]).path == path && paths[i].is_file {
            let i = choose|i: int|
                0 <= i < paths.len() && (#[trigger] paths[i]).path == path && paths[i].is_file;
            if i < t.len() {
                assert(t[i] == paths[i]);
            } else if !excluded(path, subs, patterns) {
                assert(now == before.push(path));
                assert(now[before.len() as int] == path);
            }
        }
        if now.contains(path) && !before.contains(path) {
            let k = choose|k: int| 0 <= k < now.len() && now[k] == path;
            if k < before.len() {
                assert(before[k] == path);
            }
            assert(paths[paths.len() - 1].path == path);
        }
    }
}

/// A renamed file moves in the index: its old document goes, and the new one comes where it is
/// not excluded.
pub proof fn law_renamed_file(
    from: Seq<char>,
    to: Seq<char>,
    subs: Seq<Seq<char>>,
    patterns: Seq<Seq<char>>,
)
    requires
        !excluded(to, subs, patterns),
    ensures
        ({
            let a = FsEventView {
                kind: FsEventKind::RenamedFrom,
                paths: seq![EventPathView { path: from, is_file: false }],
            };
            let b = FsEventView {
                kind: FsEventKind::RenamedTo,
                paths: seq![EventPathView { path: to, is_file: true }],
            };
            &&& deletes_of(seq![a, b]) == seq!["fs:"@ + from]
            &&& upserts_of(seq![a, b], subs, patterns) == seq![to]
        }),
{
    let a = FsEventView {
        kind: FsEventKind::RenamedFrom,
        paths: seq![EventPathView { path: from, is_file: false }],
    };
    let b = FsEventView {
        kind: FsEventKind::RenamedTo,
        paths: seq![EventPathView { path: to, is_file: true }],
    };
    law_events_in_order(seq![a], seq![b], subs, patterns);
    assert(seq![a] + seq![b] =~= seq![a, b]);
    law_gone_files(a, 0, subs, patterns);
    law_changed_files(b, to, subs, patterns);
    assert(deletes_of(seq![a, b]) =~= seq!["fs:"@ + from]);
    assert(seq![b].drop_last() =~= Seq::empty());
    assert(b.paths.drop_last() =~= Seq::empty());
    assert(wanted(b.paths.drop_last(), subs, patterns) =~= Seq::empty());
    assert(wanted(b.paths, subs, patterns) =~= seq![to]);
    assert(upserts_of(seq![b].drop_last(), subs, patterns) =~= Seq::empty());
    assert(upserts_of(seq![a, b], subs, patterns) =~= seq![to]);
}

/// The applications are read anew for a desktop file in any event, and the mail for a file that
/// is not a mail index, whatever happened to it and whatever else happened.
pub proof fn law_touched_sources(a: Seq<FsEventView>, e: FsEventView, b: Seq<FsEventView>, j: int)
    requires
        0 <= j < e.paths.len(),
    ensures
        extension_of(e.paths[j].path) == Some("desktop"@) ==> touches_apps(a + seq![e] + b),
        e.paths[j].is_file && file_name_of(e.paths[j].path) is Some && !ends_with(
            file_name_of(e.paths[j].path)->0,
            ".msf"@,
        ) ==> touches_mail(a + seq![e] + b),
        touches_apps(a + b) <==> touches_apps(a) || touches_apps(b),
        touches_mail(a + b) <==> touches_mail(a) || touches_mail(b),
        !touches_apps(Seq::empty()) && !touches_mail(Seq::empty()),
{
    let all = a + seq![e] + b;
    let n = a.len() as int;
    assert(all[n] == e);
    assert(all[n].paths[j] == e.paths[j]);
    let ab = a + b;
    assert forall|i: int, k: int|
        0 <= i < a.len() && 0 <= k < a[i].paths.len() implies #[trigger] a[i].paths[k]
        == ab[i].paths[k] by {}
    assert forall|i: int, k: int|
        0 <= i < b.len() && 0 <= k < b[i].paths.len() implies #[trigger] b[i].paths[k] == ab[i
        + n].paths[k] by {}
    if touches_apps(ab) {
        let (i, k) = choose|i: int, k: int|
            0 <= i < ab.len() && 0 <= k < ab[i].paths.len() && extension_of(
                (#[trigger] ab[i].paths[k]).path,
            ) == Some("desktop"@);
        if i < n {
            assert(a[i].paths[k] == ab[i].paths[k]);
        } else {
            assert(b[i - n].paths[k] == ab[i].paths[k]);
        }
    }
    if touches_mail(ab) {
        let (i, k) = choose|i: int, k: int|
            0 <= i < ab.len() && 0 <= k < ab[i].paths.len() && is_mbox(
                #[trigger] ab[i].paths[k],
            );
        if i < n {
            assert(a[i].paths[k] == ab[i].paths[k]);
        } else {
            assert(b[i - n].paths[k] == ab[i].paths[k]);
        }
    }
}

/// A source that was just read is not read again before the wait is over, and is afterwards; one
/// that was never read is at once.
pub proof fn law_cooldown(t: u64, now: u64)
    requires
        t <= now,
    ensures
        cooled_down(Some(t), now) <==> t + REINDEX_COOLDOWN_MS <= now,
        cooled_down(None, now),
        !cooled_down(Some(now), now),
        t + 30_000 <= now ==> cooled_down(Some(t), now),
{
}

/// A source that was read is due again only for an event of its own, and only once its wait is
/// over; reading the one does not make the other wait.
pub proof fn law_due(w: SourceWatcher, events: Seq<FsEventView>, t: u64, now: u64)
    requires
        t <= now,
    ensures
        ({
            let a = SourceWatcher { last_apps: Some(t), ..w };
            let b = SourceWatcher { last_attachments: Some(t), ..w };
            &&& now < t + REINDEX_COOLDOWN_MS ==> !apps_wanted(a, events, now)
                && !attachments_wanted(b, events, now)
            &&& now >= t + REINDEX_COOLDOWN_MS ==> apps_wanted(a, events, now) == touches_apps(
                events,
            ) && attachments_wanted(b, events, now) == touches_mail(events)
            &&& apps_wanted(b, events, now) == apps_wanted(w, events, now)
            &&& attachments_wanted(a, events, now) == attachments_wanted(w, events, now)
        }),
        w.last_apps is None ==> apps_wanted(w, events, now) == touches_apps(events),
        w.last_attachments is None ==> attachments_wanted(w, events, now) == touches_mail(events),
{
}

}
