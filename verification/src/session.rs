//! The launcher: what it shows, what survives when it is put away, and what it asks for.
use crate::actions::{execute_action, execute_secondary_action, ActionPlan};
use crate::messages::Calculation;
use crate::model::{clone_hits, Action, Category, Hit};
use crate::rows::{
    chip_category, select_row, synthetic_history_hits, visible_rows, CHIP_COUNT,
};
use vstd::prelude::*;
use vstd::string::*;

verus! {

use crate::actions::{primary_plan, secondary_plan, PlanView};
use crate::model::ActionView;
use crate::rows::{chip_of, history_hit, rows_of, selected_row};
use crate::text::{opt_view, views};

/// How many hits the launcher asks for.
pub const SEARCH_LIMIT: u32 = 30;

/// For how many milliseconds after it was shown a loss of the focus is passed over.
pub const JUST_SHOWED_GUARD_MS: u64 = 150;

/// For how many milliseconds typing has to rest before a search.
pub const DEBOUNCE_MS: u64 = 80;

/// What survives of a session when the launcher is put away without anything being opened.
pub struct SessionSnapshot<S> {
    pub query: String,
    pub hits: Vec<Hit<S>>,
    pub selected_doc_id: Option<String>,
    pub category: Option<Category>,
    pub chip_index: usize,
}

/// What a snapshot holds.
pub struct SnapshotView<S> {
    pub query: Seq<char>,
    pub hits: Seq<Hit<S>>,
    pub selected_doc_id: Option<Seq<char>>,
    pub category: Option<Category>,
    pub chip_index: usize,
}

impl<S> View for SessionSnapshot<S> {
    type V = SnapshotView<S>;

    open spec fn view(&self) -> SnapshotView<S> {
        SnapshotView {
            query: self.query@,
            hits: self.hits@,
            selected_doc_id: opt_view(self.selected_doc_id),
            category: self.category,
            chip_index: self.chip_index,
        }
    }
}

/// What the line below the rows says.
pub enum Status {
    Hidden,
    Loading,
    Calculation(Calculation),
    Empty(String),
}

/// What a status holds.
pub enum StatusView {
    Hidden,
    Loading,
    Calculation(Calculation),
    Empty(Seq<char>),
}

impl View for Status {
    type V = StatusView;

    open spec fn view(&self) -> StatusView {
        match self {
            Status::Hidden => StatusView::Hidden,
            Status::Loading => StatusView::Loading,
            Status::Calculation(c) => StatusView::Calculation(*c),
            Status::Empty(q) => StatusView::Empty(q@),
        }
    }
}

/// A search that the launcher asks for, and the session that it belongs to.
pub struct SearchRequest {
    pub q: String,
    pub limit: u32,
    pub epoch: u64,
}

/// What a search request holds.
pub struct RequestView {
    pub q: Seq<char>,
    pub limit: u32,
    pub epoch: u64,
}

impl View for SearchRequest {
    type V = RequestView;

    open spec fn view(&self) -> RequestView {
        RequestView { q: self.q@, limit: self.limit, epoch: self.epoch }
    }
}

/// What an optional search request holds.
pub open spec fn opt_request(o: Option<SearchRequest>) -> Option<RequestView> {
    match o {
        Some(r) => Some(r@),
        None => None,
    }
}

/// The launcher.
pub struct LauncherController<S> {
    /// Whether the window is on the screen.
    pub visible: bool,
    /// The text in the search field.
    pub query: String,
    /// The hits.
    pub hits: Vec<Hit<S>>,
    /// The selected one of the rows that are shown.
    pub selected: Option<usize>,
    /// The category that the rows are narrowed to.
    pub category: Option<Category>,
    /// The chip that is chosen.
    pub chip_index: usize,
    /// What survives of the last session.
    pub cached: Option<SessionSnapshot<S>>,
    /// The number of the session.
    pub epoch: u64,
    /// The text to search for once typing rests.
    pub pending: Option<String>,
    /// The text that was last searched for.
    pub last_query: String,
    /// Whether the selected row was chosen and not just the first.
    pub user_selected: bool,
    /// Whether the chips are shown.
    pub chips_shown: bool,
    /// Whether the rows are shown.
    pub results_shown: bool,
    /// What the line below the rows says.
    pub status: Status,
    /// Until when, in milliseconds, a loss of the focus is passed over.
    pub guard_until: u64,
}

/// What the launcher holds.
pub struct LauncherView<S> {
    pub visible: bool,
    pub query: Seq<char>,
    pub hits: Seq<Hit<S>>,
    pub selected: Option<int>,
    pub category: Option<Category>,
    pub chip_index: usize,
    pub cached: Option<SnapshotView<S>>,
    pub epoch: u64,
    pub pending: Option<Seq<char>>,
    pub last_query: Seq<char>,
    pub user_selected: bool,
    pub chips_shown: bool,
    pub results_shown: bool,
    pub status: StatusView,
    pub guard_until: u64,
}

impl<S> View for LauncherController<S> {
    type V = LauncherView<S>;

    open spec fn view(&self) -> LauncherView<S> {
        LauncherView {
            visible: self.visible,
            query: self.query@,
            hits: self.hits@,
            selected: (match self.selected {
                Some(i) => Some(i as int),
                None => None,
            }),
            category: self.category,
            chip_index: self.chip_index,
            cached: (match self.cached {
                Some(s) => Some(s@),
                None => None,
            }),
            epoch: self.epoch,
            pending: opt_view(self.pending),
            last_query: self.last_query@,
            user_selected: self.user_selected,
            chips_shown: self.chips_shown,
            results_shown: self.results_shown,
            status: self.status@,
            guard_until: self.guard_until,
        }
    }
}

/// The number of the session that follows.
pub open spec fn next_epoch(e: u64) -> u64 {
    if e == u64::MAX {
        0
    } else {
        (e + 1) as u64
    }
}

/// The rows of the launcher.
pub open spec fn launcher_rows<S>(v: LauncherView<S>) -> Seq<Seq<char>> {
    rows_of(v.hits, v.category)
}

/// The document of the selected row.
pub open spec fn selected_id<S>(v: LauncherView<S>) -> Option<Seq<char>> {
    match v.selected {
        Some(i) => if 0 <= i < launcher_rows(v).len() {
            Some(launcher_rows(v)[i])
        } else {
            None
        },
        None => None,
    }
}

/// The launcher at start.
pub open spec fn fresh<S>() -> LauncherView<S> {
    LauncherView {
        visible: false,
        query: Seq::empty(),
        hits: Seq::empty(),
        selected: None,
        category: None,
        chip_index: 0,
        cached: None,
        epoch: 0,
        pending: None,
        last_query: Seq::empty(),
        user_selected: false,
        chips_shown: false,
        results_shown: false,
        status: StatusView::Hidden,
        guard_until: 0,
    }
}

/// The launcher once its session was put by: a new session begins, so that answers to
/// earlier searches are dropped; with a query, the session is kept.
pub open spec fn persisted<S>(v: LauncherView<S>) -> LauncherView<S> {
    LauncherView {
        epoch: next_epoch(v.epoch),
        pending: None,
        cached: if v.query.len() == 0 {
            None
        } else {
            Some(
                SnapshotView {
                    query: v.query,
                    hits: v.hits,
                    selected_doc_id: selected_id(v),
                    category: v.category,
                    chip_index: v.chip_index,
                },
            )
        },
        ..v
    }
}

/// The launcher once its session was dropped.
pub open spec fn cleared<S>(v: LauncherView<S>) -> LauncherView<S> {
    LauncherView {
        query: Seq::empty(),
        hits: Seq::empty(),
        selected: None,
        category: None,
        chip_index: 0,
        cached: None,
        epoch: next_epoch(v.epoch),
        pending: None,
        last_query: Seq::empty(),
        user_selected: false,
        chips_shown: false,
        results_shown: false,
        status: StatusView::Hidden,
        ..v
    }
}

/// The launcher once a session was taken up again.
pub open spec fn restored<S>(v: LauncherView<S>, s: SnapshotView<S>) -> LauncherView<S> {
    LauncherView {
        query: s.query,
        hits: s.hits,
        selected: selected_row(rows_of(s.hits, s.category), s.selected_doc_id),
        category: s.category,
        chip_index: s.chip_index,
        last_query: s.query,
        user_selected: true,
        chips_shown: true,
        results_shown: v.results_shown || s.hits.len() > 0,
        ..v
    }
}

/// The end of the time during which a loss of the focus is passed over.
pub open spec fn guard_end(now: u64) -> u64 {
    if now > u64::MAX - JUST_SHOWED_GUARD_MS {
        u64::MAX
    } else {
        (now + JUST_SHOWED_GUARD_MS) as u64
    }
}

/// The launcher once it was shown.
pub open spec fn shown<S>(v: LauncherView<S>, now: u64) -> LauncherView<S> {
    let w = match v.cached {
        Some(s) => LauncherView { cached: None, ..restored(v, s) },
        None => v,
    };
    LauncherView { visible: true, guard_until: guard_end(now), ..w }
}

/// What showing the launcher asks for: the search of the session that was taken up again.
pub open spec fn shown_request<S>(v: LauncherView<S>) -> Option<RequestView> {
    match v.cached {
        Some(s) => Some(RequestView { q: s.query, limit: SEARCH_LIMIT, epoch: v.epoch }),
        None => None,
    }
}

/// The launcher once the text in the search field was changed.
pub open spec fn typed<S>(v: LauncherView<S>, text: Seq<char>) -> LauncherView<S> {
    if text.len() == 0 {
        LauncherView {
            query: text,
            hits: Seq::empty(),
            selected: None,
            pending: None,
            user_selected: false,
            chips_shown: false,
            results_shown: false,
            status: StatusView::Hidden,
            ..v
        }
    } else {
        LauncherView {
            query: text,
            pending: Some(text),
            user_selected: false,
            chips_shown: true,
            ..v
        }
    }
}

/// The launcher once typing has rested.
pub open spec fn rested<S>(v: LauncherView<S>) -> LauncherView<S> {
    match v.pending {
        Some(q) => LauncherView {
            pending: None,
            last_query: q,
            status: StatusView::Loading,
            ..v
        },
        None => v,
    }
}

/// The launcher once it was toggled.
pub open spec fn toggled<S>(v: LauncherView<S>, now: u64) -> LauncherView<S> {
    if v.visible {
        persisted(v)
    } else {
        shown(v, now)
    }
}

/// What toggling the launcher asks for.
pub open spec fn toggled_request<S>(v: LauncherView<S>) -> Option<RequestView> {
    if v.visible {
        None
    } else {
        shown_request(v)
    }
}

/// The search that is asked for once typing has rested: one for what was typed last, where it
/// was not asked for yet.
pub open spec fn rested_request<S>(v: LauncherView<S>) -> Option<RequestView> {
    match v.pending {
        Some(q) => Some(RequestView { q, limit: SEARCH_LIMIT, epoch: v.epoch }),
        None => None,
    }
}

/// The launcher once its window lost the focus.
pub open spec fn unfocused<S>(v: LauncherView<S>, now: u64) -> LauncherView<S> {
    if now >= v.guard_until {
        persisted(v)
    } else {
        v
    }
}

/// The launcher once a chip was chosen.
pub open spec fn narrowed<S>(v: LauncherView<S>, index: usize) -> LauncherView<S> {
    if index < CHIP_COUNT {
        LauncherView { chip_index: index, category: chip_of(index as int), ..v }
    } else {
        v
    }
}

/// The launcher once the user chose a row.
pub open spec fn chosen<S>(v: LauncherView<S>, row: Option<int>) -> LauncherView<S> {
    LauncherView { selected: row, user_selected: true, ..v }
}

/// The row that an answer selects: that of the row that was chosen before, else the first
/// hit's.
pub open spec fn answer_row<S>(v: LauncherView<S>, hits: Seq<Hit<S>>) -> Option<int> {
    if hits.len() == 0 {
        None
    } else {
        let prior = if v.user_selected {
            selected_id(v)
        } else {
            None
        };
        let wanted = match prior {
            Some(id) => Some(id),
            None => Some(hits[0].id.0@),
        };
        selected_row(rows_of(hits, v.category), wanted)
    }
}

/// The launcher once an answer to a search came.
pub open spec fn answered<S>(
    v: LauncherView<S>,
    hits: Seq<Hit<S>>,
    calculation: Option<Calculation>,
) -> LauncherView<S> {
    let w = LauncherView { hits, selected: answer_row(v, hits), ..v };
    match calculation {
        Some(c) => LauncherView {
            chips_shown: true,
            results_shown: false,
            status: StatusView::Calculation(c),
            ..w
        },
        None => if hits.len() > 0 {
            LauncherView {
                chips_shown: true,
                results_shown: true,
                status: StatusView::Hidden,
                ..w
            }
        } else if v.last_query.len() > 0 {
            LauncherView {
                chips_shown: true,
                results_shown: false,
                status: StatusView::Empty(v.last_query),
                ..w
            }
        } else {
            LauncherView {
                chips_shown: false,
                results_shown: false,
                status: StatusView::Hidden,
                ..w
            }
        },
    }
}

/// What the line below the rows says where a search for the text found nothing.
pub fn empty_text(q: &str) -> (r: String)
    ensures
        r@ == "No results for '"@ + q@ + "' \u{2014} Search the web"@,
{
    let mut r = String::new();
    r.append("No results for '");
    r.append(q);
    r.append("' \u{2014} Search the web");
    assert(r@ =~= "No results for '"@ + q@ + "' \u{2014} Search the web"@);
    r
}

/// The launcher once earlier searches were asked for; without any it stays as it is. The rows
/// are the searches, and the first is selected.
pub open spec fn recalled<S>(v: LauncherView<S>, hits: Seq<Hit<S>>) -> LauncherView<S> {
    if hits.len() == 0 {
        v
    } else {
        LauncherView {
            hits,
            selected: selected_row(rows_of(hits, v.category), None),
            results_shown: true,
            status: StatusView::Hidden,
            ..v
        }
    }
}

impl<S: Copy> Default for LauncherController<S> {
    fn default() -> (r: Self)
        ensures
            r@ == fresh::<S>(),
    {
        let r = LauncherController {
            visible: false,
            query: String::new(),
            hits: Vec::new(),
            selected: None,
            category: None,
            chip_index: 0,
            cached: None,
            epoch: 0,
            pending: None,
            last_query: String::new(),
            user_selected: false,
            chips_shown: false,
            results_shown: false,
            status: Status::Hidden,
            guard_until: 0,
        };
        assert(r@.query =~= Seq::empty());
        assert(r@.last_query =~= Seq::empty());
        assert(r@.hits =~= Seq::empty());
        r
    }
}

impl<S: Copy> LauncherController<S> {
    fn bump(&mut self)
        ensures
            final(self)@ == (LauncherView { epoch: next_epoch(old(self)@.epoch), ..old(self)@ }),
    {
        if self.epoch == u64::MAX {
            self.epoch = 0;
        } else {
            self.epoch = self.epoch + 1;
        }
    }

    /// The documents of the rows that are shown.
    pub fn rows(&self) -> (r: Vec<String>)
        ensures
            views(r@) == launcher_rows(self@),
    {
        visible_rows(&self.hits, self.category)
    }

    /// The document of the selected row.
    pub fn selected_doc_id(&self) -> (r: Option<String>)
        ensures
            opt_view(r) == selected_id(self@),
    {
        match self.selected {
            Some(i) => {
                let rows = self.rows();
                if i < rows.len() {
                    assert(views(rows@)[i as int] == rows@[i as int]@);
                    Some(rows[i].clone())
                } else {
                    None
                }
            },
            None => None,
        }
    }

    /// Puts the session by, so that it can be taken up again.
    pub fn persist_session(&mut self)
        ensures
            final(self)@ == persisted(old(self)@),
    {
        let selected_doc_id = self.selected_doc_id();
        self.bump();
        self.pending = None;
        if self.query.as_str().is_empty() {
            self.cached = None;
        } else {
            self.cached = Some(
                SessionSnapshot {
                    query: self.query.clone(),
                    hits: clone_hits(&self.hits),
                    selected_doc_id,
                    category: self.category,
                    chip_index: self.chip_index,
                },
            );
        }
    }

    /// Drops the session.
    pub fn clear_session(&mut self)
        ensures
            final(self)@ == cleared(old(self)@),
    {
        self.bump();
        self.cached = None;
        self.user_selected = false;
        self.pending = None;
        self.query = String::new();
        self.chip_index = 0;
        self.category = None;
        self.hits = Vec::new();
        self.selected = None;
        self.results_shown = false;
        self.chips_shown = false;
        self.status = Status::Hidden;
        self.last_query = String::new();
        assert(self@.query =~= Seq::empty());
        assert(self@.last_query =~= Seq::empty());
        assert(self@.hits =~= Seq::empty());
    }

    /// Takes a session up again, and asks for its search anew.
    pub fn restore_session(&mut self, s: SessionSnapshot<S>) -> (r: SearchRequest)
        ensures
            final(self)@ == restored(old(self)@, s@),
            r@ == (RequestView { q: s@.query, limit: SEARCH_LIMIT, epoch: old(self)@.epoch }),
    {
        let rows = visible_rows(&s.hits, s.category);
        let selected = select_row(&rows, &s.selected_doc_id);
        let had_hits = s.hits.len() > 0;
        let q = s.query.clone();
        self.chip_index = s.chip_index;
        self.category = s.category;
        self.last_query = s.query.clone();
        self.hits = s.hits;
        self.selected = selected;
        self.chips_shown = true;
        if had_hits {
            self.results_shown = true;
        }
        self.query = s.query;
        self.user_selected = true;
        SearchRequest { q, limit: SEARCH_LIMIT, epoch: self.epoch }
    }

    /// Shows the launcher, with the session that was put by, where there is one.
    pub fn show(&mut self, now: u64) -> (r: Option<SearchRequest>)
        ensures
            final(self)@ == shown(old(self)@, now),
            opt_request(r) == shown_request(old(self)@),
    {
        let cached = self.cached.take();
        let request = match cached {
            Some(s) => Some(self.restore_session(s)),
            None => None,
        };
        self.visible = true;
        self.guard_until = if now > u64::MAX - JUST_SHOWED_GUARD_MS {
            u64::MAX
        } else {
            now + JUST_SHOWED_GUARD_MS
        };
        request
    }

    /// Puts the launcher away and its session by. The window leaves the screen when the
    /// animation is over.
    pub fn put_away(&mut self)
        ensures
            final(self)@ == persisted(old(self)@),
    {
        self.persist_session();
    }

    /// Puts the launcher away and drops its session, once something was opened.
    pub fn clear_and_hide(&mut self)
        ensures
            final(self)@ == cleared(old(self)@),
    {
        self.clear_session();
    }

    /// The animation is over, and the window has left the screen.
    pub fn vanished(&mut self)
        ensures
            final(self)@ == (LauncherView { visible: false, ..old(self)@ }),
    {
        self.visible = false;
    }

    /// Shows the launcher, or puts it away where it is on the screen; says whether it is then
    /// meant to be seen.
    pub fn toggle(&mut self, now: u64) -> (r: (bool, Option<SearchRequest>))
        ensures
            final(self)@ == toggled(old(self)@, now),
            r.0 == !old(self)@.visible,
            opt_request(r.1) == toggled_request(old(self)@),
    {
        if self.visible {
            self.put_away();
            (false, None)
        } else {
            (true, self.show(now))
        }
    }

    /// The window lost the focus: it is put away, unless it was only just shown; says whether
    /// it is.
    pub fn focus_lost(&mut self, now: u64) -> (r: bool)
        ensures
            r == (now >= old(self)@.guard_until),
            final(self)@ == unfocused(old(self)@, now),
    {
        if now < self.guard_until {
            return false;
        }
        self.put_away();
        true
    }

    /// Drops the session that was put by.
    pub fn drop_cached_session(&mut self)
        ensures
            final(self)@ == (LauncherView { cached: None, ..old(self)@ }),
    {
        self.cached = None;
    }

    /// The user chose a row.
    pub fn select(&mut self, row: Option<usize>)
        ensures
            final(self)@ == chosen(
                old(self)@,
                (match row {
                    Some(i) => Some(i as int),
                    None => None,
                }),
            ),
    {
        self.selected = row;
        self.mark_user_selected();
    }

    /// The selected row is one that the user chose.
    pub fn mark_user_selected(&mut self)
        ensures
            final(self)@ == (LauncherView { user_selected: true, ..old(self)@ }),
    {
        self.user_selected = true;
    }

    /// A chip was chosen; a number without a chip changes nothing. Which of the rows that are
    /// then shown is selected, the list itself decides.
    pub fn activate_chip(&mut self, index: usize)
        ensures
            final(self)@ == narrowed(old(self)@, index),
    {
        if index < CHIP_COUNT {
            self.chip_index = index;
            self.category = chip_category(index);
        }
    }

    /// The list moved its selection by itself.
    pub fn selection_moved(&mut self, row: Option<usize>)
        ensures
            final(self)@ == (LauncherView {
                selected: (match row {
                    Some(i) => Some(i as int),
                    None => None,
                }),
                ..old(self)@
            }),
    {
        self.selected = row;
    }

    /// The text in the search field was changed.
    pub fn entry_changed(&mut self, text: String)
        ensures
            final(self)@ == typed(old(self)@, text@),
    {
        self.user_selected = false;
        if text.as_str().is_empty() {
            self.query = text;
            self.pending = None;
            self.hits = Vec::new();
            self.selected = None;
            self.chips_shown = false;
            self.results_shown = false;
            self.status = Status::Hidden;
            assert(self@.hits =~= Seq::empty());
        } else {
            self.query = text.clone();
            self.chips_shown = true;
            self.pending = Some(text);
        }
    }

    /// Typing has rested: the search that is then asked for.
    pub fn typing_rested(&mut self) -> (r: Option<SearchRequest>)
        ensures
            final(self)@ == rested(old(self)@),
            opt_request(r) == rested_request(old(self)@),
    {
        match self.pending.take() {
            Some(q) => {
                self.last_query = q.clone();
                self.status = Status::Loading;
                Some(SearchRequest { q, limit: SEARCH_LIMIT, epoch: self.epoch })
            },
            None => None,
        }
    }

    /// Earlier searches were asked for, and these came.
    pub fn show_history(&mut self, queries: &Vec<String>, score: S)
        ensures
            exists|hits: Seq<Hit<S>>|
                {
                    &&& hits.len() == queries@.len()
                    &&& forall|i: int|
                        0 <= i < hits.len() ==> (#[trigger] hits[i])@ == history_hit(
                            i as nat,
                            queries@[i]@,
                            score,
                        )
                    &&& final(self)@ == #[trigger] recalled(old(self)@, hits)
                },
    {
        let hits = synthetic_history_hits(queries, score);
        let ghost given = hits@;
        if hits.len() > 0 {
            let rows = visible_rows(&hits, self.category);
            self.selected = select_row(&rows, &None);
            self.hits = hits;
            self.results_shown = true;
            self.status = Status::Hidden;
        }
        assert(self@ == recalled(old(self)@, given));
    }

    /// An answer to a search came.
    pub fn answer(&mut self, hits: Vec<Hit<S>>, calculation: Option<Calculation>)
        ensures
            final(self)@ == answered(old(self)@, hits@, calculation),
    {
        let prior = if self.user_selected {
            self.selected_doc_id()
        } else {
            None
        };
        let some_hits = hits.len() > 0;
        let selected: Option<usize> = if some_hits {
            let wanted = match prior {
                Some(id) => Some(id),
                None => Some(hits[0].id.0.clone()),
            };
            let rows = visible_rows(&hits, self.category);
            select_row(&rows, &wanted)
        } else {
            None
        };
        self.hits = hits;
        self.selected = selected;
        match calculation {
            Some(c) => {
                self.chips_shown = true;
                self.results_shown = false;
                self.status = Status::Calculation(c);
            },
            None => {
                if some_hits {
                    self.chips_shown = true;
                    self.results_shown = true;
                    self.status = Status::Hidden;
                } else if !self.last_query.as_str().is_empty() {
                    self.chips_shown = true;
                    self.results_shown = false;
                    self.status = Status::Empty(self.last_query.clone());
                } else {
                    self.chips_shown = false;
                    self.results_shown = false;
                    self.status = Status::Hidden;
                }
            },
        }
    }
}

// --- Opening a hit ---

/// What opening the selected hit comes to.
pub enum Activation {
    /// No hit is selected: the launcher is put away.
    Dismiss,
    /// The text takes the place of the query, and the launcher stays.
    Replace(String),
    /// The click is recorded, the plan is carried out, and the session is dropped.
    Run(ActionPlan),
}

/// What opening a hit with this action, if there is one, comes to.
pub open spec fn activates(
    action: Option<ActionView>,
    secondary: bool,
    is_dir: bool,
    r: Activation,
) -> bool {
    match action {
        None => r is Dismiss,
        Some(ActionView::ReplaceQuery { q }) => r matches Activation::Replace(t) && t@ == q,
        Some(a) => r matches Activation::Run(p) && p@ == (if secondary {
            secondary_plan(a, is_dir)
        } else {
            primary_plan(a, is_dir)
        }),
    }
}

/// What opening a hit comes to. `is_dir` says whether there is a directory at the path of its
/// action, where it has one.
pub fn activate<S>(hit: Option<&Hit<S>>, secondary: bool, is_dir: bool) -> (r: Activation)
    ensures
        activates(
            (match hit {
                Some(h) => Some(h.action@),
                None => None,
            }),
            secondary,
            is_dir,
            r,
        ),
{
    match hit {
        None => Activation::Dismiss,
        Some(h) => match &h.action {
            Action::ReplaceQuery { q } => Activation::Replace(q.clone()),
            _ => {
                if secondary {
                    Activation::Run(execute_secondary_action(&h.action, is_dir))
                } else {
                    Activation::Run(execute_action(&h.action, is_dir))
                }
            },
        },
    }
}

/// Whether the launcher goes away once a hit was opened by a key or by a double click: after a
/// double click only if that succeeded.
pub fn leaves_after_open(by_click: bool, succeeded: bool) -> (r: bool)
    ensures
        r == (!by_click || succeeded),
{
    !by_click || succeeded
}

/// Whether so many presses of the mouse button open a row.
pub fn opens_on_click(presses: i32) -> (r: bool)
    ensures
        r == (presses == 2),
{
    presses == 2
}

// --- Laws ---

/// What was typed, found and narrowed is there again when the launcher is shown after it was
/// put away, its search is asked for anew in the new session, and the selected document is
/// selected again.
pub proof fn law_session_survives<S>(v: LauncherView<S>, now: u64)
    requires
        v.query.len() > 0,
    ensures
        ({
            let w = shown(persisted(v), now);
            &&& w.visible
            &&& w.query == v.query
            &&& w.hits == v.hits
            &&& w.category == v.category
            &&& w.chip_index == v.chip_index
            &&& w.last_query == v.query
            &&& launcher_rows(w) == launcher_rows(v)
            &&& selected_id(v) is Some ==> selected_id(w) == selected_id(v)
            &&& selected_id(v) is None && launcher_rows(v).len() > 0 ==> w.selected == Some(0int)
            &&& w.chips_shown && w.user_selected
            &&& w.results_shown <==> v.results_shown || v.hits.len() > 0
            &&& w.epoch == next_epoch(v.epoch) && w.pending is None
            &&& shown_request(persisted(v)) == Some(
                RequestView { q: v.query, limit: SEARCH_LIMIT, epoch: next_epoch(v.epoch) },
            )
        }),
{
    if selected_id(v) is Some {
        let id = selected_id(v)->0;
        assert(launcher_rows(v).contains(id)) by {
            assert(launcher_rows(v)[v.selected->0] == id);
        }
        crate::rows::law_wanted_row_is_selected(launcher_rows(v), id);
    }
}

/// After something was opened, or with nothing typed, the launcher comes back empty of an
/// earlier session: nothing is asked for.
pub proof fn law_cleared_session_is_gone<S>(v: LauncherView<S>, now: u64)
    ensures
        shown_request(cleared(v)) is None,
        ({
            let w = shown(cleared(v), now);
            w.query.len() == 0 && w.hits.len() == 0 && w.selected is None && w.category is None
                && w.chip_index == 0 && !w.chips_shown && !w.results_shown
        }),
        v.query.len() == 0 ==> shown_request(persisted(v)) is None,
{
}

/// A search that was asked for before the launcher was put away belongs to another session
/// than the one after.
pub proof fn law_old_answers_are_stale<S>(v: LauncherView<S>)
    ensures
        persisted(v).epoch != v.epoch,
        cleared(v).epoch != v.epoch,
        v.epoch < u64::MAX ==> persisted(v).epoch == v.epoch + 1 && cleared(v).epoch == v.epoch + 1,
{
}

/// An answer to a query that was just typed selects the first row; an answer while a row is
/// chosen keeps its document selected, where it is still among the rows.
pub proof fn law_answer_selection<S>(
    v: LauncherView<S>,
    hits: Seq<Hit<S>>,
    calculation: Option<Calculation>,
)
    requires
        hits.len() > 0,
    ensures
        ({
            let w = answered(v, hits, calculation);
            &&& !v.user_selected && v.category is None ==> w.selected == Some(0int)
            &&& v.user_selected && selected_id(v) is Some && rows_of(hits, v.category).contains(
                selected_id(v)->0,
            ) ==> selected_id(w) == selected_id(v)
        }),
{
    let w = answered(v, hits, calculation);
    if !v.user_selected && v.category is None {
        crate::rows::law_rows(hits, None, hits.len() as int);
        let rows = rows_of(hits, None);
        assert(rows[0] == hits[0].id.0@);
    }
    if v.user_selected && selected_id(v) is Some && rows_of(hits, v.category).contains(
        selected_id(v)->0,
    ) {
        crate::rows::law_wanted_row_is_selected(rows_of(hits, v.category), selected_id(v)->0);
    }
}

/// Once typing has rested, what was typed last is searched for, whole, once, and in the session
/// that it was typed in, whatever was typed, shown or asked for before.
pub proof fn law_last_text_is_searched_for<S>(
    v: LauncherView<S>,
    earlier: Seq<char>,
    text: Seq<char>,
)
    requires
        text.len() > 0,
    ensures
        ({
            let w = typed(v, text);
            &&& rested_request(w) matches Some(r)
            &&& r.q == text
            &&& r.limit == 30
            &&& r.epoch == v.epoch
            &&& rested_request(typed(typed(v, earlier), text)) == rested_request(w)
            &&& rested_request(rested(w)) is None
            &&& rested(w).last_query == text
            &&& rested(w).query == text
            &&& rested(w).status == StatusView::Loading
        }),
{
}

/// Clearing the search field empties the list and asks for nothing, whatever was still to be
/// asked for, and what is typed next shows no row of it.
pub proof fn law_cleared_field<S>(v: LauncherView<S>, text: Seq<char>)
    ensures
        ({
            let w = typed(v, Seq::empty());
            &&& rested_request(w) is None
            &&& rested(w) == w
            &&& w.query.len() == 0 && w.hits.len() == 0 && w.selected is None
            &&& !w.chips_shown && !w.results_shown && w.status == StatusView::Hidden
            &&& typed(w, text).hits.len() == 0
        }),
{
}

/// Typing keeps the rows on the screen until the answer comes, and it and the rest after it
/// keep the session, the chip and what was put by.
pub proof fn law_typing_keeps<S>(v: LauncherView<S>, text: Seq<char>)
    ensures
        text.len() > 0 ==> typed(v, text).hits == v.hits && typed(v, text).selected == v.selected
            && typed(v, text).results_shown == v.results_shown && typed(v, text).status
            == v.status && typed(v, text).chips_shown,
        ({
            let w = typed(v, text);
            &&& w.query == text
            &&& !w.user_selected
            &&& w.category == v.category && w.chip_index == v.chip_index
            &&& w.epoch == v.epoch && w.cached == v.cached && w.visible == v.visible
            &&& w.last_query == v.last_query && w.guard_until == v.guard_until
        }),
        ({
            let w = rested(v);
            &&& w.query == v.query && w.hits == v.hits && w.selected == v.selected
            &&& w.category == v.category && w.chip_index == v.chip_index
            &&& w.epoch == v.epoch && w.cached == v.cached && w.visible == v.visible
            &&& w.user_selected == v.user_selected && w.guard_until == v.guard_until
            &&& w.chips_shown == v.chips_shown && w.results_shown == v.results_shown
            &&& v.pending is None ==> w == v
        }),
{
}

/// An answer puts its hits in place of those before, says at once what was found or that
/// nothing was, and leaves what is typed and the session alone. A calculation is shown in place
/// of the rows.
pub proof fn law_answer_is_shown<S>(
    v: LauncherView<S>,
    hits: Seq<Hit<S>>,
    calculation: Option<Calculation>,
)
    ensures
        ({
            let w = answered(v, hits, calculation);
            &&& w.hits == hits
            &&& w.selected is None <==> launcher_rows(w).len() == 0
            &&& w.results_shown <==> hits.len() > 0 && calculation is None
            &&& w.chips_shown <==> hits.len() > 0 || calculation is Some || v.last_query.len() > 0
            &&& calculation matches Some(c) ==> w.status == StatusView::Calculation(c)
            &&& calculation is None && hits.len() > 0 ==> w.status == StatusView::Hidden
            &&& calculation is None && hits.len() == 0 && v.last_query.len() > 0 ==> w.status
                == StatusView::Empty(v.last_query)
            &&& calculation is None && hits.len() == 0 && v.last_query.len() == 0 ==> w.status
                == StatusView::Hidden
            &&& w.query == v.query && w.pending == v.pending && w.last_query == v.last_query
            &&& w.epoch == v.epoch && w.cached == v.cached && w.category == v.category
            &&& w.chip_index == v.chip_index && w.user_selected == v.user_selected
            &&& w.visible == v.visible && w.guard_until == v.guard_until
        }),
{
}

/// A launcher that was just shown stays when it loses the focus; afterwards it is put away,
/// with its session put by.
pub proof fn law_just_shown_stays<S>(v: LauncherView<S>, now: u64, later: u64)
    requires
        now <= later,
    ensures
        ({
            let w = shown(v, now);
            &&& later - now < 150 && later < u64::MAX ==> unfocused(w, later) == w
            &&& later - now >= 150 ==> unfocused(w, later) == persisted(w)
        }),
{
}

/// A chip narrows the rows to its category, of whichever chip was chosen last; it changes
/// neither the hits nor what is searched for.
pub proof fn law_last_chip_counts<S>(v: LauncherView<S>, first: usize, last: usize)
    requires
        last < CHIP_COUNT,
    ensures
        ({
            let w = narrowed(narrowed(v, first), last);
            &&& w == narrowed(v, last)
            &&& w.chip_index == last
            &&& launcher_rows(w) == rows_of(v.hits, chip_of(last as int))
            &&& w.hits == v.hits && w.query == v.query && w.pending == v.pending
            &&& w.epoch == v.epoch && w.cached == v.cached && w.last_query == v.last_query
            &&& rested_request(w) == rested_request(v)
        }),
        narrowed(v, 0).category is None,
        first >= CHIP_COUNT ==> narrowed(v, first) == v,
{
}

/// A row that the user chose is the selected one, and changes nothing else but that it is
/// theirs.
pub proof fn law_chosen_row<S>(v: LauncherView<S>, row: int)
    requires
        0 <= row < launcher_rows(v).len(),
    ensures
        selected_id(chosen(v, Some(row))) == Some(launcher_rows(v)[row]),
        selected_id(chosen(v, None)) is None,
        chosen(v, Some(row)).hits == v.hits,
        chosen(v, Some(row)).query == v.query,
        chosen(v, Some(row)).user_selected,
        rested_request(chosen(v, Some(row))) == rested_request(v),
{
}

/// Putting the launcher away leaves what it shows as it is, and nothing that was still to be
/// asked for is; showing it again without a session put by keeps what it shows.
pub proof fn law_put_away_keeps<S>(v: LauncherView<S>, now: u64)
    ensures
        rested_request(persisted(v)) is None,
        rested_request(cleared(v)) is None,
        persisted(v).query == v.query && persisted(v).hits == v.hits,
        persisted(v).visible == v.visible && cleared(v).visible == v.visible,
        persisted(v).cached is Some <==> v.query.len() > 0,
        cleared(v).cached is None,
        shown(v, now).visible && shown(v, now).cached is None,
        v.cached is None ==> shown(v, now).query == v.query && shown(v, now).hits == v.hits
            && shown(v, now).selected == v.selected,
        persisted(cleared(v)).cached is None,
{
}

/// Earlier searches take the place of the rows where there are any, with the first selected
/// where no chip narrows them; without any, nothing changes.
pub proof fn law_recalled<S>(v: LauncherView<S>, hits: Seq<Hit<S>>)
    ensures
        hits.len() == 0 ==> recalled(v, hits) == v,
        hits.len() > 0 ==> ({
            let w = recalled(v, hits);
            &&& w.hits == hits && w.results_shown && w.status == StatusView::Hidden
            &&& v.category is None ==> w.selected == Some(0int) && selected_id(w) == Some(
                hits[0].id.0@,
            )
            &&& w.query == v.query && w.pending == v.pending && w.cached == v.cached
            &&& w.epoch == v.epoch && w.category == v.category && w.chip_index == v.chip_index
        }),
{
    if hits.len() > 0 && v.category is None {
        crate::rows::law_rows(hits, None, hits.len() as int);
        let rows = rows_of(hits, None);
        assert(rows[0] == hits[0].id.0@);
    }
}

/// Toggling a launcher that is on the screen puts it away and asks for nothing; toggling it again
/// once it has left the screen brings back what was typed and searches for it.
pub proof fn law_toggled_twice<S>(v: LauncherView<S>, now: u64, later: u64)
    requires
        v.visible,
        v.query.len() > 0,
    ensures
        ({
            let away = LauncherView { visible: false, ..toggled(v, now) };
            let back = toggled(away, later);
            &&& toggled_request(v) is None
            &&& toggled(v, now).epoch != v.epoch
            &&& back.visible && back.query == v.query && back.hits == v.hits
            &&& back.category == v.category
            &&& toggled_request(away) matches Some(r) && r.q == v.query && r.epoch == back.epoch
        }),
{
}

/// Opening a file opens it, opening an earlier search puts it in place of the query by either
/// way, and with nothing selected the launcher goes.
pub proof fn law_activations(
    path: Seq<char>,
    q: Seq<char>,
    action: ActionView,
    secondary: bool,
    is_dir: bool,
    r: Activation,
)
    ensures
        activates(Some(ActionView::OpenFile { path }), false, is_dir, r) ==> (
        r matches Activation::Run(p) && (p@ matches PlanView::Run { program, args, dir } && program
            == "xdg-open"@ && args == seq![path])),
        activates(Some(ActionView::ReplaceQuery { q }), secondary, is_dir, r) ==> (
        r matches Activation::Replace(t) && t@ == q),
        activates(None, secondary, is_dir, r) <==> r is Dismiss,
        activates(Some(action), secondary, is_dir, r) ==> !(r is Dismiss),
        activates(Some(action), secondary, is_dir, r) && r is Replace ==> action is ReplaceQuery,
        activates(Some(action), true, is_dir, r) ==> (r matches Activation::Run(p) ==> p@
            == secondary_plan(action, is_dir)),
        activates(Some(action), false, is_dir, r) ==> (r matches Activation::Run(p) ==> p@
            == primary_plan(action, is_dir)),
{
}

/// A launcher begins empty, off the screen and with nothing to ask for, and shows nothing until
/// something is typed.
pub proof fn law_fresh<S>(now: u64)
    ensures
        ({
            let v = fresh::<S>();
            &&& !v.visible && v.query.len() == 0 && v.hits.len() == 0
            &&& v.selected is None && v.category is None && v.chip_index == 0
            &&& rested_request(v) is None && shown_request(v) is None
            &&& v.cached is None && v.last_query.len() == 0 && v.epoch == 0
            &&& !v.user_selected && !v.chips_shown && !v.results_shown
            &&& v.status == StatusView::Hidden
            &&& shown(v, now).visible && shown(v, now).query.len() == 0
            &&& unfocused(v, now) == persisted(v)
            &&& persisted(v).cached is None
        }),
{
}

}
