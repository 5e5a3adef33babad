//! The preview window: who renders a hit, where, and when the window closes.
use crate::paths::path_join;
use crate::text::{chars_of, same};
use vstd::prelude::*;
use vstd::string::*;

verus! {

use crate::paths::path_joined;
use crate::text::opt_view;

/// The width of the window on a screen of unknown size.
pub const DEFAULT_WIDTH: i32 = 960;

/// The height of the window on a screen of unknown size.
pub const DEFAULT_HEIGHT: i32 = 720;

/// The least width of the window.
pub const MIN_WIDTH: i32 = 600;

/// The least height of the window.
pub const MIN_HEIGHT: i32 = 400;

/// For how many milliseconds after the window was shown a loss of the focus is passed over.
pub const FOCUS_LEAVE_LATCH_MS: u64 = 150;

/// What a plugin is configured with: its own section, where the user wrote one, and the
/// largest file to be rendered, in megabytes.
pub struct PreviewPluginCfg<'a, V> {
    pub section: Option<&'a V>,
    pub max_file_size_mb: u64,
}

impl<'a, V> PreviewPluginCfg<'a, V> {
    /// The configuration without anything written by the user.
    pub fn none() -> (r: Self)
        ensures
            r.section is None,
            r.max_file_size_mb == 200,
    {
        PreviewPluginCfg { section: None, max_file_size_mb: 200 }
    }
}

// --- Choosing a plugin ---

/// A plugin that is asked to render a hit: its name, and how well it fits.
pub struct Offer {
    pub id: String,
    pub score: u32,
}

/// What an offer holds.
pub struct OfferView {
    pub id: Seq<char>,
    pub score: u32,
}

impl View for Offer {
    type V = OfferView;

    open spec fn view(&self) -> OfferView {
        OfferView { id: self.id@, score: self.score }
    }
}

/// Whether a text comes after another one, or is the same, in the order of the characters
/// from `i` on.
pub open spec fn text_at_least(a: Seq<char>, b: Seq<char>, i: int) -> bool
    decreases a.len() - i,
{
    if i >= b.len() {
        true
    } else if i >= a.len() {
        false
    } else if a[i] != b[i] {
        a[i] > b[i]
    } else {
        text_at_least(a, b, i + 1)
    }
}

/// Whether an offer is to be preferred to another one that came before it: it fits better, or
/// as well and its name does not come before the other's.
pub open spec fn at_least(a: OfferView, b: OfferView) -> bool {
    if a.score != b.score {
        a.score > b.score
    } else {
        text_at_least(a.id, b.id, 0)
    }
}

/// Which of the first `n` offers is preferred. An offer of score zero is none.
pub open spec fn preferred(offers: Seq<Offer>, n: int) -> Option<int>
    decreases n,
{
    if n <= 0 {
        None
    } else {
        let before = preferred(offers, n - 1);
        if offers[n - 1].score == 0 {
            before
        } else {
            match before {
                None => Some(n - 1),
                Some(k) => if at_least(offers[n - 1]@, offers[k]@) {
                    Some(n - 1)
                } else {
                    Some(k)
                },
            }
        }
    }
}

fn text_is_at_least(a: &str, b: &str) -> (r: bool)
    ensures
        r == text_at_least(a@, b@, 0),
{
    let x = chars_of(a);
    let y = chars_of(b);
    let mut i: usize = 0;
    while i < x.len() && i < y.len()
        invariant
            x@ == a@,
            y@ == b@,
            i <= x@.len(),
            i <= y@.len(),
            text_at_least(a@, b@, 0) == text_at_least(a@, b@, i as int),
        decreases x.len() - i,
    {
        if x[i] != y[i] {
            return x[i] > y[i];
        }
        i = i + 1;
    }
    i >= y.len()
}

/// Which of the offers is preferred, if any: the one that fits best, and of several that fit
/// as well the one whose name comes last.
pub fn select_plugin(offers: &Vec<Offer>) -> (r: Option<usize>)
    ensures
        r matches Some(i) ==> i < offers@.len() && preferred(offers@, offers@.len() as int) == Some(
            i as int,
        ),
        r is None ==> preferred(offers@, offers@.len() as int) is None,
{
    let mut best: Option<usize> = None;
    for i in 0..offers.len()
        invariant
            best matches Some(k) ==> k < i && preferred(offers@, i as int) == Some(k as int),
            best is None ==> preferred(offers@, i as int) is None,
    {
        if offers[i].score != 0 {
            match best {
                None => {
                    best = Some(i);
                },
                Some(k) => {
                    let better = if offers[i].score != offers[k].score {
                        offers[i].score > offers[k].score
                    } else {
                        text_is_at_least(offers[i].id.as_str(), offers[k].id.as_str())
                    };
                    if better {
                        best = Some(i);
                    }
                },
            }
        }
    }
    best
}

proof fn lemma_text_transitive(a: Seq<char>, b: Seq<char>, c: Seq<char>, i: int)
    requires
        0 <= i,
        text_at_least(a, b, i),
        text_at_least(b, c, i),
    ensures
        text_at_least(a, c, i),
    decreases a.len() - i,
{
    if i < c.len() && i < b.len() && i < a.len() && a[i] == b[i] && b[i] == c[i] {
        lemma_text_transitive(a, b, c, i + 1);
    }
}

proof fn lemma_text_total(a: Seq<char>, b: Seq<char>, i: int)
    requires
        0 <= i,
    ensures
        text_at_least(a, b, i) || text_at_least(b, a, i),
    decreases a.len() - i,
{
    if i < a.len() && i < b.len() && a[i] == b[i] {
        lemma_text_total(a, b, i + 1);
    }
}

proof fn lemma_preferred(offers: Seq<Offer>, n: int)
    requires
        0 <= n <= offers.len(),
    ensures
        preferred(offers, n) is None ==> forall|j: int|
            0 <= j < n ==> (#[trigger] offers[j]).score == 0,
        preferred(offers, n) matches Some(k) ==> 0 <= k < n && offers[k].score > 0 && forall|j: int|
            0 <= j < n ==> at_least(offers[k]@, (#[trigger] offers[j])@),
    decreases n,
{
    if n > 0 {
        lemma_preferred(offers, n - 1);
        let new = offers[n - 1];
        lemma_text_total(new.id@, new.id@, 0);
        match preferred(offers, n - 1) {
            None => {},
            Some(k) => {
                lemma_text_total(new.id@, offers[k].id@, 0);
                if new.score != 0 && at_least(new@, offers[k]@) {
                    assert forall|j: int| 0 <= j < n implies at_least(
                        new@,
                        (#[trigger] offers[j])@,
                    ) by {
                        if j < n - 1 {
                            assert(at_least(offers[k]@, offers[j]@));
                            if new.score == offers[k].score && offers[k].score == offers[j].score {
                                lemma_text_transitive(new.id@, offers[k].id@, offers[j].id@, 0);
                            }
                        }
                    }
                }
            },
        }
    }
}

/// The preferred offer fits, and at least as well as every other; where none is preferred,
/// none fits.
pub proof fn law_preferred_is_best(offers: Seq<Offer>)
    ensures
        preferred(offers, offers.len() as int) is None <==> forall|j: int|
            0 <= j < offers.len() ==> (#[trigger] offers[j]).score == 0,
        preferred(offers, offers.len() as int) matches Some(k) ==> 0 <= k < offers.len()
            && offers[k].score > 0 && forall|j: int|
            0 <= j < offers.len() ==> at_least(offers[k]@, (#[trigger] offers[j])@),
{
    lemma_preferred(offers, offers.len() as int);
    if preferred(offers, offers.len() as int) is Some {
        let k = preferred(offers, offers.len() as int)->0;
        assert(offers[k].score > 0);
    }
}

// --- The window ---

/// The extent of the preview on a screen of the given extent: four fifths of it, and no less
/// than `min`.
pub open spec fn extent_of(screen: int, min: int) -> int {
    if screen > 0 && screen * 8 / 10 > min {
        screen * 8 / 10
    } else {
        min
    }
}

/// How wide or high the window is on a screen: eight tenths of it, and no less than the
/// minimum.
pub fn preview_extent(screen: i32, min: i32) -> (r: i32)
    requires
        0 <= min,
        i32::MIN <= screen * 8 <= i32::MAX,
    ensures
        r == extent_of(screen as int, min as int),
{
    if screen > 0 && screen * 8 / 10 > min {
        screen * 8 / 10
    } else {
        min
    }
}

/// The screen that the window opens on.
#[derive(Debug, Clone, Copy, PartialEq, Eq, Structural)]
pub enum MonitorChoice {
    /// The screen of this number.
    Listed(usize),
    /// The screen that the pointer is on.
    UnderPointer,
}

/// Which screen has the connector of the given name, from screen `i` on.
pub open spec fn connected(names: Seq<Option<String>>, name: Seq<char>, i: int) -> int
    decreases names.len() - i,
{
    if i >= names.len() {
        names.len() as int
    } else if opt_view(names[i]) == Some(name) {
        i
    } else {
        connected(names, name, i + 1)
    }
}

/// The screen for a preview: the one that was asked for by its connector, else the one that the
/// pointer is on, else the first.
pub open spec fn monitor_for(
    requested: Option<Seq<char>>,
    connectors: Seq<Option<String>>,
    pointer: bool,
) -> Option<MonitorChoice> {
    let found = match requested {
        Some(name) => if name.len() > 0 {
            connected(connectors, name, 0)
        } else {
            connectors.len() as int
        },
        None => connectors.len() as int,
    };
    if found < connectors.len() {
        Some(MonitorChoice::Listed(found as usize))
    } else if pointer {
        Some(MonitorChoice::UnderPointer)
    } else if connectors.len() > 0 {
        Some(MonitorChoice::Listed(0))
    } else {
        None
    }
}

/// The screen that the window opens on, given the connector that was asked for, the
/// connectors of the screens, and whether the pointer is on one of them: the first screen with
/// that connector, else the one under the pointer, else the first.
pub fn pick_monitor(requested: &Option<String>, connectors: &Vec<Option<String>>, pointer: bool) -> (r:
    Option<MonitorChoice>)
    ensures
        r == monitor_for(opt_view(*requested), connectors@, pointer),
{
    match requested {
        Some(name) => {
            if !name.as_str().is_empty() {
                for i in 0..connectors.len()
                    invariant
                        *requested == Some(*name),
                        name@.len() > 0,
                        connected(connectors@, name@, 0) == connected(connectors@, name@, i as int),
                {
                    match &connectors[i] {
                        Some(c) => {
                            if same(c.as_str(), name.as_str()) {
                                return Some(MonitorChoice::Listed(i));
                            }
                        },
                        None => {},
                    }
                }
            }
        },
        None => {},
    }
    if pointer {
        Some(MonitorChoice::UnderPointer)
    } else if connectors.len() > 0 {
        Some(MonitorChoice::Listed(0))
    } else {
        None
    }
}

/// Whether a key closes the window.
pub fn closes_on_key(key: &str) -> (r: bool)
    ensures
        r == (key@ == "Escape"@ || key@ == "space"@),
{
    same(key, "Escape") || same(key, "space")
}

/// Whether a loss of the focus closes the window, so long after it was shown.
pub fn closes_on_leave(elapsed_ms: u64) -> (r: bool)
    ensures
        r == (elapsed_ms >= FOCUS_LEAVE_LATCH_MS),
{
    elapsed_ms >= FOCUS_LEAVE_LATCH_MS
}

/// What is shown in place of a preview that failed.
pub fn failure_text(plugin: &str, error: &str) -> (r: String)
    ensures
        r@ == "Preview failed ("@ + plugin@ + "):\n"@ + error@,
{
    let mut r = String::new();
    r.append("Preview failed (");
    r.append(plugin);
    r.append("):\n");
    r.append(error);
    assert(r@ =~= "Preview failed ("@ + plugin@ + "):\n"@ + error@);
    r
}

/// What the plugin for hits that no other fits shows.
pub fn stub_text(title: &str, subtitle: &str) -> (r: String)
    ensures
        r@ == "Preview (stub)\n"@ + title@ + "\n"@ + subtitle@,
{
    let mut r = String::new();
    r.append("Preview (stub)\n");
    r.append(title);
    r.append("\n");
    r.append(subtitle);
    assert(r@ =~= "Preview (stub)\n"@ + title@ + "\n"@ + subtitle@);
    r
}

/// Where the user's own style sheet is, below the directory for configuration where there is
/// one.
pub fn user_css_path(config_dir: &Option<String>) -> (r: Option<String>)
    ensures
        opt_view(r) == (match *config_dir {
            Some(d) => Some(path_joined(d@, "lixun/style.css"@)),
            None => None,
        }),
{
    match config_dir {
        Some(d) => Some(path_join(d.as_str(), "lixun/style.css")),
        None => None,
    }
}

// --- Laws ---

/// Texts are ordered by the first character in which they differ, and a text comes after what
/// it begins with.
pub proof fn law_text_order(p: Seq<char>, x: char, y: char, a: Seq<char>, b: Seq<char>)
    ensures
        text_at_least(p + a, p, 0),
        text_at_least(p, p + a, 0) <==> a.len() == 0,
        x != y ==> (text_at_least(p + seq![x] + a, p + seq![y] + b, 0) <==> x > y),
{
    lemma_text_order(p, p + a, p, 0);
    lemma_text_order(p, p, p + a, 0);
    let s = p + seq![x] + a;
    let t = p + seq![y] + b;
    assert(s[p.len() as int] == x && t[p.len() as int] == y);
    lemma_text_order(p, s, t, 0);
}

proof fn lemma_text_order(p: Seq<char>, s: Seq<char>, t: Seq<char>, i: int)
    requires
        0 <= i <= p.len() <= s.len(),
        p.len() <= t.len(),
        forall|k: int| 0 <= k < p.len() ==> s[k] == p[k] && t[k] == p[k],
    ensures
        text_at_least(s, t, i) == text_at_least(s, t, p.len() as int),
    decreases p.len() - i,
{
    if i < p.len() {
        assert(s[i] == p[i] && t[i] == p[i]);
        lemma_text_order(p, s, t, i + 1);
    }
}

/// The higher score wins, and only between equal scores the name decides.
pub proof fn law_scores_first(a: OfferView, b: OfferView)
    ensures
        a.score > b.score ==> at_least(a, b) && !at_least(b, a),
        a.score == b.score ==> (at_least(a, b) <==> text_at_least(a.id, b.id, 0)),
{
}

/// The screen that was asked for is taken where it is connected, the first with that name;
/// otherwise the one under the pointer, and without a pointer the first.
pub proof fn law_monitors(
    name: Seq<char>,
    connectors: Seq<Option<String>>,
    pointer: bool,
    k: int,
)
    requires
        name.len() > 0,
        0 <= k < connectors.len() <= usize::MAX,
    ensures
        opt_view(connectors[k]) == Some(name) ==> (monitor_for(
            Some(name),
            connectors,
            pointer,
        ) matches Some(MonitorChoice::Listed(i)) && i <= k && opt_view(connectors[i as int])
            == Some(name)),
        (forall|j: int| 0 <= j < connectors.len() ==> opt_view(#[trigger] connectors[j]) != Some(name))
            ==> monitor_for(Some(name), connectors, pointer) == monitor_for(
            None,
            connectors,
            pointer,
        ),
        monitor_for(None, connectors, pointer) == Some(
            if pointer {
                MonitorChoice::UnderPointer
            } else {
                MonitorChoice::Listed(0)
            },
        ),
        monitor_for(Some(Seq::empty()), connectors, pointer) == monitor_for(
            None,
            connectors,
            pointer,
        ),
        monitor_for(Some(name), Seq::empty(), false) is None,
        monitor_for(Some(name), Seq::empty(), true) == Some(MonitorChoice::UnderPointer),
{
    lemma_connected(connectors, name, 0);
    lemma_connected(Seq::empty(), name, 0);
}

proof fn lemma_connected(names: Seq<Option<String>>, name: Seq<char>, i: int)
    requires
        0 <= i <= names.len(),
    ensures
        i <= connected(names, name, i) <= names.len(),
        connected(names, name, i) < names.len() ==> opt_view(names[connected(names, name, i)])
            == Some(name),
        forall|j: int| i <= j < connected(names, name, i) ==> opt_view(#[trigger] names[j]) != Some(
            name,
        ),
    decreases names.len() - i,
{
    if i < names.len() && opt_view(names[i]) != Some(name) {
        lemma_connected(names, name, i + 1);
    }
}

/// The preview is never smaller than its least extent, and is four fifths of a screen that is
/// large enough; a larger screen never gives a smaller one.
pub proof fn law_preview_extent(screen: int, larger: int, min: int)
    requires
        0 <= min,
        screen <= larger,
    ensures
        extent_of(screen, min) >= min,
        extent_of(screen, min) <= extent_of(larger, min),
        screen * 4 >= (min + 1) * 5 ==> extent_of(screen, min) * 5 <= screen * 4 < extent_of(
            screen,
            min,
        ) * 5 + 5,
        screen <= min ==> extent_of(screen, min) == min,
{
}

}
