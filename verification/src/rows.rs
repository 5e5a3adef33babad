//! The rows of the launcher: what they show, which are shown, and what their menus offer.
use crate::decimal::push_decimal;
use crate::model::{Action, Category, DocId, Hit};
use crate::text::same;
use vstd::prelude::*;
use vstd::string::*;

verus! {

use crate::decimal::decimal;
use crate::model::{ActionView, HitView};
use crate::text::{lemma_views_push, opt_view, views};

/// The size of an icon, in pixels.
pub const ICON_SIZE_NORMAL: i32 = 32;

/// The size of the icon of the selected row, in pixels.
pub const ICON_SIZE_TOP_HIT: i32 = 48;

/// The icon of a category.
pub open spec fn icon_for(cat: Category) -> Seq<char> {
    match cat {
        Category::App => "application-x-executable"@,
        Category::File => "text-x-generic"@,
        Category::Mail => "mail-message"@,
        Category::Attachment => "mail-attachment"@,
    }
}

/// The name of the icon for a category.
pub fn category_icon(cat: Category) -> (r: &'static str)
    ensures
        r@ == icon_for(cat),
{
    match cat {
        Category::App => "application-x-executable",
        Category::File => "text-x-generic",
        Category::Mail => "mail-message",
        Category::Attachment => "mail-attachment",
    }
}

/// The word for a category.
pub open spec fn category_kind(cat: Category) -> Seq<char> {
    match cat {
        Category::App => "Application"@,
        Category::File => "File"@,
        Category::Mail => "Email"@,
        Category::Attachment => "Attachment"@,
    }
}

/// The word for a category.
pub fn category_kind_fallback(cat: Category) -> (r: &'static str)
    ensures
        r@ == category_kind(cat),
{
    match cat {
        Category::App => "Application",
        Category::File => "File",
        Category::Mail => "Email",
        Category::Attachment => "Attachment",
    }
}

/// The kind that a hit is shown with: its own, else that of its category.
pub open spec fn kind_of<S>(h: HitView<S>) -> Seq<char> {
    match h.kind_label {
        Some(k) => k,
        None => category_kind(h.category),
    }
}

/// The word that a row shows for the kind of its hit: the one that came with it, or the one
/// for its category.
pub fn kind_text<S>(hit: &Hit<S>) -> (r: String)
    ensures
        r@ == kind_of(hit@),
{
    match &hit.kind_label {
        Some(k) => k.clone(),
        None => category_kind_fallback(hit.category).to_owned(),
    }
}

/// What is told of a hit on request: its title, its subtitle, and its kind where it has one.
pub open spec fn info_of<S>(h: HitView<S>) -> Seq<Seq<char>> {
    match h.kind_label {
        Some(k) => seq![h.title, h.subtitle, "Kind: "@ + k],
        None => seq![h.title, h.subtitle],
    }
}

/// What is told of a hit on request, line by line.
pub fn info_lines<S>(hit: &Hit<S>) -> (r: Vec<String>)
    ensures
        views(r@) == info_of(hit@),
{
    let mut v: Vec<String> = Vec::new();
    v.push(hit.title.clone());
    v.push(hit.subtitle.clone());
    match &hit.kind_label {
        Some(k) => {
            let mut line = String::new();
            line.append("Kind: ");
            line.append(k.as_str());
            assert(line@ =~= "Kind: "@ + k@);
            v.push(line);
        },
        None => {},
    }
    assert(views(v@) =~= info_of(hit@));
    v
}

/// The size of the icon of a row.
pub fn icon_size(selected: bool) -> (r: i32)
    ensures
        r == (if selected {
            ICON_SIZE_TOP_HIT
        } else {
            ICON_SIZE_NORMAL
        }),
{
    if selected {
        ICON_SIZE_TOP_HIT
    } else {
        ICON_SIZE_NORMAL
    }
}

/// Whether hits of a category stand for files.
pub open spec fn draggable(cat: Category) -> bool {
    cat == Category::File || cat == Category::Attachment
}

/// Whether a row can be dragged out as a file.
pub fn is_draggable(cat: Category) -> (r: bool)
    ensures
        r == draggable(cat),
{
    match cat {
        Category::File => true,
        Category::Attachment => true,
        Category::App => false,
        Category::Mail => false,
    }
}

// --- Menus ---

/// What an entry of a menu does.
#[derive(Debug, Clone, Copy, PartialEq, Eq, Structural)]
pub enum MenuCommand {
    Open,
    Reveal,
    Copy,
    QuickLook,
    Info,
}

/// The name of the action of an entry.
pub fn command_name(c: MenuCommand) -> (r: &'static str)
    ensures
        r@ == (match c {
            MenuCommand::Open => "row.open"@,
            MenuCommand::Reveal => "row.reveal"@,
            MenuCommand::Copy => "row.copy"@,
            MenuCommand::QuickLook => "row.quicklook"@,
            MenuCommand::Info => "row.info"@,
        }),
{
    match c {
        MenuCommand::Open => "row.open",
        MenuCommand::Reveal => "row.reveal",
        MenuCommand::Copy => "row.copy",
        MenuCommand::QuickLook => "row.quicklook",
        MenuCommand::Info => "row.info",
    }
}

/// The entries of a menu: what they say, and what they do.
pub open spec fn menu_views(v: Seq<(&'static str, MenuCommand)>) -> Seq<(Seq<char>, MenuCommand)> {
    Seq::new(v.len(), |i: int| (v[i].0@, v[i].1))
}

/// The menu of a row.
pub open spec fn menu_of(cat: Category) -> Seq<(Seq<char>, MenuCommand)> {
    match cat {
        Category::App => seq![("Launch"@, MenuCommand::Open), ("Copy name"@, MenuCommand::Copy)],
        Category::File => seq![
            ("Open"@, MenuCommand::Open),
            ("Reveal in File Manager"@, MenuCommand::Reveal),
            ("Copy path"@, MenuCommand::Copy),
            ("Quick Look"@, MenuCommand::QuickLook),
            ("Get Info"@, MenuCommand::Info),
        ],
        Category::Mail => seq![
            ("Open in Thunderbird"@, MenuCommand::Open),
            ("Copy subject"@, MenuCommand::Copy),
        ],
        Category::Attachment => seq![
            ("Open"@, MenuCommand::Open),
            ("Quick Look"@, MenuCommand::QuickLook),
            ("Copy filename"@, MenuCommand::Copy),
            ("Open parent mail"@, MenuCommand::Reveal),
        ],
    }
}

/// The menu of a row of the given category.
pub fn build_menu_for(cat: Category) -> (r: Vec<(&'static str, MenuCommand)>)
    ensures
        menu_views(r@) == menu_of(cat),
{
    let mut v: Vec<(&'static str, MenuCommand)> = Vec::new();
    match cat {
        Category::App => {
            v.push(("Launch", MenuCommand::Open));
            v.push(("Copy name", MenuCommand::Copy));
        },
        Category::File => {
            v.push(("Open", MenuCommand::Open));
            v.push(("Reveal in File Manager", MenuCommand::Reveal));
            v.push(("Copy path", MenuCommand::Copy));
            v.push(("Quick Look", MenuCommand::QuickLook));
            v.push(("Get Info", MenuCommand::Info));
        },
        Category::Mail => {
            v.push(("Open in Thunderbird", MenuCommand::Open));
            v.push(("Copy subject", MenuCommand::Copy));
        },
        Category::Attachment => {
            v.push(("Open", MenuCommand::Open));
            v.push(("Quick Look", MenuCommand::QuickLook));
            v.push(("Copy filename", MenuCommand::Copy));
            v.push(("Open parent mail", MenuCommand::Reveal));
        },
    }
    assert(menu_views(v@) =~= menu_of(cat));
    v
}

// --- Recent searches as rows ---

/// The row for a recent search.
pub open spec fn history_hit<S>(i: nat, q: Seq<char>, score: S) -> HitView<S> {
    HitView {
        id: "history:"@ + decimal(i) + ":"@ + q,
        category: Category::File,
        title: q,
        subtitle: "Recent search"@,
        icon_name: Some("document-open-recent"@),
        kind_label: Some("Recent"@),
        score,
        action: ActionView::ReplaceQuery { q },
        extract_fail: false,
    }
}

/// The row for a recent search.
fn build_history_hit<S>(i: usize, q: &String, score: S) -> (r: Hit<S>)
    ensures
        r@ == history_hit(i as nat, q@, score),
{
    let mut id = String::new();
    id.append("history:");
    push_decimal(&mut id, i as u64);
    id.append(":");
    id.append(q.as_str());
    assert(id@ =~= "history:"@ + decimal(i as nat) + ":"@ + q@);
    Hit {
        id: DocId(id),
        category: Category::File,
        title: q.clone(),
        subtitle: "Recent search".to_owned(),
        icon_name: Some("document-open-recent".to_owned()),
        kind_label: Some("Recent".to_owned()),
        score,
        action: Action::ReplaceQuery { q: q.clone() },
        extract_fail: false,
    }
}

/// The rows for the recent searches, in their order, all with the given score.
pub fn synthetic_history_hits<S: Copy>(queries: &Vec<String>, score: S) -> (r: Vec<Hit<S>>)
    ensures
        r@.len() == queries@.len(),
        forall|i: int|
            0 <= i < queries@.len() ==> (#[trigger] r@[i])@ == history_hit(
                i as nat,
                queries@[i]@,
                score,
            ),
{
    let mut out: Vec<Hit<S>> = Vec::new();
    for i in 0..queries.len()
        invariant
            out@.len() == i,
            forall|j: int|
                0 <= j < i ==> (#[trigger] out@[j])@ == history_hit(j as nat, queries@[j]@, score),
    {
        out.push(build_history_hit(i, &queries[i], score));
    }
    out
}

// --- Which rows are shown ---

/// The position of the first hit with an identifier, or the number of hits.
pub open spec fn hit_index<S>(hits: Seq<Hit<S>>, id: Seq<char>, i: int) -> int
    decreases hits.len() - i,
{
    if i < 0 || i >= hits.len() {
        hits.len() as int
    } else if hits[i].id.0@ == id {
        i
    } else {
        hit_index(hits, id, i + 1)
    }
}

/// The first hit with an identifier.
pub fn find_hit<S>(hits: &Vec<Hit<S>>, id: &str) -> (r: Option<usize>)
    ensures
        r matches Some(i) ==> i < hits@.len() && i == hit_index(hits@, id@, 0),
        r is None ==> hit_index(hits@, id@, 0) == hits@.len(),
{
    let mut i: usize = 0;
    while i < hits.len()
        invariant
            i <= hits@.len(),
            hit_index(hits@, id@, 0) == hit_index(hits@, id@, i as int),
        decreases hits.len() - i,
    {
        if same(hits[i].id.0.as_str(), id) {
            return Some(i);
        }
        i = i + 1;
    }
    None
}

/// Whether the filter lets a row through: without a category every row, else those whose hit
/// is of the category, and those that belong to no hit.
pub open spec fn passes<S>(hits: Seq<Hit<S>>, filter: Option<Category>, id: Seq<char>) -> bool {
    match filter {
        None => true,
        Some(c) => {
            let i = hit_index(hits, id, 0);
            i < hits.len() ==> hits[i].category == c
        },
    }
}

/// Whether the filter lets a row through.
pub fn filter_passes<S>(hits: &Vec<Hit<S>>, filter: Option<Category>, id: &str) -> (r: bool)
    ensures
        r == passes(hits@, filter, id@),
{
    match filter {
        None => true,
        Some(c) => {
            match find_hit(hits, id) {
                Some(i) => hits[i].category == c,
                None => true,
            }
        },
    }
}

/// The identifiers of the rows that are shown, for the first `n` hits.
pub open spec fn shown_rows<S>(hits: Seq<Hit<S>>, filter: Option<Category>, n: int) -> Seq<Seq<char>>
    decreases n,
{
    if n <= 0 {
        Seq::empty()
    } else {
        let before = shown_rows(hits, filter, n - 1);
        let id = hits[n - 1].id.0@;
        if passes(hits, filter, id) {
            before.push(id)
        } else {
            before
        }
    }
}

/// The identifiers of the rows that are shown.
pub open spec fn rows_of<S>(hits: Seq<Hit<S>>, filter: Option<Category>) -> Seq<Seq<char>> {
    shown_rows(hits, filter, hits.len() as int)
}

/// The identifiers of the rows that are shown, in their order.
pub fn visible_rows<S>(hits: &Vec<Hit<S>>, filter: Option<Category>) -> (r: Vec<String>)
    ensures
        views(r@) == rows_of(hits@, filter),
{
    let mut out: Vec<String> = Vec::new();
    for i in 0..hits.len()
        invariant
            views(out@) =~= shown_rows(hits@, filter, i as int),
    {
        if filter_passes(hits, filter, hits[i].id.0.as_str()) {
            let ghost before = out@;
            out.push(hits[i].id.0.clone());
            proof {
                lemma_views_push(before, out@.last());
            }
        }
    }
    out
}

/// The position of an identifier among the rows, or zero.
pub open spec fn row_index(rows: Seq<Seq<char>>, id: Seq<char>, i: int) -> int
    decreases rows.len() - i,
{
    if i < 0 || i >= rows.len() {
        0
    } else if rows[i] == id {
        i
    } else {
        row_index(rows, id, i + 1)
    }
}

/// The row to select: that of the wanted identifier, or the first; none where there are no
/// rows.
pub open spec fn selected_row(rows: Seq<Seq<char>>, wanted: Option<Seq<char>>) -> Option<int> {
    if rows.len() == 0 {
        None
    } else {
        match wanted {
            Some(id) => Some(row_index(rows, id, 0)),
            None => Some(0),
        }
    }
}

/// The row to select.
pub fn select_row(rows: &Vec<String>, wanted: &Option<String>) -> (r: Option<usize>)
    ensures
        r matches Some(i) ==> i < rows@.len() && selected_row(views(rows@), opt_view(*wanted))
            == Some(i as int),
        r is None ==> selected_row(views(rows@), opt_view(*wanted)) is None,
{
    if rows.len() == 0 {
        return None;
    }
    match wanted {
        None => Some(0),
        Some(id) => {
            let ghost all = views(rows@);
            let mut i: usize = 0;
            while i < rows.len()
                invariant
                    i <= rows@.len(),
                    rows@.len() > 0,
                    all == views(rows@),
                    wanted == Some(*id),
                    row_index(all, id@, 0) == row_index(all, id@, i as int),
                decreases rows.len() - i,
            {
                assert(all[i as int] == rows@[i as int]@);
                if same(rows[i].as_str(), id.as_str()) {
                    return Some(i);
                }
                i = i + 1;
            }
            Some(0)
        },
    }
}

/// A row that is wanted and shown is the one that is selected.
pub proof fn law_wanted_row_is_selected(rows: Seq<Seq<char>>, id: Seq<char>)
    requires
        rows.contains(id),
    ensures
        selected_row(rows, Some(id)) matches Some(i) && 0 <= i < rows.len() && rows[i] == id,
{
    let k = choose|k: int| 0 <= k < rows.len() && rows[k] == id;
    lemma_row_index(rows, id, 0, k);
}

proof fn lemma_row_index(rows: Seq<Seq<char>>, id: Seq<char>, i: int, k: int)
    requires
        0 <= i <= k < rows.len(),
        rows[k] == id,
    ensures
        i <= row_index(rows, id, i) <= k,
        rows[row_index(rows, id, i)] == id,
    decreases k - i,
{
    if rows[i] != id {
        lemma_row_index(rows, id, i + 1, k);
    }
}

/// Without a category every hit has its row, in the order of the hits; with one, only hits
/// of that category have rows, where the identifiers differ.
pub proof fn law_rows<S>(hits: Seq<Hit<S>>, filter: Option<Category>, n: int)
    requires
        0 <= n <= hits.len(),
    ensures
        filter is None ==> shown_rows(hits, filter, n).len() == n,
        filter is None ==> forall|i: int|
            0 <= i < n ==> #[trigger] shown_rows(hits, filter, n)[i] == hits[i].id.0@,
        forall|i: int|
            0 <= i < shown_rows(hits, filter, n).len() ==> passes(
                hits,
                filter,
                #[trigger] shown_rows(hits, filter, n)[i],
            ),
    decreases n,
{
    if n > 0 {
        law_rows(hits, filter, n - 1);
        let before = shown_rows(hits, filter, n - 1);
        let now = shown_rows(hits, filter, n);
        assert forall|i: int| 0 <= i < now.len() implies passes(hits, filter, #[trigger] now[i]) by {
            if i < before.len() {
                assert(now[i] == before[i]);
            }
        }
        if filter is None {
            assert forall|i: int| 0 <= i < n implies #[trigger] now[i] == hits[i].id.0@ by {
                if i < n - 1 {
                    assert(now[i] == before[i]);
                }
            }
        }
    }
}

// --- Category chips ---

/// The category that a chip stands for: none for the first, which stands for all of them.
pub open spec fn chip_of(index: int) -> Option<Category> {
    if index == 1 {
        Some(Category::App)
    } else if index == 2 {
        Some(Category::File)
    } else if index == 3 {
        Some(Category::Mail)
    } else if index == 4 {
        Some(Category::Attachment)
    } else {
        None
    }
}

/// The number of chips.
pub const CHIP_COUNT: usize = 5;

/// The category that a chip stands for.
pub fn chip_category(index: usize) -> (r: Option<Category>)
    ensures
        r == chip_of(index as int),
{
    if index == 1 {
        Some(Category::App)
    } else if index == 2 {
        Some(Category::File)
    } else if index == 3 {
        Some(Category::Mail)
    } else if index == 4 {
        Some(Category::Attachment)
    } else {
        None
    }
}

/// What a chip is labelled with.
pub open spec fn chip_name(index: int) -> Seq<char> {
    if index == 0 {
        "All"@
    } else if index == 1 {
        "Apps"@
    } else if index == 2 {
        "Files"@
    } else if index == 3 {
        "Mail"@
    } else {
        "Attachments"@
    }
}

/// What a chip says.
pub fn chip_label(index: usize) -> (r: &'static str)
    requires
        index < CHIP_COUNT,
    ensures
        r@ == chip_name(index as int),
{
    if index == 0 {
        "All"
    } else if index == 1 {
        "Apps"
    } else if index == 2 {
        "Files"
    } else if index == 3 {
        "Mail"
    } else {
        "Attachments"
    }
}

/// Every category has exactly one chip.
pub proof fn law_chips(c: Category)
    ensures
        exists|i: int| 0 <= i < CHIP_COUNT && #[trigger] chip_of(i) == Some(c),
        forall|i: int, j: int|
            #[trigger] chip_of(i) == Some(c) && #[trigger] chip_of(j) == Some(c) ==> i == j,
{
    assert(chip_of(1) == Some(Category::App));
    assert(chip_of(2) == Some(Category::File));
    assert(chip_of(3) == Some(Category::Mail));
    assert(chip_of(4) == Some(Category::Attachment));
}

/// A hit is looked up by its identifier: the first that has it, and none where no hit has it.
pub proof fn law_hit_is_found<S>(hits: Seq<Hit<S>>, id: Seq<char>)
    ensures
        0 <= hit_index(hits, id, 0) <= hits.len(),
        hit_index(hits, id, 0) < hits.len() ==> hits[hit_index(hits, id, 0)].id.0@ == id,
        forall|j: int| 0 <= j < hit_index(hits, id, 0) ==> (#[trigger] hits[j]).id.0@ != id,
{
    lemma_hit_index(hits, id, 0);
}

proof fn lemma_hit_index<S>(hits: Seq<Hit<S>>, id: Seq<char>, i: int)
    requires
        0 <= i <= hits.len(),
    ensures
        i <= hit_index(hits, id, i) <= hits.len(),
        hit_index(hits, id, i) < hits.len() ==> hits[hit_index(hits, id, i)].id.0@ == id,
        forall|j: int| i <= j < hit_index(hits, id, i) ==> (#[trigger] hits[j]).id.0@ != id,
    decreases hits.len() - i,
{
    if i < hits.len() && hits[i].id.0@ != id {
        lemma_hit_index(hits, id, i + 1);
    }
}

/// Hits of which no two are the same document.
pub open spec fn distinct_hits<S>(hits: Seq<Hit<S>>) -> bool {
    forall|i: int, j: int|
        0 <= i < j < hits.len() ==> (#[trigger] hits[i]).id.0@ != (#[trigger] hits[j]).id.0@
}

/// A filter shows exactly the hits of its category, each once and in the order in which they
/// came: whether a hit is shown depends on its own category alone.
pub proof fn law_rows_of_a_category<S>(hits: Seq<Hit<S>>, c: Category, i: int)
    requires
        distinct_hits(hits),
        0 <= i < hits.len(),
    ensures
        rows_of(hits, Some(c)).contains(hits[i].id.0@) <==> hits[i].category == c,
        shown_rows(hits, Some(c), i + 1) == (if hits[i].category == c {
            shown_rows(hits, Some(c), i).push(hits[i].id.0@)
        } else {
            shown_rows(hits, Some(c), i)
        }),
{
    law_hit_is_found(hits, hits[i].id.0@);
    let k = hit_index(hits, hits[i].id.0@, 0);
    assert(k == i) by {
        if k < i {
            assert(hits[k].id.0@ != hits[i].id.0@);
        } else if k > i {
            assert(hits[i].id.0@ != hits[i].id.0@);
        }
    }
    lemma_row_of_hit(hits, Some(c), hits.len() as int, i);
}

/// Every hit that passes the filter is among the rows, and every row is a hit's.
proof fn lemma_row_of_hit<S>(hits: Seq<Hit<S>>, filter: Option<Category>, n: int, i: int)
    requires
        0 <= i < hits.len(),
        0 <= n <= hits.len(),
    ensures
        i < n && passes(hits, filter, hits[i].id.0@) ==> shown_rows(hits, filter, n).contains(
            hits[i].id.0@,
        ),
        !passes(hits, filter, hits[i].id.0@) ==> !shown_rows(hits, filter, n).contains(
            hits[i].id.0@,
        ),
    decreases n,
{
    if n > 0 {
        lemma_row_of_hit(hits, filter, n - 1, i);
        let before = shown_rows(hits, filter, n - 1);
        let id = hits[n - 1].id.0@;
        let now = shown_rows(hits, filter, n);
        let wanted = hits[i].id.0@;
        if passes(hits, filter, id) {
            assert(now == before.push(id));
            if before.contains(wanted) {
                let k = choose|k: int| 0 <= k < before.len() && before[k] == wanted;
                assert(now[k] == wanted);
            }
            if i == n - 1 {
                assert(now[before.len() as int] == wanted);
            }
            if now.contains(wanted) && !before.contains(wanted) {
                let k = choose|k: int| 0 <= k < now.len() && now[k] == wanted;
                if k < before.len() {
                    assert(before[k] == wanted);
                }
                assert(wanted == id);
            }
        }
    }
}

/// Where no row is asked for, or one that is not there, the first row is selected; without rows
/// none is.
pub proof fn law_first_row_otherwise(rows: Seq<Seq<char>>, id: Seq<char>)
    requires
        !rows.contains(id),
    ensures
        rows.len() > 0 ==> selected_row(rows, Some(id)) == Some(0int) && selected_row(rows, None)
            == Some(0int),
        rows.len() == 0 ==> selected_row(rows, Some(id)) is None && selected_row(rows, None)
            is None,
{
    lemma_no_row(rows, id, 0);
}

proof fn lemma_no_row(rows: Seq<Seq<char>>, id: Seq<char>, i: int)
    requires
        !rows.contains(id),
        0 <= i,
    ensures
        row_index(rows, id, i) == 0,
    decreases rows.len() - i,
{
    if i < rows.len() {
        assert(rows.contains(rows[i]));
        lemma_no_row(rows, id, i + 1);
    }
}

/// An earlier search is shown as what was typed, opening it puts exactly that back, and no two
/// rows of earlier searches are the same.
pub proof fn law_history_rows<S>(i: nat, p: Seq<char>, j: nat, q: Seq<char>, score: S)
    ensures
        history_hit(i, q, score).title == q,
        history_hit(i, q, score).score == score,
        crate::actions::primary_plan(history_hit(i, q, score).action, false)
            == (crate::actions::PlanView::ReplaceQuery { q }),
        history_hit(i, p, score).id == history_hit(j, q, score).id <==> i == j && p == q,
{
    reveal_strlit("history:");
    reveal_strlit(":");
    let a = history_hit(i, p, score).id;
    let b = history_hit(j, q, score).id;
    let h = "history:"@;
    let x = decimal(i) + seq![':'] + p;
    let y = decimal(j) + seq![':'] + q;
    assert(":"@ =~= seq![':']);
    assert(a =~= h + x);
    assert(b =~= h + y);
    if a == b {
        assert(x =~= (h + x).skip(h.len() as int));
        assert(y =~= (h + y).skip(h.len() as int));
        crate::decimal::lemma_decimal_round_trip(i);
        crate::decimal::lemma_decimal_round_trip(j);
        lemma_no_colon(decimal(i));
        lemma_no_colon(decimal(j));
        crate::text::law_split_at_first(decimal(i), ':', p);
        crate::text::law_split_at_first(decimal(j), ':', q);
    }
}

proof fn lemma_no_colon(s: Seq<char>)
    requires
        crate::decimal::is_digits(s),
    ensures
        !s.contains(':'),
{
    if s.contains(':') {
        let k = choose|k: int| 0 <= k < s.len() && s[k] == ':';
        assert(crate::text::is_digit(s[k]));
    }
}

/// Whether a menu offers a command.
pub open spec fn offers(menu: Seq<(Seq<char>, MenuCommand)>, c: MenuCommand) -> bool {
    exists|i: int| 0 <= i < menu.len() && (#[trigger] menu[i]).1 == c
}

/// Every menu opens first and can copy; files and attachments, and they alone, can be looked
/// at and led back from, and only files tell about themselves. No command stands twice.
pub proof fn law_menus(cat: Category)
    ensures
        ({
            let m = menu_of(cat);
            let is_file = cat == Category::File || cat == Category::Attachment;
            &&& m.len() > 0 && m[0].1 == MenuCommand::Open
            &&& offers(m, MenuCommand::Copy)
            &&& offers(m, MenuCommand::QuickLook) <==> is_file
            &&& offers(m, MenuCommand::Reveal) <==> is_file
            &&& offers(m, MenuCommand::Info) <==> cat == Category::File
            &&& forall|i: int, j: int|
                0 <= i < j < m.len() ==> (#[trigger] m[i]).1 != (#[trigger] m[j]).1
        }),
{
    let m = menu_of(cat);
    match cat {
        Category::App => {
            assert(m[1].1 == MenuCommand::Copy);
        },
        Category::File => {
            assert(m[1].1 == MenuCommand::Reveal);
            assert(m[2].1 == MenuCommand::Copy);
            assert(m[3].1 == MenuCommand::QuickLook);
            assert(m[4].1 == MenuCommand::Info);
        },
        Category::Mail => {
            assert(m[1].1 == MenuCommand::Copy);
        },
        Category::Attachment => {
            assert(m[1].1 == MenuCommand::QuickLook);
            assert(m[2].1 == MenuCommand::Copy);
            assert(m[3].1 == MenuCommand::Reveal);
        },
    }
}

/// What is told of a hit begins with its title and subtitle, and names its kind only where it
/// has one.
pub proof fn law_info<S>(h: HitView<S>)
    ensures
        info_of(h).len() == (if h.kind_label is Some {
            3int
        } else {
            2int
        }),
        info_of(h)[0] == h.title,
        info_of(h)[1] == h.subtitle,
        h.kind_label matches Some(k) ==> info_of(h)[2] == "Kind: "@ + k,
{
}

/// A hit is shown with its own kind where it has one; without one, hits of a category are shown
/// alike and those of another category otherwise.
pub proof fn law_kinds<S>(h: HitView<S>, g: HitView<S>)
    ensures
        h.kind_label matches Some(k) ==> kind_of(h) == k,
        h.kind_label is None && g.kind_label is None ==> (kind_of(h) == kind_of(g) <==> h.category
            == g.category),
{
    reveal_strlit("Application");
    reveal_strlit("File");
    reveal_strlit("Email");
    reveal_strlit("Attachment");
    assert("Application"@.len() == 11 && "Attachment"@.len() == 10);
    assert("File"@.len() == 4 && "Email"@.len() == 5);
}

/// Exactly the hits that can be looked at can be dragged; every category has an icon and every
/// chip a label of its own.
pub proof fn law_categories_shown(c: Category, d: Category, i: int, j: int)
    requires
        0 <= i < CHIP_COUNT,
        0 <= j < CHIP_COUNT,
    ensures
        draggable(c) <==> offers(menu_of(c), MenuCommand::QuickLook),
        icon_for(c) == icon_for(d) <==> c == d,
        chip_name(i) == chip_name(j) <==> i == j,
        chip_of(i) is None <==> chip_name(i) == "All"@,
        chip_of(i) == Some(Category::App) <==> chip_name(i) == "Apps"@,
        chip_of(i) == Some(Category::File) <==> chip_name(i) == "Files"@,
        chip_of(i) == Some(Category::Mail) <==> chip_name(i) == "Mail"@,
        chip_of(i) == Some(Category::Attachment) <==> chip_name(i) == "Attachments"@,
{
    law_menus(c);
    reveal_strlit("All");
    reveal_strlit("Apps");
    reveal_strlit("Files");
    reveal_strlit("Mail");
    reveal_strlit("Attachments");
    assert("All"@.len() == 3 && "Files"@.len() == 5 && "Attachments"@.len() == 11);
    assert("Apps"@[0] == 'A' && "Mail"@[0] == 'M');
    assert("Apps"@.len() == 4 && "Mail"@.len() == 4);
    reveal_strlit("application-x-executable");
    reveal_strlit("text-x-generic");
    reveal_strlit("mail-message");
    reveal_strlit("mail-attachment");
    assert("application-x-executable"@.len() == 24 && "text-x-generic"@.len() == 14);
    assert("mail-message"@.len() == 12 && "mail-attachment"@.len() == 15);
}

}
