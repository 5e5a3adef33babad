use lupa::actions::ActionPlan;
use lupa::client::{queries_of, ReplySlot, HISTORY_LIMIT};
use lupa::keymap::{
    accel_matches, asks_for_history, handle_key, is_printable_key, jump_to_next_category, Accels,
    KeyAction, KeyState, Modifiers, INVALID_POSITION,
};
use lupa::messages::{Calculation, Response};
use lupa::model::{Action, Category, DocId, Hit};
use lupa::rows::{
    build_menu_for, category_icon, category_kind_fallback, chip_category, chip_label,
    command_name, filter_passes, find_hit, icon_size, info_lines, is_draggable, kind_text, select_row,
    synthetic_history_hits, visible_rows, MenuCommand, CHIP_COUNT,
};
use lupa::session::{
    activate, empty_text, leaves_after_open, opens_on_click, Activation, LauncherController, Status,
};
use lupa::window::{
    extract_int, initial_position, launcher_extent, load_window_position, save_window_position,
    window_state_path,
};

#[test]
fn menu_for_file_has_expected_items() {
    let menu = build_menu_for(Category::File);
    assert_eq!(menu.len(), 5);
}

#[test]
fn menu_for_app_has_expected_items() {
    let menu = build_menu_for(Category::App);
    assert_eq!(menu.len(), 2);
}

#[test]
fn menu_for_mail_has_expected_items() {
    let menu = build_menu_for(Category::Mail);
    assert_eq!(menu.len(), 2);
}

#[test]
fn menu_for_attachment_has_expected_items() {
    let menu = build_menu_for(Category::Attachment);
    assert_eq!(menu.len(), 4);
}

fn hit(id: &str, category: Category) -> Hit<f32> {
    Hit {
        id: DocId(id.to_string()),
        category,
        title: format!("title of {id}"),
        subtitle: String::new(),
        icon_name: None,
        kind_label: None,
        score: 1.0,
        action: Action::OpenFile { path: format!("/{id}") },
        extract_fail: false,
    }
}

fn hits() -> Vec<Hit<f32>> {
    vec![
        hit("a", Category::App),
        hit("f1", Category::File),
        hit("m", Category::Mail),
        hit("f2", Category::File),
    ]
}

#[test]
fn looks_of_rows() {
    assert_eq!(category_icon(Category::Mail), "mail-message");
    assert_eq!(category_kind_fallback(Category::App), "Application");
    assert_eq!(kind_text(&hit("a", Category::File)), "File");
    let mut h = hit("a", Category::File);
    h.kind_label = Some("PDF Document".to_string());
    assert_eq!(kind_text(&h), "PDF Document");
    assert_eq!(info_lines(&h), vec!["title of a", "", "Kind: PDF Document"]);
    assert_eq!(info_lines(&hit("b", Category::App)).len(), 2);
    assert_eq!((icon_size(true), icon_size(false)), (48, 32));
    assert!(is_draggable(Category::Attachment) && !is_draggable(Category::Mail));
    assert_eq!(command_name(MenuCommand::QuickLook), "row.quicklook");
    assert_eq!(build_menu_for(Category::Mail)[0].0, "Open in Thunderbird");
}

#[test]
fn earlier_searches_as_rows() {
    let rows = synthetic_history_hits(&vec!["x y".to_string(), "z".to_string()], 0.0f32);
    assert_eq!(rows.len(), 2);
    assert_eq!(rows[1].id.0, "history:1:z");
    assert_eq!(rows[0].title, "x y");
    assert_eq!(rows[0].subtitle, "Recent search");
    assert_eq!(rows[0].icon_name.as_deref(), Some("document-open-recent"));
    assert_eq!(rows[0].kind_label.as_deref(), Some("Recent"));
    assert!(matches!(&rows[0].action, Action::ReplaceQuery { q } if q == "x y"));
}

#[test]
fn rows_that_are_shown() {
    let h = hits();
    assert_eq!(visible_rows(&h, None), vec!["a", "f1", "m", "f2"]);
    assert_eq!(visible_rows(&h, Some(Category::File)), vec!["f1", "f2"]);
    assert!(visible_rows(&h, Some(Category::Attachment)).is_empty());
    assert_eq!(find_hit(&h, "m"), Some(2));
    assert_eq!(find_hit(&h, "x"), None);
    assert!(filter_passes(&h, Some(Category::Mail), "x"));
    let rows = visible_rows(&h, None);
    assert_eq!(select_row(&rows, &Some("f2".to_string())), Some(3));
    assert_eq!(select_row(&rows, &Some("x".to_string())), Some(0));
    assert_eq!(select_row(&Vec::new(), &None), None);
}

#[test]
fn chips() {
    let labels: Vec<&str> = (0..CHIP_COUNT).map(chip_label).collect();
    assert_eq!(labels, vec!["All", "Apps", "Files", "Mail", "Attachments"]);
    assert_eq!(chip_category(0), None);
    assert_eq!(chip_category(3), Some(Category::Mail));
    assert_eq!(chip_category(9), None);
}

const NO_MODS: Modifiers = Modifiers {
    ctrl: false,
    shift: false,
    alt: false,
    logo: false,
    meta: false,
    hyper: false,
};

const NO_ACCELS: Accels = Accels {
    close: false,
    primary_action: false,
    secondary_action: false,
    copy: false,
    quick_look: false,
    next_result: false,
    previous_result: false,
    filter_all: false,
    filter_apps: false,
    filter_files: false,
    filter_mail: false,
    filter_attachments: false,
    reset_position: false,
};

fn state(entry_focused: bool, entry_empty: bool, n_items: u32, selected: u32) -> KeyState {
    KeyState { entry_focused, entry_empty, n_items, selected }
}

fn cats(n: usize) -> Vec<Option<Category>> {
    vec![Some(Category::File); n]
}

#[test]
fn typing() {
    assert!(is_printable_key(Some('x'), NO_MODS));
    assert!(is_printable_key(Some('X'), Modifiers { shift: true, ..NO_MODS }));
    assert!(!is_printable_key(Some('x'), Modifiers { ctrl: true, ..NO_MODS }));
    assert!(!is_printable_key(Some('\t'), NO_MODS));
    assert!(!is_printable_key(None, NO_MODS));
    let s = state(true, false, 3, 0);
    let all = Accels { close: true, next_result: true, ..NO_ACCELS };
    assert_eq!(handle_key(all, s, Some('q'), NO_MODS, &cats(3)), KeyAction::Proceed);
    let s = state(true, false, 3, INVALID_POSITION);
    assert_eq!(handle_key(all, s, Some('q'), NO_MODS, &cats(3)), KeyAction::Proceed);
    let s = state(false, false, 3, 0);
    assert_eq!(handle_key(NO_ACCELS, s, Some('q'), NO_MODS, &cats(3)), KeyAction::Type('q'));
    let look = Accels { quick_look: true, ..NO_ACCELS };
    assert_eq!(handle_key(look, s, Some(' '), NO_MODS, &cats(3)), KeyAction::QuickLook);
    let s = state(true, false, 3, 0);
    assert_eq!(handle_key(look, s, Some(' '), NO_MODS, &cats(3)), KeyAction::Proceed);
}

#[test]
fn bindings() {
    assert!(accel_matches(Some((7, 4)), 7, 5));
    assert!(!accel_matches(Some((7, 4)), 7, 1));
    assert!(!accel_matches(Some((7, 0)), 8, 0));
    assert!(!accel_matches(None, 7, 0));
    assert!(asks_for_history(true, true));
    assert!(!asks_for_history(true, false));
    assert_eq!(HISTORY_LIMIT, 10);
}

#[test]
fn moving_up_and_down() {
    let up = Accels { previous_result: true, ..NO_ACCELS };
    let down = Accels { next_result: true, ..NO_ACCELS };
    let press = |a: Accels, s: KeyState| {
        handle_key(a, s, None, NO_MODS, &cats(s.n_items as usize))
    };
    assert_eq!(press(up, state(true, true, 3, 1)), KeyAction::Proceed);
    assert_eq!(press(up, state(true, false, 0, INVALID_POSITION)), KeyAction::FocusEntry);
    assert_eq!(
        press(up, state(false, false, 3, 2)),
        KeyAction::Move { target: Some(1), focus_list: false }
    );
    assert_eq!(press(up, state(false, false, 3, 0)), KeyAction::FocusEntry);
    assert_eq!(press(down, state(true, false, 0, 0)), KeyAction::FocusEntry);
    assert_eq!(
        press(down, state(true, false, 3, 0)),
        KeyAction::Move { target: Some(1), focus_list: true }
    );
    assert_eq!(
        press(down, state(false, false, 3, 2)),
        KeyAction::Move { target: None, focus_list: false }
    );
}

#[test]
fn jumping_between_categories() {
    let c = vec![
        Some(Category::App),
        Some(Category::File),
        Some(Category::File),
        Some(Category::Mail),
    ];
    assert_eq!(jump_to_next_category(&c, 1, true), Some(3));
    assert_eq!(jump_to_next_category(&c, 3, true), None);
    assert_eq!(jump_to_next_category(&c, 2, false), Some(0));
    assert_eq!(jump_to_next_category(&c, 0, false), None);
    assert_eq!(jump_to_next_category(&c, INVALID_POSITION, false), Some(3));
    let ctrl = Modifiers { ctrl: true, ..NO_MODS };
    let down = Accels { next_result: true, ..NO_ACCELS };
    assert_eq!(
        handle_key(down, state(false, false, 4, 1), None, ctrl, &c),
        KeyAction::Move { target: Some(3), focus_list: false }
    );
    assert_eq!(
        handle_key(down, state(true, false, 4, 3), None, ctrl, &c),
        KeyAction::Move { target: Some(3), focus_list: true }
    );
}

#[test]
fn keys_of_commands() {
    let s = state(true, false, 1, 0);
    let press = |a: Accels, m: Modifiers| handle_key(a, s, None, m, &cats(1));
    let shift = Modifiers { shift: true, ..NO_MODS };
    let primary = Accels { primary_action: true, ..NO_ACCELS };
    assert_eq!(press(Accels { close: true, ..NO_ACCELS }, NO_MODS), KeyAction::Close);
    assert_eq!(press(primary, NO_MODS), KeyAction::Activate { secondary: false });
    assert_eq!(press(primary, shift), KeyAction::Activate { secondary: true });
    assert_eq!(press(Accels { copy: true, ..NO_ACCELS }, NO_MODS), KeyAction::Copy);
    assert_eq!(
        press(Accels { filter_mail: true, ..NO_ACCELS }, NO_MODS),
        KeyAction::Filter(3)
    );
    assert_eq!(press(Accels { quick_look: true, ..NO_ACCELS }, NO_MODS), KeyAction::Proceed);
    assert_eq!(
        press(Accels { reset_position: true, ..NO_ACCELS }, NO_MODS),
        KeyAction::ResetPosition
    );
    assert_eq!(press(NO_ACCELS, NO_MODS), KeyAction::Proceed);
}

fn searched() -> LauncherController<f32> {
    let mut l: LauncherController<f32> = LauncherController::default();
    assert!(l.show(1000).is_none());
    l.entry_changed("report".to_string());
    let r = l.typing_rested().unwrap();
    assert_eq!((r.q.as_str(), r.limit, r.epoch), ("report", 30, 0));
    assert!(matches!(l.status, Status::Loading));
    l.answer(hits(), None);
    l
}

#[test]
fn a_search_shows_its_rows() {
    let l = searched();
    assert!(l.visible && l.chips_shown && l.results_shown);
    assert_eq!(l.selected, Some(0));
    assert_eq!(l.last_query, "report");
    assert!(matches!(l.status, Status::Hidden));
}

#[test]
fn a_session_survives_being_put_away() {
    let mut l = searched();
    l.activate_chip(2);
    l.select(Some(1));
    assert_eq!(l.selected_doc_id().as_deref(), Some("f2"));
    l.put_away();
    assert_eq!(l.epoch, 1);
    l.vanished();
    assert!(!l.visible);
    let r = l.show(2000).unwrap();
    assert_eq!((r.q.as_str(), r.limit, r.epoch), ("report", 30, 1));
    assert!(l.visible);
    assert_eq!(l.query, "report");
    assert_eq!(l.category, Some(Category::File));
    assert_eq!(l.chip_index, 2);
    assert_eq!(l.selected_doc_id().as_deref(), Some("f2"));
    assert!(l.user_selected && l.cached.is_none());
    let mut fresh = hits();
    fresh.insert(0, hit("f0", Category::File));
    l.answer(fresh, None);
    assert_eq!(l.selected_doc_id().as_deref(), Some("f2"));
    assert_eq!(l.selected, Some(2));
}

#[test]
fn opening_something_clears_the_session() {
    let mut l = searched();
    l.clear_and_hide();
    l.vanished();
    assert!(l.show(5).is_none());
    assert!(l.query.is_empty() && l.hits.is_empty() && l.selected.is_none());
    assert!(!l.chips_shown && !l.results_shown);
}

#[test]
fn nothing_typed_is_not_kept() {
    let mut l = searched();
    l.entry_changed(String::new());
    assert!(l.hits.is_empty() && !l.chips_shown && !l.results_shown);
    l.put_away();
    assert!(l.cached.is_none());
    let mut l = searched();
    l.put_away();
    l.drop_cached_session();
    assert!(l.show(0).is_none());
}

#[test]
fn toggling() {
    let mut l = searched();
    let (seen, request) = l.toggle(10);
    assert!(!seen && request.is_none());
    l.vanished();
    let (seen, request) = l.toggle(20);
    assert!(seen && request.is_some());
}

#[test]
fn losing_the_focus() {
    let mut l: LauncherController<f32> = LauncherController::default();
    l.show(1000);
    assert!(!l.focus_lost(1149));
    assert!(l.focus_lost(1150));
    assert_eq!(l.epoch, 1);
}

#[test]
fn typing_on_selects_the_first_row() {
    let mut l = searched();
    l.select(Some(3));
    l.entry_changed("reports".to_string());
    assert!(!l.user_selected);
    l.typing_rested();
    l.answer(hits(), None);
    assert_eq!(l.selected, Some(0));
}

#[test]
fn answers_without_rows() {
    let mut l = searched();
    l.answer(Vec::new(), None);
    assert!(matches!(&l.status, Status::Empty(q) if q == "report"));
    assert!(l.chips_shown && !l.results_shown && l.selected.is_none());
    l.answer(
        Vec::new(),
        Some(Calculation { expr: "2+2".to_string(), result: "4".to_string() }),
    );
    assert!(matches!(&l.status, Status::Calculation(c) if c.result == "4"));
    let mut l: LauncherController<f32> = LauncherController::default();
    l.answer(Vec::new(), None);
    assert!(!l.chips_shown && matches!(l.status, Status::Hidden));
}

#[test]
fn earlier_searches_in_the_launcher() {
    let mut l: LauncherController<f32> = LauncherController::default();
    l.show(0);
    l.show_history(&Vec::new(), 0.0);
    assert!(l.hits.is_empty() && !l.results_shown);
    l.show_history(&vec!["one".to_string(), "two".to_string()], 0.0);
    assert_eq!(l.hits.len(), 2);
    assert!(l.results_shown);
    assert_eq!(l.selected_doc_id().as_deref(), Some("history:0:one"));
}

#[test]
fn texts_and_clicks() {
    assert_eq!(empty_text("zzzzzzzz"), "No results for 'zzzzzzzz' \u{2014} Search the web");
    assert!(opens_on_click(2) && !opens_on_click(1) && !opens_on_click(3));
    assert!(leaves_after_open(false, false) && leaves_after_open(true, true));
    assert!(!leaves_after_open(true, false));
}

#[test]
fn a_chip_that_is_not_there() {
    let mut l = searched();
    l.activate_chip(5);
    assert_eq!((l.chip_index, l.category), (0, None));
    l.selection_moved(Some(2));
    assert!(!l.user_selected);
    assert_eq!(l.selected_doc_id().as_deref(), Some("m"));
}

#[test]
fn opening_a_hit() {
    assert!(matches!(activate::<f32>(None, false, false), Activation::Dismiss));
    let file = hit("f", Category::File);
    match activate(Some(&file), false, false) {
        Activation::Run(ActionPlan::Run { program, args, .. }) => {
            assert_eq!(program, "xdg-open");
            assert_eq!(args, vec!["/f"]);
        }
        _ => panic!("expected a program"),
    }
    let recent = synthetic_history_hits(&vec!["old".to_string()], 0.0f32);
    match activate(Some(&recent[0]), false, false) {
        Activation::Replace(q) => assert_eq!(q, "old"),
        _ => panic!("expected a query"),
    }
}

#[test]
fn replies_land_in_their_session() {
    let mut slot: ReplySlot<f32> = ReplySlot::new();
    assert!(slot.poll().is_none());
    slot.receive(Response::Hits(hits()), 0, 1);
    assert!(slot.poll().is_none());
    slot.receive(Response::Error("no".to_string()), 1, 1);
    assert!(slot.poll().is_none());
    slot.receive(
        Response::HitsWithExtras {
            hits: hits(),
            calculation: Some(Calculation { expr: "1".to_string(), result: "1".to_string() }),
        },
        1,
        1,
    );
    let (h, c) = slot.poll().unwrap();
    assert_eq!(h.len(), 4);
    assert_eq!(c.unwrap().result, "1");
    assert!(slot.poll().is_none());
    slot.receive(Response::Hits(hits()), 1, 1);
    let (h, c) = slot.poll().unwrap();
    assert_eq!(h.len(), 4);
    assert!(c.is_none());
}

#[test]
fn replies_with_queries() {
    let qs = vec!["a".to_string()];
    assert_eq!(queries_of::<f32>(Some(Response::Queries(qs.clone()))), qs);
    assert!(queries_of::<f32>(Some(Response::Done)).is_empty());
    assert!(queries_of::<f32>(None).is_empty());
}

#[test]
fn places_of_the_window() {
    assert_eq!(save_window_position(-12, 7), "{\"top\":-12,\"left\":7}");
    assert_eq!(load_window_position("{\"top\":-12,\"left\":7}"), Some((-12, 7)));
    assert_eq!(load_window_position("{\"top\": 1,\"left\":7}"), None);
    assert_eq!(load_window_position("{\"left\":7}"), None);
    assert_eq!(extract_int("{\"a\":99999999999}", "a"), None);
    assert_eq!(extract_int("\"a\":5\"a\":6", "a"), Some(5));
    assert_eq!(extract_int("\"a\":1-2", "a"), None);
    assert_eq!(initial_position(&None), (140, 0));
    assert_eq!(initial_position(&Some("junk".to_string())), (140, 0));
    assert_eq!(initial_position(&Some(save_window_position(3, -4))), (3, -4));
    assert_eq!(
        window_state_path(&Some("/s".to_string())),
        Some("/s/lupa/window.json".to_string())
    );
    assert_eq!(window_state_path(&None), None);
}

#[test]
fn sizes_of_the_window() {
    assert_eq!(launcher_extent(1920, 40, 900), 768);
    assert_eq!(launcher_extent(1920, 60, 900), 900);
    assert_eq!(launcher_extent(-199, 50, 900), -99);
}
