//! The keys of the launcher: what a key press does.
use crate::model::Category;
use crate::text::char_is_control;
use vstd::prelude::*;

verus! {

use crate::rows::{chip_of, CHIP_COUNT};
use crate::text::is_control;

/// The position of a row where there is none.
pub const INVALID_POSITION: u32 = 0xffff_ffff;

/// The modifier keys that are held.
#[derive(Debug, Clone, Copy, PartialEq, Eq, Structural)]
pub struct Modifiers {
    pub ctrl: bool,
    pub shift: bool,
    pub alt: bool,
    pub logo: bool,
    pub meta: bool,
    pub hyper: bool,
}

/// Whether a key belongs to a text that is being typed: it stands for a character that is no
/// control character, and no modifier but Shift is held.
pub open spec fn is_typing(character: Option<char>, mods: Modifiers) -> bool {
    &&& !(mods.ctrl || mods.alt || mods.logo || mods.meta || mods.hyper)
    &&& character matches Some(c) && !is_control(c)
}

/// Whether a key belongs to a text that is being typed.
pub fn is_printable_key(character: Option<char>, mods: Modifiers) -> (r: bool)
    ensures
        r == is_typing(character, mods),
{
    if mods.ctrl || mods.alt || mods.logo || mods.meta || mods.hyper {
        return false;
    }
    match character {
        Some(c) => !char_is_control(c),
        None => false,
    }
}

/// Whether a key that was pressed with these modifiers is the one that is bound.
pub open spec fn accel_met(expected: Option<(u32, u32)>, key: u32, state: u32) -> bool {
    match expected {
        Some((k, m)) => key == k && (state & m) == m,
        None => false,
    }
}

/// Whether a key press is the one that a binding asks for: the key is the same, and at least
/// the modifiers of the binding are held. A binding that cannot be read matches nothing.
pub fn accel_matches(expected: Option<(u32, u32)>, key: u32, state: u32) -> (r: bool)
    ensures
        r == accel_met(expected, key, state),
{
    match expected {
        Some((k, m)) => key == k && (state & m) == m,
        None => false,
    }
}

/// Which of the bindings a key press matches.
#[derive(Debug, Clone, Copy, PartialEq, Eq, Structural)]
pub struct Accels {
    pub close: bool,
    pub primary_action: bool,
    pub secondary_action: bool,
    pub copy: bool,
    pub quick_look: bool,
    pub next_result: bool,
    pub previous_result: bool,
    pub filter_all: bool,
    pub filter_apps: bool,
    pub filter_files: bool,
    pub filter_mail: bool,
    pub filter_attachments: bool,
    pub reset_position: bool,
}

/// Where the launcher is when a key is pressed.
#[derive(Debug, Clone, Copy, PartialEq, Eq, Structural)]
pub struct KeyState {
    /// Whether the search field has the focus.
    pub entry_focused: bool,
    /// Whether the search field is empty.
    pub entry_empty: bool,
    /// The number of rows.
    pub n_items: u32,
    /// The selected row.
    pub selected: u32,
}

/// What a key press does.
#[derive(Debug, Clone, Copy, PartialEq, Eq, Structural)]
pub enum KeyAction {
    /// It goes to the widget that has the focus.
    Proceed,
    /// The character goes to the end of the search field, which gets the focus.
    Type(char),
    /// The search field gets the focus.
    FocusEntry,
    /// The row becomes the selected one, where there is one to select; the list gets the
    /// focus where `focus_list` says so.
    Move { target: Option<u32>, focus_list: bool },
    /// The launcher is put away.
    Close,
    /// The selected hit is opened.
    Activate { secondary: bool },
    /// The selected hit is copied.
    Copy,
    /// The selected hit is previewed.
    QuickLook,
    /// The chip of this number is chosen.
    Filter(usize),
    /// The window goes back to where it is by default.
    ResetPosition,
}

/// The category of a row, where it has one.
pub open spec fn cat_at(cats: Seq<Option<Category>>, i: int) -> Option<Category> {
    if 0 <= i < cats.len() {
        cats[i]
    } else {
        None
    }
}

/// The first row from `i` on that is of another category than `cat`.
pub open spec fn next_other(cats: Seq<Option<Category>>, cat: Option<Category>, i: int) -> Option<int>
    decreases cats.len() - i,
{
    if i >= cats.len() {
        None
    } else if cat_at(cats, i) != cat {
        Some(i)
    } else {
        next_other(cats, cat, i + 1)
    }
}

/// The last row before `i` that is of another category than `cat`.
pub open spec fn prev_other(cats: Seq<Option<Category>>, cat: Option<Category>, i: int) -> Option<int>
    decreases i,
{
    if i <= 0 {
        None
    } else if cat_at(cats, i - 1) != cat {
        Some(i - 1)
    } else {
        prev_other(cats, cat, i - 1)
    }
}

/// The row that a jump to another category leads to.
pub open spec fn jump_target(cats: Seq<Option<Category>>, current: int, forward: bool) -> Option<int> {
    let cat = cat_at(cats, current);
    if forward {
        next_other(cats, cat, current + 1)
    } else {
        prev_other(cats, cat, current)
    }
}

proof fn lemma_prev_other_beyond(cats: Seq<Option<Category>>, i: int)
    requires
        i >= cats.len(),
    ensures
        prev_other(cats, None, i) == prev_other(cats, None, cats.len() as int),
    decreases i,
{
    if i > cats.len() {
        lemma_prev_other_beyond(cats, i - 1);
    }
}

/// Whether two rows are of the same category.
fn same_cat(a: Option<Category>, b: Option<Category>) -> (r: bool)
    ensures
        r == (a == b),
{
    match (a, b) {
        (Some(x), Some(y)) => x == y,
        (None, None) => true,
        _ => false,
    }
}

/// The row that a jump from the current one to another category leads to, among rows of the
/// given categories.
pub fn jump_to_next_category(cats: &Vec<Option<Category>>, current: u32, forward: bool) -> (r: Option<
    u32,
>)
    requires
        cats@.len() <= u32::MAX,
        forward ==> current < u32::MAX,
    ensures
        r == (match jump_target(cats@, current as int, forward) {
            Some(i) => Some(i as u32),
            None => None,
        }),
        r matches Some(i) ==> i < cats@.len(),
{
    let n: u32 = cats.len() as u32;
    let cat: Option<Category> = if current < n {
        cats[current as usize]
    } else {
        None
    };
    if forward {
        let mut i: u32 = current + 1;
        while i < n
            invariant
                forward,
                current < i,
                n == cats@.len(),
                cat == cat_at(cats@, current as int),
                jump_target(cats@, current as int, true) == next_other(cats@, cat, i as int),
            decreases n - i,
        {
            if !same_cat(cats[i as usize], cat) {
                return Some(i);
            }
            i = i + 1;
        }
        None
    } else {
        let mut i: u32 = if current < n {
            current
        } else {
            n
        };
        proof {
            if current >= n {
                lemma_prev_other_beyond(cats@, current as int);
            }
        }
        while i > 0
            invariant
                !forward,
                i <= n,
                n == cats@.len(),
                cat == cat_at(cats@, current as int),
                jump_target(cats@, current as int, false) == prev_other(cats@, cat, i as int),
            decreases i,
        {
            if !same_cat(cats[(i - 1) as usize], cat) {
                return Some(i - 1);
            }
            i = i - 1;
        }
        None
    }
}

/// Where a jump leaves the selection: at the row it leads to, else where it is, if anywhere.
pub open spec fn after_jump(cats: Seq<Option<Category>>, current: u32, forward: bool) -> Option<u32> {
    match jump_target(cats, current as int, forward) {
        Some(i) => Some(i as u32),
        None => if current != INVALID_POSITION {
            Some(current)
        } else {
            None
        },
    }
}

/// What the key for the previous row does.
pub open spec fn up_action(s: KeyState, ctrl: bool, cats: Seq<Option<Category>>) -> KeyAction {
    if s.entry_empty && s.entry_focused {
        KeyAction::Proceed
    } else if s.n_items == 0 {
        KeyAction::FocusEntry
    } else if ctrl {
        KeyAction::Move {
            target: after_jump(cats, s.selected, false),
            focus_list: s.entry_focused,
        }
    } else if s.selected > 0 {
        KeyAction::Move { target: Some((s.selected - 1) as u32), focus_list: s.entry_focused }
    } else {
        KeyAction::FocusEntry
    }
}

/// What the key for the next row does.
pub open spec fn down_action(s: KeyState, ctrl: bool, cats: Seq<Option<Category>>) -> KeyAction {
    if s.n_items == 0 {
        KeyAction::FocusEntry
    } else if ctrl {
        KeyAction::Move {
            target: after_jump(cats, s.selected, true),
            focus_list: s.entry_focused,
        }
    } else if s.selected + 1 < s.n_items {
        KeyAction::Move { target: Some((s.selected + 1) as u32), focus_list: s.entry_focused }
    } else {
        KeyAction::Move { target: None, focus_list: s.entry_focused }
    }
}

/// What a key that is no movement does.
pub open spec fn command_action(a: Accels, s: KeyState, mods: Modifiers) -> KeyAction {
    if a.close {
        KeyAction::Close
    } else if a.primary_action || a.secondary_action {
        KeyAction::Activate { secondary: a.secondary_action || mods.shift || mods.ctrl }
    } else if a.copy {
        KeyAction::Copy
    } else if a.quick_look && !s.entry_focused {
        KeyAction::QuickLook
    } else if a.filter_all {
        KeyAction::Filter(0)
    } else if a.filter_apps {
        KeyAction::Filter(1)
    } else if a.filter_files {
        KeyAction::Filter(2)
    } else if a.filter_mail {
        KeyAction::Filter(3)
    } else if a.filter_attachments {
        KeyAction::Filter(4)
    } else if a.reset_position {
        KeyAction::ResetPosition
    } else {
        KeyAction::Proceed
    }
}

/// What a key press does.
pub open spec fn key_action(
    a: Accels,
    s: KeyState,
    character: Option<char>,
    mods: Modifiers,
    cats: Seq<Option<Category>>,
) -> KeyAction {
    if is_typing(character, mods) && s.entry_focused {
        KeyAction::Proceed
    } else if is_typing(character, mods) && !a.quick_look {
        KeyAction::Type(character->0)
    } else if a.previous_result {
        up_action(s, mods.ctrl, cats)
    } else if a.next_result {
        down_action(s, mods.ctrl, cats)
    } else {
        command_action(a, s, mods)
    }
}

/// Whether a key press asks for the next row: it is bound to that, and it is neither typed nor
/// bound to the previous row.
pub open spec fn moves_down(
    a: Accels,
    s: KeyState,
    character: Option<char>,
    mods: Modifiers,
) -> bool {
    &&& a.next_result && !a.previous_result
    &&& !(is_typing(character, mods) && (s.entry_focused || !a.quick_look))
}

/// What a key press does, given the bindings that it matches, where the launcher is, the
/// character that the key stands for, the modifiers, and the categories of the rows. The key
/// for the next row is not pressed while rows are shown and none is selected.
pub fn handle_key(
    a: Accels,
    s: KeyState,
    character: Option<char>,
    mods: Modifiers,
    cats: &Vec<Option<Category>>,
) -> (r: KeyAction)
    requires
        cats@.len() == s.n_items,
        moves_down(a, s, character, mods) && s.n_items > 0 ==> s.selected != INVALID_POSITION,
    ensures
        r == key_action(a, s, character, mods, cats@),
{
    let printable = is_printable_key(character, mods);
    if printable && s.entry_focused {
        return KeyAction::Proceed;
    }
    if printable && !a.quick_look {
        match character {
            Some(c) => {
                return KeyAction::Type(c);
            },
            None => {},
        }
    }
    if a.previous_result {
        if s.entry_empty && s.entry_focused {
            KeyAction::Proceed
        } else if s.n_items == 0 {
            KeyAction::FocusEntry
        } else if mods.ctrl {
            let target = match jump_to_next_category(cats, s.selected, false) {
                Some(i) => Some(i),
                None => {
                    if s.selected != INVALID_POSITION {
                        Some(s.selected)
                    } else {
                        None
                    }
                },
            };
            KeyAction::Move { target, focus_list: s.entry_focused }
        } else if s.selected > 0 {
            KeyAction::Move { target: Some(s.selected - 1), focus_list: s.entry_focused }
        } else {
            KeyAction::FocusEntry
        }
    } else if a.next_result {
        if s.n_items == 0 {
            KeyAction::FocusEntry
        } else if mods.ctrl {
            let target = match jump_to_next_category(cats, s.selected, true) {
                Some(i) => Some(i),
                None => Some(s.selected),
            };
            KeyAction::Move { target, focus_list: s.entry_focused }
        } else if s.selected + 1 < s.n_items {
            KeyAction::Move { target: Some(s.selected + 1), focus_list: s.entry_focused }
        } else {
            KeyAction::Move { target: None, focus_list: s.entry_focused }
        }
    } else if a.close {
        KeyAction::Close
    } else if a.primary_action || a.secondary_action {
        KeyAction::Activate { secondary: a.secondary_action || mods.shift || mods.ctrl }
    } else if a.copy {
        KeyAction::Copy
    } else if a.quick_look && !s.entry_focused {
        KeyAction::QuickLook
    } else if a.filter_all {
        KeyAction::Filter(0)
    } else if a.filter_apps {
        KeyAction::Filter(1)
    } else if a.filter_files {
        KeyAction::Filter(2)
    } else if a.filter_mail {
        KeyAction::Filter(3)
    } else if a.filter_attachments {
        KeyAction::Filter(4)
    } else if a.reset_position {
        KeyAction::ResetPosition
    } else {
        KeyAction::Proceed
    }
}

/// What a key press does while the search field has the focus, before the search field sees
/// it: the key for earlier searches asks for them where the field is empty.
pub fn asks_for_history(matches_history_up: bool, entry_empty: bool) -> (r: bool)
    ensures
        r == (matches_history_up && entry_empty),
{
    matches_history_up && entry_empty
}

/// A character that is typed into the search field always reaches it, whatever is bound to
/// its key.
pub proof fn law_typing_reaches_the_entry(
    a: Accels,
    s: KeyState,
    c: char,
    mods: Modifiers,
    cats: Seq<Option<Category>>,
)
    requires
        is_typing(Some(c), mods),
    ensures
        s.entry_focused ==> key_action(a, s, Some(c), mods, cats) == KeyAction::Proceed,
        !s.entry_focused && !a.quick_look ==> key_action(a, s, Some(c), mods, cats)
            == KeyAction::Type(c),
{
}

/// A key that moves the selection moves it to a row that is there.
pub proof fn law_moves_stay_within_the_rows(
    a: Accels,
    s: KeyState,
    character: Option<char>,
    mods: Modifiers,
    cats: Seq<Option<Category>>,
)
    requires
        cats.len() == s.n_items,
        s.selected < s.n_items,
    ensures
        key_action(a, s, character, mods, cats) matches KeyAction::Move { target, focus_list }
            ==> (target matches Some(t) ==> t < s.n_items),
{
    lemma_next_other(cats, cat_at(cats, s.selected as int), s.selected as int + 1);
    lemma_prev_other(cats, cat_at(cats, s.selected as int), s.selected as int);
}

/// A jump leads to the nearest row of another category in its direction.
pub proof fn law_jump_target(cats: Seq<Option<Category>>, current: int)
    requires
        0 <= current < cats.len(),
    ensures
        jump_target(cats, current, true) matches Some(i) ==> current < i < cats.len() && cats[i]
            != cats[current] && forall|j: int|
            current < j < i ==> #[trigger] cats[j] == cats[current],
        jump_target(cats, current, true) is None ==> forall|j: int|
            current < j < cats.len() ==> #[trigger] cats[j] == cats[current],
        jump_target(cats, current, false) matches Some(i) ==> 0 <= i < current && cats[i]
            != cats[current] && forall|j: int|
            i < j < current ==> #[trigger] cats[j] == cats[current],
        jump_target(cats, current, false) is None ==> forall|j: int|
            0 <= j < current ==> #[trigger] cats[j] == cats[current],
{
    lemma_next_other(cats, cats[current], current + 1);
    lemma_prev_other(cats, cats[current], current);
}

proof fn lemma_next_other(cats: Seq<Option<Category>>, cat: Option<Category>, i: int)
    requires
        0 <= i <= cats.len(),
    ensures
        next_other(cats, cat, i) matches Some(k) ==> i <= k < cats.len() && cats[k] != cat
            && forall|j: int| i <= j < k ==> #[trigger] cats[j] == cat,
        next_other(cats, cat, i) is None ==> forall|j: int|
            i <= j < cats.len() ==> #[trigger] cats[j] == cat,
    decreases cats.len() - i,
{
    if i < cats.len() && cats[i] == cat {
        lemma_next_other(cats, cat, i + 1);
    }
}

proof fn lemma_prev_other(cats: Seq<Option<Category>>, cat: Option<Category>, i: int)
    requires
        0 <= i <= cats.len(),
    ensures
        prev_other(cats, cat, i) matches Some(k) ==> 0 <= k < i && cats[k] != cat && forall|j: int|
            k < j < i ==> #[trigger] cats[j] == cat,
        prev_other(cats, cat, i) is None ==> forall|j: int|
            0 <= j < i ==> #[trigger] cats[j] == cat,
    decreases i,
{
    if i > 0 && cats[i - 1] == cat {
        lemma_prev_other(cats, cat, i - 1);
    }
}

/// The next key goes to the row below and the previous key back up again; they stop at the
/// last row and leave the rows above the first.
pub proof fn law_arrows(
    a: Accels,
    s: KeyState,
    character: Option<char>,
    mods: Modifiers,
    cats: Seq<Option<Category>>,
)
    requires
        !is_typing(character, mods),
        a.next_result && !a.previous_result,
        !mods.ctrl,
        s.selected < s.n_items,
    ensures
        ({
            let up = Accels { previous_result: true, next_result: false, ..a };
            let next = KeyState { selected: (s.selected + 1) as u32, ..s };
            let down = key_action(a, s, character, mods, cats);
            let back = key_action(up, next, character, mods, cats);
            let above = key_action(up, s, character, mods, cats);
            &&& s.selected + 1 < s.n_items ==> down == (KeyAction::Move {
                target: Some((s.selected + 1) as u32),
                focus_list: s.entry_focused,
            })
            &&& s.selected + 1 == s.n_items ==> down == (KeyAction::Move {
                target: None,
                focus_list: s.entry_focused,
            })
            &&& s.selected + 1 < s.n_items && !(s.entry_empty && s.entry_focused) ==> back == (
            KeyAction::Move { target: Some(s.selected), focus_list: s.entry_focused })
            &&& s.selected == 0 && !(s.entry_empty && s.entry_focused) ==> above
                == KeyAction::FocusEntry
            &&& s.entry_empty && s.entry_focused ==> above == KeyAction::Proceed
        }),
{
}

/// Without rows the two keys go to the search field; with the control key they go to the next
/// row of another category, or stay.
pub proof fn law_arrows_elsewhere(
    a: Accels,
    s: KeyState,
    character: Option<char>,
    mods: Modifiers,
    cats: Seq<Option<Category>>,
)
    requires
        !is_typing(character, mods),
        a.next_result || a.previous_result,
        !(s.entry_empty && s.entry_focused),
        cats.len() == s.n_items,
        s.n_items > 0 ==> s.selected < s.n_items,
    ensures
        ({
            let k = key_action(a, s, character, mods, cats);
            &&& s.n_items == 0 ==> k == KeyAction::FocusEntry
            &&& s.n_items > 0 && mods.ctrl ==> {
                &&& k matches KeyAction::Move { target, focus_list }
                &&& focus_list == s.entry_focused
                &&& target is Some
                &&& target->0 < s.n_items
                &&& target->0 != s.selected ==> cats[target->0 as int] != cats[s.selected as int]
                    && (a.previous_result <==> target->0 < s.selected)
                &&& target->0 == s.selected ==> (forall|j: int|
                    (if a.previous_result {
                        0 <= j < s.selected
                    } else {
                        s.selected < j < cats.len()
                    }) ==> #[trigger] cats[j] == cats[s.selected as int])
            }
        }),
{
    if s.n_items > 0 {
        law_jump_target(cats, s.selected as int);
    }
}

/// A key does what it is bound to, wherever the focus is; only the preview key is typed while
/// the search field has the focus. Shift or control open the second way.
pub proof fn law_command_keys(
    a: Accels,
    s: KeyState,
    character: Option<char>,
    mods: Modifiers,
    cats: Seq<Option<Category>>,
)
    requires
        !is_typing(character, mods),
        !a.next_result && !a.previous_result,
    ensures
        ({
            let k = key_action(a, s, character, mods, cats);
            let opens = a.primary_action || a.secondary_action;
            &&& k == KeyAction::Close <==> a.close
            &&& k is Activate <==> opens && !a.close
            &&& k matches KeyAction::Activate { secondary } ==> (secondary <==> a.secondary_action
                || mods.shift || mods.ctrl)
            &&& k == KeyAction::Copy <==> a.copy && !opens && !a.close
            &&& k == KeyAction::QuickLook <==> a.quick_look && !s.entry_focused && !a.copy && !opens
                && !a.close
            &&& k matches KeyAction::Filter(i) ==> {
                ||| a.filter_all && i < CHIP_COUNT && chip_of(i as int) is None
                ||| a.filter_apps && chip_of(i as int) == Some(Category::App)
                ||| a.filter_files && chip_of(i as int) == Some(Category::File)
                ||| a.filter_mail && chip_of(i as int) == Some(Category::Mail)
                ||| a.filter_attachments && chip_of(i as int) == Some(Category::Attachment)
            }
            &&& (a.filter_all || a.filter_apps || a.filter_files || a.filter_mail
                || a.filter_attachments) && !a.close && !opens && !a.copy && !(a.quick_look
                && !s.entry_focused) ==> k is Filter
            &&& k == KeyAction::ResetPosition ==> a.reset_position
            &&& a.reset_position ==> k != KeyAction::Proceed
            &&& k == KeyAction::Proceed ==> !a.close && !opens && !a.copy && !(a.quick_look
                && !s.entry_focused) && !a.reset_position
            &&& !(k is Move) && !(k is Type) && k != KeyAction::FocusEntry
        }),
{
}

/// A character is typed unless a modifier other than shift is held, or it is a control character.
pub proof fn law_typing(c: char, mods: Modifiers)
    ensures
        is_typing(Some(c), mods) == is_typing(Some(c), Modifiers { shift: !mods.shift, ..mods }),
        mods.ctrl || mods.alt || mods.logo || mods.meta || mods.hyper ==> !is_typing(
            Some(c),
            mods,
        ),
        !is_typing(None, mods),
        (c as u32) < 0x20 || 0x7f <= c as u32 <= 0x9f ==> !is_typing(Some(c), mods),
        (c as u32) > 0x9f && !(mods.ctrl || mods.alt || mods.logo || mods.meta || mods.hyper)
            ==> is_typing(Some(c), mods),
        ' ' <= c <= '~' && !(mods.ctrl || mods.alt || mods.logo || mods.meta || mods.hyper)
            ==> is_typing(Some(c), mods),
{
}

/// A binding is met by its key with its modifiers, whatever other modifiers are held as well, and
/// by no other key; nothing meets a binding that is not there.
pub proof fn law_accelerators(key: u32, mods: u32, other: u32, state: u32, more: u32)
    ensures
        accel_met(Some((key, mods)), key, mods | more),
        accel_met(Some((key, 0)), key, state),
        accel_met(Some((key, mods)), key, state) ==> accel_met(
            Some((key, mods)),
            key,
            state | more,
        ),
        other != key ==> !accel_met(Some((key, mods)), other, state),
        mods != 0 ==> !accel_met(Some((key, mods)), key, 0),
        !accel_met(None, key, state),
{
    assert((mods | more) & mods == mods) by (bit_vector);
    assert(state & 0 == 0) by (bit_vector);
    assert(0 & mods == 0) by (bit_vector);
    assert(state & mods == mods ==> (state | more) & mods == mods) by (bit_vector);
}

}
