//! The launcher's state machine: the query being typed, the filtered list,
//! the selection and its scroll window, and what keys, window events and
//! item actions do to them. Rendering, window-system events and the modes'
//! own work happen outside; they hand events in and take results out.

use vstd::prelude::*;
use crate::item::{Item, Action, ActionView, pick};
use crate::search::{
    FuzzyMatcher, filtered_by, lemma_filter_result_unique, all_scorable, word_count, count_words,
    lemma_words_remove, MAX_QUERY_WORDS,
};
use crate::text::string_from;

verus! {

/// How many items the popup shows at once.
pub const MAX_VISIBLE: usize = 10;

/// The popup's width in pixels.
pub const POPUP_WIDTH: i32 = 600;

/// The popup's height in pixels.
pub const POPUP_HEIGHT: i32 = 400;

/// Integer division rounding toward zero, as Rust's `/` does, for `d > 0`.
pub open spec fn div_toward_zero(a: int, d: int) -> int {
    if a >= 0 {
        a / d
    } else {
        -((-a) / d)
    }
}

/// Where the popup goes on a monitor at (`x`, `y`) of the given size:
/// centred across and a third of the way down (offsets rounded toward zero).
pub open spec fn popup_origin_view(x: int, y: int, width: int, height: int) -> (int, int) {
    (x + div_toward_zero(width - POPUP_WIDTH, 2), y + div_toward_zero(height - POPUP_HEIGHT, 3))
}

/// An `i32` value.
pub open spec fn fits_i32(v: int) -> bool {
    i32::MIN <= v <= i32::MAX
}

/// The popup's position on a monitor, as [`popup_origin_view`] states; the
/// offsets and the position must be `i32` values.
pub fn popup_origin(x: i32, y: i32, width: i32, height: i32) -> (r: (i32, i32))
    requires
        fits_i32(width - POPUP_WIDTH),
        fits_i32(height - POPUP_HEIGHT),
        fits_i32(popup_origin_view(x as int, y as int, width as int, height as int).0),
        fits_i32(popup_origin_view(x as int, y as int, width as int, height as int).1),
    ensures
        (r.0 as int, r.1 as int) == popup_origin_view(x as int, y as int, width as int, height as int),
{
    let dx: i64 = width as i64 - POPUP_WIDTH as i64;
    let dy: i64 = height as i64 - POPUP_HEIGHT as i64;
    let ox: i64 = if dx >= 0 {
        dx / 2
    } else {
        -((-dx) / 2)
    };
    let oy: i64 = if dy >= 0 {
        dy / 3
    } else {
        -((-dy) / 3)
    };
    ((x as i64 + ox) as i32, (y as i64 + oy) as i32)
}

/// A key the launcher reacts to.
pub enum Key {
    Escape,
    Return,
    Tab,
    Up,
    Down,
    PageUp,
    PageDown,
    Home,
    End,
    Left,
    Right,
    Backspace,
    Delete,
    Char(char),
    Space,
    /// Any other key.
    Other,
}

/// A window-system event.
pub enum InputEvent {
    /// A key was pressed or released.
    Key { key: Key, pressed: bool },
    /// The window must be redrawn.
    Expose,
    /// The window manager asks the window to close.
    CloseRequested,
    /// The window received the keyboard focus.
    FocusIn,
    /// The window lost the keyboard focus.
    FocusOut,
    /// Any other event.
    Other,
}

/// What the caller must do after an event.
pub struct EventOutcome {
    /// Redraw the popup.
    pub redraw: bool,
    /// Activate the selected item (see [`LauncherState::current_item`]).
    pub activate: bool,
}

/// Application state of the launcher.
pub struct LauncherState {
    input: Vec<char>,
    cursor: usize,
    all_items: Vec<Item>,
    filtered_items: Vec<Item>,
    selected: usize,
    scroll_offset: usize,
    max_visible: usize,
    matcher: FuzzyMatcher,
    result: Option<Action>,
    should_quit: bool,
    has_focus: bool,
}

/// The abstract value of a [`LauncherState`].
pub struct LauncherView {
    pub input: Seq<char>,
    pub cursor: int,
    pub all: Seq<Item>,
    pub filtered: Seq<Item>,
    pub selected: int,
    pub scroll: int,
    pub max_visible: int,
    pub result: Option<ActionView>,
    pub should_quit: bool,
    pub has_focus: bool,
}

/// The view of an optional action.
pub open spec fn opt_action_view(a: Option<Action>) -> Option<ActionView> {
    match a {
        Some(a) => Some(a@),
        None => None,
    }
}

impl View for LauncherState {
    type V = LauncherView;

    closed spec fn view(&self) -> LauncherView {
        LauncherView {
            input: self.input@,
            cursor: self.cursor as int,
            all: self.all_items@,
            filtered: self.filtered_items@,
            selected: self.selected as int,
            scroll: self.scroll_offset as int,
            max_visible: self.max_visible as int,
            result: opt_action_view(self.result),
            should_quit: self.should_quit,
            has_focus: self.has_focus,
        }
    }
}

/// `filtered` is what filtering `all` by `query` gives.
pub open spec fn filter_consistent(query: Seq<char>, all: Seq<Item>, filtered: Seq<Item>) -> bool {
    exists|order: Seq<int>| filtered_by(query, all, order, filtered)
}

/// The state's invariant: the cursor is within the input, the filtered list
/// is what filtering all items by the input gives, and the selection lies
/// inside the list (or is 0 when it is empty) and inside the scroll window.
pub open spec fn launcher_wf(v: LauncherView) -> bool {
    &&& 0 <= v.cursor <= v.input.len()
    &&& v.input.len() < usize::MAX
    &&& v.max_visible == MAX_VISIBLE
    &&& all_scorable(v.all)
    &&& word_count(v.input) <= MAX_QUERY_WORDS
    &&& filter_consistent(v.input, v.all, v.filtered)
    &&& 0 <= v.scroll <= v.selected < v.scroll + v.max_visible
    &&& v.filtered.len() == 0 ==> v.selected == 0
    &&& v.filtered.len() > 0 ==> v.selected < v.filtered.len()
}

/// The selection after moving up one item.
pub open spec fn move_up(v: LauncherView) -> LauncherView {
    if v.selected > 0 {
        let s = v.selected - 1;
        LauncherView { selected: s, scroll: if s < v.scroll { s } else { v.scroll }, ..v }
    } else {
        v
    }
}

/// The selection after moving down one item.
pub open spec fn move_down(v: LauncherView) -> LauncherView {
    if v.selected + 1 < v.filtered.len() {
        let s = v.selected + 1;
        LauncherView {
            selected: s,
            scroll: if s >= v.scroll + v.max_visible { s - v.max_visible + 1 } else { v.scroll },
            ..v
        }
    } else {
        v
    }
}

/// `n` moves up.
pub open spec fn move_up_n(v: LauncherView, n: nat) -> LauncherView
    decreases n,
{
    if n == 0 {
        v
    } else {
        move_up(move_up_n(v, (n - 1) as nat))
    }
}

/// `n` moves down.
pub open spec fn move_down_n(v: LauncherView, n: nat) -> LauncherView
    decreases n,
{
    if n == 0 {
        v
    } else {
        move_down(move_down_n(v, (n - 1) as nat))
    }
}

/// `new` has the given input and cursor, the list filtered anew by that
/// input, and the selection back at the top; nothing else changed.
pub open spec fn refiltered(old: LauncherView, input: Seq<char>, cursor: int, new: LauncherView) -> bool {
    &&& new.input == input
    &&& new.cursor == cursor
    &&& new.all == old.all
    &&& filter_consistent(input, old.all, new.filtered)
    &&& new.selected == 0
    &&& new.scroll == 0
    &&& new.max_visible == old.max_visible
    &&& new.result == old.result
    &&& new.should_quit == old.should_quit
    &&& new.has_focus == old.has_focus
}

/// Whether the query can take `c` at the cursor: it stays shorter than
/// `usize::MAX` characters and holds at most [`MAX_QUERY_WORDS`] words.
pub open spec fn accepts(v: LauncherView, c: char) -> bool {
    &&& v.input.len() < usize::MAX - 1
    &&& word_count(v.input.insert(v.cursor, c)) <= MAX_QUERY_WORDS
}

/// Whether a key can be handled: a typed character (or space) must be one
/// that the query [`accepts`]; every other key can.
pub open spec fn key_accepted(v: LauncherView, key: Key) -> bool {
    match key {
        Key::Char(c) => accepts(v, c),
        Key::Space => accepts(v, ' '),
        _ => true,
    }
}

/// What a key press does to the state.
pub open spec fn key_step(old: LauncherView, key: Key, new: LauncherView) -> bool {
    match key {
        Key::Escape => new == LauncherView { should_quit: true, ..old },
        Key::Up => new == move_up(old),
        Key::Down => new == move_down(old),
        Key::PageUp => new == move_up_n(old, old.max_visible as nat),
        Key::PageDown => new == move_down_n(old, old.max_visible as nat),
        Key::Home => new == LauncherView { cursor: 0, ..old },
        Key::End => new == LauncherView { cursor: old.input.len() as int, ..old },
        Key::Left => new == if old.cursor > 0 {
            LauncherView { cursor: old.cursor - 1, ..old }
        } else {
            old
        },
        Key::Right => new == if old.cursor < old.input.len() {
            LauncherView { cursor: old.cursor + 1, ..old }
        } else {
            old
        },
        Key::Backspace => if old.cursor > 0 {
            refiltered(old, old.input.remove(old.cursor - 1), old.cursor - 1, new)
        } else {
            new == old
        },
        Key::Delete => if old.cursor < old.input.len() {
            refiltered(old, old.input.remove(old.cursor), old.cursor, new)
        } else {
            new == old
        },
        Key::Char(c) => refiltered(old, old.input.insert(old.cursor, c), old.cursor + 1, new),
        Key::Space => refiltered(old, old.input.insert(old.cursor, ' '), old.cursor + 1, new),
        _ => new == old,
    }
}

/// What an event does to the state.
pub open spec fn event_step(old: LauncherView, ev: InputEvent, new: LauncherView) -> bool {
    match ev {
        InputEvent::Key { key, pressed } => if pressed {
            key_step(old, key, new)
        } else {
            new == old
        },
        InputEvent::CloseRequested => new == LauncherView { should_quit: true, ..old },
        InputEvent::FocusIn => new == LauncherView { has_focus: true, ..old },
        InputEvent::FocusOut => new == if old.has_focus {
            LauncherView { should_quit: true, ..old }
        } else {
            old
        },
        _ => new == old,
    }
}

/// Whether an event asks for a redraw: a pressed key or an expose.
pub open spec fn event_redraws(ev: InputEvent) -> bool {
    match ev {
        InputEvent::Key { pressed, .. } => pressed,
        InputEvent::Expose => true,
        _ => false,
    }
}

/// Whether an event activates the selected item: a pressed Return.
pub open spec fn event_activates(ev: InputEvent) -> bool {
    match ev {
        InputEvent::Key { key: Key::Return, pressed } => pressed,
        _ => false,
    }
}

/// What the outcome of an item's activation does to the state; the result
/// says which mode to switch to, if any.
pub open spec fn action_step(old: LauncherView, action: ActionView, new: LauncherView) -> bool {
    match action {
        ActionView::Close => new == LauncherView { should_quit: true, ..old },
        ActionView::SwitchMode(_) => new == old,
        _ => new == LauncherView { result: Some(action), should_quit: true, ..old },
    }
}

proof fn lemma_moves_keep_wf(v: LauncherView, n: nat)
    requires
        launcher_wf(v),
    ensures
        launcher_wf(move_up(v)),
        launcher_wf(move_down(v)),
        launcher_wf(move_up_n(v, n)),
        launcher_wf(move_down_n(v, n)),
        move_up_n(v, n).filtered == v.filtered,
        move_down_n(v, n).filtered == v.filtered,
    decreases n,
{
    if n > 0 {
        lemma_moves_keep_wf(v, (n - 1) as nat);
        lemma_moves_keep_wf(move_up_n(v, (n - 1) as nat), 0);
        lemma_moves_keep_wf(move_down_n(v, (n - 1) as nat), 0);
    }
}

/// Right moves the cursor forward by exactly one character while it is
/// before the end of the query, and changes nothing else; at the end it
/// changes nothing.
pub proof fn lemma_right_moves_one(v: LauncherView, n: LauncherView)
    requires
        0 <= v.cursor <= v.input.len(),
        key_step(v, Key::Right, n),
    ensures
        v.cursor < v.input.len() ==> n.cursor == v.cursor + 1,
        v.cursor == v.input.len() ==> n.cursor == v.cursor,
        n.input == v.input,
        n.all == v.all,
        n.filtered == v.filtered,
        n.selected == v.selected,
        n.scroll == v.scroll,
        n.max_visible == v.max_visible,
        n.result == v.result,
        n.should_quit == v.should_quit,
        n.has_focus == v.has_focus,
{
}

/// Left moves the cursor back by exactly one character while it is after
/// the start of the query, and changes nothing else; at the start it changes
/// nothing.
pub proof fn lemma_left_moves_one(v: LauncherView, n: LauncherView)
    requires
        0 <= v.cursor <= v.input.len(),
        key_step(v, Key::Left, n),
    ensures
        v.cursor > 0 ==> n.cursor == v.cursor - 1,
        v.cursor == 0 ==> n.cursor == 0,
        n.input == v.input,
        n.all == v.all,
        n.filtered == v.filtered,
        n.selected == v.selected,
        n.scroll == v.scroll,
        n.max_visible == v.max_visible,
        n.result == v.result,
        n.should_quit == v.should_quit,
        n.has_focus == v.has_focus,
{
}

/// Right followed by Left, from a cursor before the end of the query, gives
/// back the state it started from.
pub proof fn lemma_left_undoes_right(v: LauncherView, n1: LauncherView, n2: LauncherView)
    requires
        0 <= v.cursor < v.input.len(),
        key_step(v, Key::Right, n1),
        key_step(n1, Key::Left, n2),
    ensures
        n2 == v,
{
}

/// Home, then Right `k` times (`k` at most the query's length), leaves the
/// cursor after the first `k` characters.
pub proof fn lemma_home_then_rights(ss: Seq<LauncherView>, k: int)
    requires
        ss.len() == k + 2,
        0 <= k <= ss[0].input.len(),
        0 <= ss[0].cursor <= ss[0].input.len(),
        key_step(ss[0], Key::Home, ss[1]),
        forall|i: int| 1 <= i < k + 1 ==> #[trigger] key_step(ss[i], Key::Right, ss[i + 1]),
    ensures
        ss[k + 1].cursor == k,
        ss[k + 1].input == ss[0].input,
    decreases k,
{
    if k > 0 {
        lemma_home_then_rights(ss.take(k + 1), k - 1);
        assert(ss.take(k + 1)[k] == ss[k]);
        assert(key_step(ss[k], Key::Right, ss[k + 1]));
    }
}

/// Typing a character and erasing it with Backspace gives back the query,
/// the cursor and the filtered list (the selection returns to the top).
pub proof fn lemma_type_then_erase(s0: LauncherView, c: char, s1: LauncherView, s2: LauncherView)
    requires
        launcher_wf(s0),
        key_step(s0, Key::Char(c), s1),
        key_step(s1, Key::Backspace, s2),
    ensures
        s2.input == s0.input,
        s2.cursor == s0.cursor,
        s2.all == s0.all,
        s2.filtered == s0.filtered,
        s2.selected == 0,
{
    assert(s1.input.remove(s1.cursor - 1) =~= s0.input);
    let o0 = choose|o: Seq<int>| filtered_by(s0.input, s0.all, o, s0.filtered);
    let o2 = choose|o: Seq<int>| filtered_by(s0.input, s0.all, o, s2.filtered);
    lemma_filter_result_unique(s0.input, s0.all, o0, s0.filtered, o2, s2.filtered);
}

/// `new` is `old` with the items replaced and the query cleared, as
/// [`LauncherState::switch_items`] leaves it.
pub open spec fn switched(old: LauncherView, new: LauncherView) -> bool {
    new == LauncherView {
        input: Seq::empty(),
        cursor: 0,
        all: new.all,
        filtered: new.all,
        selected: 0,
        scroll: 0,
        ..old
    }
}

/// One turn of the launcher loop: `ev` takes `old` to `mid`
/// ([`LauncherState::handle_event`]); where the event activated the
/// selection and that led to `act`, the action's step follows
/// ([`LauncherState::apply_action`]), and after a mode switch possibly the
/// new mode's items ([`LauncherState::switch_items`]); otherwise `new` is `mid`.
pub open spec fn loop_turn(
    old: LauncherView,
    ev: InputEvent,
    mid: LauncherView,
    act: Option<ActionView>,
    new: LauncherView,
) -> bool {
    &&& event_step(old, ev, mid)
    &&& match act {
        None => new == mid,
        Some(a) => event_activates(ev) && (action_step(mid, a, new) || (a is SwitchMode
            && switched(mid, new))),
    }
}

/// The event is a press of Escape.
pub open spec fn is_escape_press(ev: InputEvent) -> bool {
    ev matches InputEvent::Key { key: Key::Escape, pressed: true }
}

/// The selection led to an action other than a mode switch.
pub open spec fn action_stops(act: Option<ActionView>) -> bool {
    match act {
        Some(a) => !(a is SwitchMode),
        None => false,
    }
}

/// The event is a focus-in.
pub open spec fn is_focus_in(ev: InputEvent) -> bool {
    ev is FocusIn
}

/// Some event before position `k` is a focus-in.
pub open spec fn focused_before(evs: Seq<InputEvent>, k: int) -> bool {
    exists|j: int| 0 <= j < k && #[trigger] is_focus_in(evs[j])
}

/// Turn `i` of the loop asks it to stop: the window is closed, Escape is
/// pressed, focus is lost after it was once gained, or the selection led to
/// an action other than a mode switch.
pub open spec fn stops_at(evs: Seq<InputEvent>, acts: Seq<Option<ActionView>>, i: int) -> bool {
    ||| evs[i] is CloseRequested
    ||| is_escape_press(evs[i])
    ||| evs[i] is FocusOut && focused_before(evs, i)
    ||| action_stops(acts[i])
}

/// Some turn before position `k` asks the loop to stop.
pub open spec fn stopped_before(evs: Seq<InputEvent>, acts: Seq<Option<ActionView>>, k: int) -> bool {
    exists|i: int| 0 <= i < k && #[trigger] stops_at(evs, acts, i)
}

proof fn lemma_moves_keep_flags(v: LauncherView, n: nat)
    ensures
        move_up_n(v, n).should_quit == v.should_quit,
        move_up_n(v, n).has_focus == v.has_focus,
        move_down_n(v, n).should_quit == v.should_quit,
        move_down_n(v, n).has_focus == v.has_focus,
    decreases n,
{
    if n > 0 {
        lemma_moves_keep_flags(v, (n - 1) as nat);
    }
}

/// What one turn of the loop does to the quit and focus flags.
proof fn lemma_turn_flags(
    old: LauncherView,
    ev: InputEvent,
    mid: LauncherView,
    act: Option<ActionView>,
    new: LauncherView,
)
    requires
        loop_turn(old, ev, mid, act, new),
    ensures
        new.has_focus == (old.has_focus || is_focus_in(ev)),
        new.should_quit == (old.should_quit || ev is CloseRequested || is_escape_press(ev) || (
        ev is FocusOut && old.has_focus) || action_stops(act)),
{
    lemma_moves_keep_flags(old, old.max_visible as nat);
    lemma_moves_keep_flags(old, 1);
    assert(move_up_n(old, 1) == move_up(move_up_n(old, 0)));
    assert(move_down_n(old, 1) == move_down(move_down_n(old, 0)));
}

/// Over any run of the launcher loop from a fresh launcher (neither focused
/// nor quitting), the launcher is to quit after a turn exactly when some turn
/// so far asked it to stop ([`stops_at`]), and it has focus exactly when some
/// event so far was a focus-in; in particular a focus-out before any
/// focus-in never stops it.
pub proof fn lemma_quit_rule(
    ss: Seq<LauncherView>,
    evs: Seq<InputEvent>,
    ms: Seq<LauncherView>,
    acts: Seq<Option<ActionView>>,
    k: int,
)
    requires
        ss.len() == evs.len() + 1,
        ms.len() == evs.len(),
        acts.len() == evs.len(),
        !ss[0].should_quit,
        !ss[0].has_focus,
        forall|i: int| 0 <= i < evs.len() ==> #[trigger] loop_turn(ss[i], evs[i], ms[i], acts[i], ss[i + 1]),
        0 <= k <= evs.len(),
    ensures
        ss[k].should_quit <==> stopped_before(evs, acts, k),
        ss[k].has_focus <==> focused_before(evs, k),
    decreases k,
{
    if k > 0 {
        let i = k - 1;
        lemma_quit_rule(ss, evs, ms, acts, i);
        assert(loop_turn(ss[i], evs[i], ms[i], acts[i], ss[i + 1]));
        lemma_turn_flags(ss[i], evs[i], ms[i], acts[i], ss[i + 1]);
        if focused_before(evs, k) && !is_focus_in(evs[i]) {
            let j = choose|j: int| 0 <= j < k && #[trigger] is_focus_in(evs[j]);
            assert(0 <= j < i && is_focus_in(evs[j]));
        }
        if is_focus_in(evs[i]) {
            assert(focused_before(evs, k));
        }
        if focused_before(evs, i) {
            let j = choose|j: int| 0 <= j < i && #[trigger] is_focus_in(evs[j]);
            assert(0 <= j < k && is_focus_in(evs[j]));
        }
        if stopped_before(evs, acts, k) && !stops_at(evs, acts, i) {
            let j = choose|j: int| 0 <= j < k && #[trigger] stops_at(evs, acts, j);
            assert(0 <= j < i && stops_at(evs, acts, j));
        }
        if stops_at(evs, acts, i) {
            assert(stopped_before(evs, acts, k));
        }
        if stopped_before(evs, acts, i) {
            let j = choose|j: int| 0 <= j < i && #[trigger] stops_at(evs, acts, j);
            assert(0 <= j < k && stops_at(evs, acts, j));
        }
    }
}

/// In every state that satisfies the invariant, which every operation keeps,
/// the selected item lies inside the scroll window and inside the list.
pub proof fn lemma_selection_visible(v: LauncherView)
    requires
        launcher_wf(v),
        v.filtered.len() > 0,
    ensures
        v.scroll <= v.selected < v.scroll + v.max_visible,
        v.selected < v.filtered.len(),
{
}

impl LauncherState {
    /// The state's invariant holds.
    pub open spec fn wf(&self) -> bool {
        launcher_wf(self@)
    }

    /// A launcher listing `items` in order, with an empty query. Every name
    /// and description must be one that nucleo can match against
    /// ([`all_scorable`]).
    pub fn new(items: Vec<Item>) -> (r: LauncherState)
        requires
            all_scorable(items@),
        ensures
            r.wf(),
            r@.input.len() == 0,
            r@.cursor == 0,
            r@.all == items@,
            r@.filtered == items@,
            r@.selected == 0,
            r@.scroll == 0,
            r@.result is None,
            !r@.should_quit,
            !r@.has_focus,
    {
        let mut matcher = FuzzyMatcher::new();
        proof {
            reveal_strlit("");
        }
        let filtered_items = matcher.filter(items.as_slice(), "");
        proof {
            let order = choose|order: Seq<int>| filtered_by(""@, items@, order, filtered_items@);
            assert(filtered_items@ == items@);
            assert(filtered_by(Seq::<char>::empty(), items@, order, filtered_items@));
        }
        let r = LauncherState {
            input: Vec::new(),
            cursor: 0,
            all_items: items,
            filtered_items,
            selected: 0,
            scroll_offset: 0,
            max_visible: MAX_VISIBLE,
            matcher,
            result: None,
            should_quit: false,
            has_focus: false,
        };
        proof {
            assert(r@.input =~= ""@);
        }
        r
    }

    /// Filter items based on the current input and reset the selection.
    fn filter_items(&mut self)
        requires
            old(self)@.input.len() < usize::MAX,
            old(self)@.cursor <= old(self)@.input.len(),
            all_scorable(old(self)@.all),
            word_count(old(self)@.input) <= MAX_QUERY_WORDS,
        ensures
            refiltered(old(self)@, old(self)@.input, old(self)@.cursor, final(self)@),
    {
        let query = string_from(&self.input);
        let filtered = self.matcher.filter(self.all_items.as_slice(), query.as_str());
        assert(filter_consistent(self.input@, self.all_items@, filtered@));
        self.filtered_items = filtered;
        self.selected = 0;
        self.scroll_offset = 0;
    }

    /// Select the previous item.
    fn select_prev(&mut self)
        requires
            launcher_wf(old(self)@),
        ensures
            final(self)@ == move_up(old(self)@),
    {
        if self.selected > 0 {
            self.selected = self.selected - 1;
            if self.selected < self.scroll_offset {
                self.scroll_offset = self.selected;
            }
        }
    }

    /// Select the next item.
    fn select_next(&mut self)
        requires
            launcher_wf(old(self)@),
        ensures
            final(self)@ == move_down(old(self)@),
    {
        let len = self.filtered_items.len();
        if len > 0 && self.selected < len - 1 {
            self.selected = self.selected + 1;
            if self.selected - self.scroll_offset >= self.max_visible {
                self.scroll_offset = self.selected - self.max_visible + 1;
            }
        }
    }

    /// Handle a key press; the result says whether the selected item is to
    /// be activated (Return).
    pub fn handle_key(&mut self, key: Key) -> (activate: bool)
        requires
            old(self).wf(),
            key_accepted(old(self)@, key),
        ensures
            final(self).wf(),
            key_step(old(self)@, key, final(self)@),
            activate == (key is Return),
    {
        let ghost k = key;
        match key {
            Key::Escape => {
                self.should_quit = true;
                false
            },
            Key::Return => true,
            Key::Up => {
                self.select_prev();
                proof {
                    lemma_moves_keep_wf(old(self)@, 0);
                }
                false
            },
            Key::Down => {
                self.select_next();
                proof {
                    lemma_moves_keep_wf(old(self)@, 0);
                }
                false
            },
            Key::PageUp => {
                let mut i: usize = 0;
                while i < self.max_visible
                    invariant
                        i <= self.max_visible,
                        self.max_visible == old(self).max_visible,
                        launcher_wf(old(self)@),
                        self@ == move_up_n(old(self)@, i as nat),
                    decreases self.max_visible - i,
                {
                    proof {
                        lemma_moves_keep_wf(old(self)@, i as nat);
                    }
                    self.select_prev();
                    i = i + 1;
                }
                proof {
                    lemma_moves_keep_wf(old(self)@, i as nat);
                }
                false
            },
            Key::PageDown => {
                let mut i: usize = 0;
                while i < self.max_visible
                    invariant
                        i <= self.max_visible,
                        self.max_visible == old(self).max_visible,
                        launcher_wf(old(self)@),
                        self@ == move_down_n(old(self)@, i as nat),
                    decreases self.max_visible - i,
                {
                    proof {
                        lemma_moves_keep_wf(old(self)@, i as nat);
                    }
                    self.select_next();
                    i = i + 1;
                }
                proof {
                    lemma_moves_keep_wf(old(self)@, i as nat);
                }
                false
            },
            Key::Home => {
                self.cursor = 0;
                false
            },
            Key::End => {
                self.cursor = self.input.len();
                false
            },
            Key::Left => {
                if self.cursor > 0 {
                    self.cursor = self.cursor - 1;
                }
                false
            },
            Key::Right => {
                if self.cursor < self.input.len() {
                    self.cursor = self.cursor + 1;
                }
                false
            },
            Key::Backspace => {
                if self.cursor > 0 {
                    proof {
                        lemma_words_remove(self.input@, self.cursor - 1, true);
                    }
                    self.input.remove(self.cursor - 1);
                    self.cursor = self.cursor - 1;
                    self.filter_items();
                }
                false
            },
            Key::Delete => {
                if self.cursor < self.input.len() {
                    proof {
                        lemma_words_remove(self.input@, self.cursor as int, true);
                    }
                    self.input.remove(self.cursor);
                    self.filter_items();
                }
                false
            },
            Key::Char(c) => {
                self.input.insert(self.cursor, c);
                self.cursor = self.cursor + 1;
                self.filter_items();
                false
            },
            Key::Space => {
                self.input.insert(self.cursor, ' ');
                self.cursor = self.cursor + 1;
                self.filter_items();
                false
            },
            _ => false,
        }
    }

    /// Handle a window-system event.
    pub fn handle_event(&mut self, ev: InputEvent) -> (r: EventOutcome)
        requires
            old(self).wf(),
            ev matches InputEvent::Key { key, .. } ==> key_accepted(old(self)@, key),
        ensures
            final(self).wf(),
            event_step(old(self)@, ev, final(self)@),
            r.redraw == event_redraws(ev),
            r.activate == event_activates(ev),
    {
        match ev {
            InputEvent::Key { key, pressed } => {
                if pressed {
                    let activate = self.handle_key(key);
                    EventOutcome { redraw: true, activate }
                } else {
                    EventOutcome { redraw: false, activate: false }
                }
            },
            InputEvent::Expose => EventOutcome { redraw: true, activate: false },
            InputEvent::CloseRequested => {
                self.should_quit = true;
                EventOutcome { redraw: false, activate: false }
            },
            InputEvent::FocusIn => {
                self.has_focus = true;
                EventOutcome { redraw: false, activate: false }
            },
            InputEvent::FocusOut => {
                if self.has_focus {
                    self.should_quit = true;
                }
                EventOutcome { redraw: false, activate: false }
            },
            InputEvent::Other => EventOutcome { redraw: false, activate: false },
        }
    }

    /// The selected item, if the filtered list is not empty.
    pub fn current_item(&self) -> (r: Option<Item>)
        requires
            self.wf(),
        ensures
            match r {
                Some(item) => self@.filtered.len() > 0 && item == self@.filtered[self@.selected],
                None => self@.filtered.len() == 0,
            },
    {
        if self.selected < self.filtered_items.len() {
            Some(self.filtered_items[self.selected].duplicate())
        } else {
            None
        }
    }

    /// Apply what activating the selected item led to; the result names the
    /// mode to switch to, if the action asks for one.
    pub fn apply_action(&mut self, action: Action) -> (switch_to: Option<String>)
        requires
            old(self).wf(),
        ensures
            final(self).wf(),
            action_step(old(self)@, action@, final(self)@),
            match action@ {
                ActionView::SwitchMode(m) => switch_to matches Some(name) && name@ == m,
                _ => switch_to is None,
            },
    {
        match action {
            Action::Close => {
                self.should_quit = true;
                None
            },
            Action::SwitchMode(name) => Some(name),
            Action::Launch(cmd) => {
                self.result = Some(Action::Launch(cmd));
                self.should_quit = true;
                None
            },
            Action::Custom(data) => {
                self.result = Some(Action::Custom(data));
                self.should_quit = true;
                None
            },
        }
    }

    /// Replace the items by those of another mode: the query is cleared and
    /// the full list shown from the top. Every name and description must be
    /// one that nucleo can match against ([`all_scorable`]).
    pub fn switch_items(&mut self, items: Vec<Item>)
        requires
            old(self).wf(),
            all_scorable(items@),
        ensures
            final(self).wf(),
            final(self)@ == (LauncherView {
                input: Seq::empty(),
                cursor: 0,
                all: items@,
                filtered: items@,
                selected: 0,
                scroll: 0,
                ..old(self)@
            }),
    {
        self.all_items = items;
        self.input = Vec::new();
        self.cursor = 0;
        self.filter_items();
    }

    /// The items in the scroll window, and the position of the selected item
    /// among them.
    pub fn visible_items(&self) -> (r: (Vec<Item>, usize))
        requires
            self.wf(),
        ensures
            r.0@ == self@.filtered.subrange(
                self@.scroll,
                if self@.scroll + self@.max_visible < self@.filtered.len() {
                    self@.scroll + self@.max_visible
                } else if self@.scroll < self@.filtered.len() {
                    self@.filtered.len() as int
                } else {
                    self@.scroll
                },
            ),
            r.1 == self@.selected - self@.scroll,
            self@.filtered.len() > 0 ==> r.1 < r.0@.len() && r.0@[r.1 as int]
                == self@.filtered[self@.selected],
    {
        let len = self.filtered_items.len();
        let start = self.scroll_offset;
        let end = if self.max_visible < len && start < len - self.max_visible {
            start + self.max_visible
        } else if start < len {
            len
        } else {
            start
        };
        let mut order: Vec<usize> = Vec::new();
        let mut i: usize = start;
        while i < end
            invariant
                start <= i <= end,
                end <= len || end == start,
                len == self.filtered_items@.len(),
                order@.len() == i - start,
                forall|t: int| 0 <= t < order@.len() ==> #[trigger] order@[t] == start + t,
            decreases end - i,
        {
            order.push(i);
            i = i + 1;
        }
        let visible = pick(self.filtered_items.as_slice(), order.as_slice());
        assert(visible@ =~= self@.filtered.subrange(start as int, end as int));
        (visible, self.selected - self.scroll_offset)
    }

    /// Take the action chosen, if any.
    pub fn take_result(&mut self) -> (r: Option<Action>)
        requires
            old(self).wf(),
        ensures
            final(self).wf(),
            opt_action_view(r) == old(self)@.result,
            final(self)@ == (LauncherView { result: None, ..old(self)@ }),
    {
        self.result.take()
    }

    /// Whether the query can take `c` at the cursor, as [`accepts`] states;
    /// a caller tests this before handing a typed character on.
    pub fn accepts_char(&self, c: char) -> (r: bool)
        requires
            self.wf(),
        ensures
            r == accepts(self@, c),
    {
        if self.input.len() >= usize::MAX - 1 {
            return false;
        }
        let mut v: Vec<char> = Vec::new();
        let mut i: usize = 0;
        while i < self.input.len()
            invariant
                i <= self.input@.len(),
                self.cursor <= self.input@.len(),
                self.input@.len() < usize::MAX - 1,
                v@ == (if i <= self.cursor { self.input@.take(i as int) } else {
                    self.input@.take(i as int).insert(self.cursor as int, c)
                }),
            decreases self.input@.len() - i,
        {
            if i == self.cursor {
                v.push(c);
            }
            v.push(self.input[i]);
            i = i + 1;
            assert(v@ =~= (if i <= self.cursor { self.input@.take(i as int) } else {
                self.input@.take(i as int).insert(self.cursor as int, c)
            }));
        }
        if i == self.cursor {
            v.push(c);
        }
        assert(self.input@.take(i as int) =~= self.input@);
        assert(v@ =~= self.input@.insert(self.cursor as int, c));
        count_words(v.as_slice()) <= MAX_QUERY_WORDS
    }

    /// The text typed so far.
    pub fn input_text(&self) -> (r: String)
        ensures
            r@ == self@.input,
    {
        string_from(&self.input)
    }

    /// The cursor position in the typed text, in characters.
    pub fn cursor(&self) -> (r: usize)
        ensures
            r == self@.cursor,
    {
        self.cursor
    }

    /// The number of items that match the query.
    pub fn match_count(&self) -> (r: usize)
        ensures
            r == self@.filtered.len(),
    {
        self.filtered_items.len()
    }

    /// Whether the launcher is to close.
    pub fn should_quit(&self) -> (r: bool)
        ensures
            r == self@.should_quit,
    {
        self.should_quit
    }
}

} // verus!
