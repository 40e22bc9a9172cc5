//! Button handling: edge detection on the two push buttons, and page
//! navigation.

use vstd::prelude::*;
use crate::ui::{spec_next, spec_prev, Page};

verus! {

/// What a poll of the buttons or a key press asks for (`Idle`: nothing).
#[derive(Clone, Copy, Debug, PartialEq, Eq, Structural)]
pub enum ButtonEvent {
    Idle,
    Prev,
    Next,
}

/// The event for the levels `a` and `b` of buttons A and B after the levels
/// `prev_a` and `prev_b`: a button fires when its line falls from high to
/// low (the buttons are active-low); button A (previous page) wins when both
/// fall at once.
pub open spec fn edge_event(prev_a: bool, prev_b: bool, a: bool, b: bool) -> ButtonEvent {
    if !a && prev_a {
        ButtonEvent::Prev
    } else if !b && prev_b {
        ButtonEvent::Next
    } else {
        ButtonEvent::Idle
    }
}

/// A press fires once: a button held down gives no further event, since
/// polling the levels just seen again reports nothing.
pub proof fn lemma_held_button_is_quiet(a: bool, b: bool)
    ensures
        edge_event(a, b, a, b) == ButtonEvent::Idle,
{
}

/// Events come only from falling edges: `Prev` only when line A went from
/// high to low, `Next` only when line B did and line A did not fall.
pub proof fn lemma_events_are_falling_edges(prev_a: bool, prev_b: bool, a: bool, b: bool)
    ensures
        edge_event(prev_a, prev_b, a, b) == ButtonEvent::Prev <==> (prev_a && !a),
        edge_event(prev_a, prev_b, a, b) == ButtonEvent::Next <==> (!(prev_a && !a) && prev_b
            && !b),
{
}

/// The event of poll `j` in a run of polls that read the levels `levels`,
/// starting from a reader that last saw `start`.
pub open spec fn poll_event_at(start: (bool, bool), levels: Seq<(bool, bool)>, j: int) -> ButtonEvent {
    let prev = if j == 0 { start } else { levels[j - 1] };
    edge_event(prev.0, prev.1, levels[j].0, levels[j].1)
}

/// Pressing and holding button A gives exactly one `Prev`: over polls whose
/// first reads line A high and whose later ones read it low, only the second
/// poll reports `Prev`.
pub proof fn lemma_held_press_fires_once(start: (bool, bool), levels: Seq<(bool, bool)>)
    requires
        levels.len() >= 2,
        levels[0].0,
        forall|j: int| 1 <= j < levels.len() ==> !(#[trigger] levels[j]).0,
    ensures
        forall|j: int|
            0 <= j < levels.len() ==> (poll_event_at(start, levels, j) == ButtonEvent::Prev <==> j
                == 1),
{
    assert forall|j: int| 0 <= j < levels.len() implies (poll_event_at(start, levels, j)
        == ButtonEvent::Prev <==> j == 1) by {
        if j >= 2 {
            assert(!levels[j - 1].0);
        }
    }
}

/// Releasing button A never reports `Prev`; with line B steady it reports
/// nothing at all.
pub proof fn lemma_release_is_quiet(prev_b: bool, b: bool)
    ensures
        edge_event(false, prev_b, true, b) != ButtonEvent::Prev,
        prev_b == b ==> edge_event(false, prev_b, true, b) == ButtonEvent::Idle,
{
}

/// When both buttons go down at once, A wins, and B's press is lost: no
/// later poll reports `Next` while line B stays low.
pub proof fn lemma_both_pressed_reports_prev(levels: Seq<(bool, bool)>)
    requires
        levels.len() >= 1,
        levels[0] == (false, false),
        forall|j: int| 0 <= j < levels.len() ==> !(#[trigger] levels[j]).1,
    ensures
        poll_event_at((true, true), levels, 0) == ButtonEvent::Prev,
        forall|j: int|
            0 <= j < levels.len() ==> poll_event_at((true, true), levels, j) != ButtonEvent::Next,
{
    assert forall|j: int| 0 <= j < levels.len() implies poll_event_at((true, true), levels, j)
        != ButtonEvent::Next by {
        if j >= 1 {
            assert(!levels[j - 1].1);
        }
    }
}

/// Edge detector for the two buttons: remembers the line levels seen last.
pub struct ButtonReader {
    prev_a: bool,
    prev_b: bool,
}

impl View for ButtonReader {
    type V = (bool, bool);

    /// The levels of lines A and B seen last.
    closed spec fn view(&self) -> (bool, bool) {
        (self.prev_a, self.prev_b)
    }
}

impl ButtonReader {
    /// Starts from the current line levels, so that a button held down at
    /// start-up gives no press.
    pub fn new(a_high: bool, b_high: bool) -> (r: ButtonReader)
        ensures
            r@ == (a_high, b_high),
    {
        ButtonReader { prev_a: a_high, prev_b: b_high }
    }

    /// Takes the current levels of lines A and B and reports a press on a
    /// falling edge.
    pub fn poll(&mut self, a_high: bool, b_high: bool) -> (e: ButtonEvent)
        ensures
            e == edge_event(old(self)@.0, old(self)@.1, a_high, b_high),
            final(self)@ == (a_high, b_high),
    {
        let event = if !a_high && self.prev_a {
            ButtonEvent::Prev
        } else if !b_high && self.prev_b {
            ButtonEvent::Next
        } else {
            ButtonEvent::Idle
        };
        self.prev_a = a_high;
        self.prev_b = b_high;
        event
    }
}

/// The keys of the simulator window that navigate.
#[derive(Clone, Copy, Debug, PartialEq, Eq, Structural)]
pub enum NavKey {
    Right,
    Left,
    D,
    A,
    Other,
}

/// Right arrow and D go forward, left arrow and A go back.
pub open spec fn key_event_spec(k: NavKey) -> ButtonEvent {
    match k {
        NavKey::Right | NavKey::D => ButtonEvent::Next,
        NavKey::Left | NavKey::A => ButtonEvent::Prev,
        NavKey::Other => ButtonEvent::Idle,
    }
}

/// The navigation event of a key press.
pub fn key_event(k: NavKey) -> (e: ButtonEvent)
    ensures
        e == key_event_spec(k),
{
    match k {
        NavKey::Right | NavKey::D => ButtonEvent::Next,
        NavKey::Left | NavKey::A => ButtonEvent::Prev,
        NavKey::Other => ButtonEvent::Idle,
    }
}

/// The page shown after event `e` on page `p`.
pub open spec fn page_after(p: Page, e: ButtonEvent) -> Page {
    match e {
        ButtonEvent::Next => spec_next(p),
        ButtonEvent::Prev => spec_prev(p),
        ButtonEvent::Idle => p,
    }
}

/// `Next` followed by `Prev`, or `Prev` followed by `Next`, leaves the page
/// unchanged; `Idle` never changes it.
pub proof fn lemma_events_undo(p: Page)
    ensures
        page_after(page_after(p, ButtonEvent::Next), ButtonEvent::Prev) == p,
        page_after(page_after(p, ButtonEvent::Prev), ButtonEvent::Next) == p,
        page_after(p, ButtonEvent::Idle) == p,
{
}

/// The page after the key presses `keys`, in order, starting on `p`.
pub open spec fn page_after_keys(p: Page, keys: Seq<NavKey>) -> Page
    decreases keys.len(),
{
    if keys.len() == 0 {
        p
    } else {
        page_after(page_after_keys(p, keys.drop_last()), key_event_spec(keys.last()))
    }
}

/// Number of navigating keys (all but `Other`) in `keys`.
pub open spec fn nav_count(keys: Seq<NavKey>) -> nat
    decreases keys.len(),
{
    if keys.len() == 0 {
        0
    } else {
        nav_count(keys.drop_last()) + if keys.last() == NavKey::Other { 0nat } else { 1nat }
    }
}

/// With two pages, every navigating key flips the page: after a batch of
/// keys the page has changed exactly when an odd number of them navigate.
pub proof fn lemma_keys_flip_pages(p: Page, keys: Seq<NavKey>)
    ensures
        page_after_keys(p, keys) == (if nav_count(keys) % 2 == 1 { spec_next(p) } else { p }),
    decreases keys.len(),
{
    if keys.len() > 0 {
        lemma_keys_flip_pages(p, keys.drop_last());
    }
}

/// Applies the key presses `keys`, in order, to page `p`.
pub fn apply_keys(p: Page, keys: &Vec<NavKey>) -> (q: Page)
    ensures
        q == page_after_keys(p, keys@),
{
    let mut q = p;
    let mut i: usize = 0;
    while i < keys.len()
        invariant
            i <= keys.len(),
            q == page_after_keys(p, keys@.subrange(0, i as int)),
        decreases keys.len() - i,
    {
        q = apply_event(q, key_event(keys[i]));
        proof {
            assert(keys@.subrange(0, i + 1).drop_last() =~= keys@.subrange(0, i as int));
        }
        i = i + 1;
    }
    assert(keys@.subrange(0, keys.len() as int) =~= keys@);
    q
}

/// Moves to the page that event `e` asks for.
pub fn apply_event(p: Page, e: ButtonEvent) -> (q: Page)
    ensures
        q == page_after(p, e),
{
    match e {
        ButtonEvent::Next => p.next(),
        ButtonEvent::Prev => p.prev(),
        ButtonEvent::Idle => p,
    }
}

} // verus!
