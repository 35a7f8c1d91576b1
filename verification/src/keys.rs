//! Key handling: from the scans of the matrix to key events.
use vstd::prelude::*;

use crate::board::Board;
use crate::serde::Event;
use keyberon::debounce::Debouncer;

verus! {

/// Keyboard matrix rows
pub const ROWS: usize = 4;

/// Keyboard matrix columns
pub const COLS: usize = 5;

/// Full number of columns
pub const FULL_COLS: usize = 10;

/// Keyboard matrix refresh rate, in Hz
pub const REFRESH_RATE: u16 = 1000;

/// Keyboard matrix debouncing time, in ms
pub const DEBOUNCE_TIME_MS: u16 = 5;

/// Keyboard bounce number: the scans within the debouncing time
pub const NB_BOUNCE: u16 = 5;

/// An event on the key matrix, with its row and column
#[derive(Debug, Clone, Copy, PartialEq, Eq, Structural)]
pub enum KeyEvent {
    /// The key is pressed
    Press(u8, u8),
    /// The key is released
    Release(u8, u8),
}

impl KeyEvent {
    /// The row and the column of the key.
    pub open spec fn coord(self) -> (u8, u8) {
        match self {
            KeyEvent::Press(r, c) => (r, c),
            KeyEvent::Release(r, c) => (r, c),
        }
    }

    /// The same event on another key.
    pub open spec fn moved_to(self, coord: (u8, u8)) -> KeyEvent {
        match self {
            KeyEvent::Press(_, _) => KeyEvent::Press(coord.0, coord.1),
            KeyEvent::Release(_, _) => KeyEvent::Release(coord.0, coord.1),
        }
    }
}

/// Keyboard matrix state: whether the keys are pressed, by row and column
pub type MatrixState = [[bool; 5]; 4];

/// Create a new keyboard matrix state
pub fn matrix_state_new() -> (state: MatrixState)
    ensures
        keys_of(state) == no_keys(),
{
    let state = [[false; 5]; 4];
    assert forall|r: int| 0 <= r < 4 implies keys_of(state)[r] =~= no_keys()[r] by {}
    assert(keys_of(state) =~= no_keys());
    state
}

/// The rows of a matrix state.
pub open spec fn keys_of(state: MatrixState) -> Seq<Seq<bool>> {
    Seq::new(4, |r: int| state@[r]@)
}

/// No key is pressed.
pub open spec fn no_keys() -> Seq<Seq<bool>> {
    Seq::new(4, |r: int| Seq::new(5, |c: int| false))
}

/// The events on the first `n` keys, row by row, that lead from one matrix state to
/// another.
pub open spec fn changes_upto(before: Seq<Seq<bool>>, after: Seq<Seq<bool>>, n: int) -> Seq<
    KeyEvent,
>
    decreases n,
{
    if n <= 0 {
        Seq::empty()
    } else {
        let (r, c) = ((n - 1) / 5, (n - 1) % 5);
        let rest = changes_upto(before, after, n - 1);
        if !before[r][c] && after[r][c] {
            rest.push(KeyEvent::Press(r as u8, c as u8))
        } else if before[r][c] && !after[r][c] {
            rest.push(KeyEvent::Release(r as u8, c as u8))
        } else {
            rest
        }
    }
}

/// The events that lead from one matrix state to another.
pub open spec fn changes(before: Seq<Seq<bool>>, after: Seq<Seq<bool>>) -> Seq<KeyEvent> {
    changes_upto(before, after, 20)
}

/// What a debouncer knows.
pub struct DebounceState {
    /// The state of the keys that has been accepted
    pub cur: Seq<Seq<bool>>,
    /// The state that may come next
    pub new: Seq<Seq<bool>>,
    /// The number of scans in a row that have seen it
    pub since: int,
    /// The number of scans that a state has to outlast
    pub nb_bounce: int,
}

/// Whether a scan makes the debouncer accept it.
pub open spec fn debounce_accepts(s: DebounceState, scan: Seq<Seq<bool>>) -> bool {
    s.cur != scan && (if s.new == scan {
        s.since + 1
    } else {
        1
    }) > s.nb_bounce
}

/// What a debouncer knows after a scan.
pub open spec fn debounce_step(s: DebounceState, scan: Seq<Seq<bool>>) -> DebounceState {
    if s.cur == scan {
        DebounceState { since: 0, ..s }
    } else if debounce_accepts(s, scan) {
        DebounceState { cur: scan, new: s.cur, since: 0, ..s }
    } else if s.new == scan {
        DebounceState { since: s.since + 1, ..s }
    } else {
        DebounceState { new: scan, since: 1, ..s }
    }
}

/// The debouncer of `keyberon`.
#[verifier::external_type_specification]
#[verifier::external_body]
#[verifier::reject_recursive_types(T)]
pub struct ExDebouncer<T>(keyberon::debounce::Debouncer<T>);

/// What a debouncer of the key matrix knows.
pub uninterp spec fn debouncer_state(debouncer: Debouncer<[[bool; 5]; 4]>) -> DebounceState;

/// Calls `keyberon::debounce::Debouncer::new`. Claimed: the debouncer has the given states
/// and bounce number, and has counted no scan.
#[verifier::external_body]
pub(crate) fn debouncer_new(cur: MatrixState, new: MatrixState, nb_bounce: u16) -> (debouncer:
    Debouncer<[[bool; 5]; 4]>)
    ensures
        debouncer_state(debouncer) == (DebounceState {
            cur: keys_of(cur),
            new: keys_of(new),
            since: 0,
            nb_bounce: nb_bounce as int,
        }),
{
    Debouncer::new(cur, new, nb_bounce)
}

/// Calls `keyberon::debounce::Debouncer::events`. Claimed: a scan that differs from the
/// accepted state is accepted once it has been seen more often in a row than the bounce
/// number says; then the events lead from the state before to it, row by row, and there are
/// none otherwise.
#[verifier::external_body]
pub(crate) fn debouncer_events(
    debouncer: &mut Debouncer<[[bool; 5]; 4]>,
    scan: MatrixState,
) -> (events: Vec<KeyEvent>)
    requires
        debouncer_state(*old(debouncer)).since < u16::MAX,
    ensures
        debouncer_state(*final(debouncer)) == debounce_step(
            debouncer_state(*old(debouncer)),
            keys_of(scan),
        ),
        events@ == if debounce_accepts(debouncer_state(*old(debouncer)), keys_of(scan)) {
            changes(debouncer_state(*old(debouncer)).cur, keys_of(scan))
        } else {
            Seq::empty()
        },
{
    debouncer.events(scan).map(|e| match e {
        keyberon::layout::Event::Press(r, c) => KeyEvent::Press(r, c),
        keyberon::layout::Event::Release(r, c) => KeyEvent::Release(r, c),
    }).collect()
}

/// Where the key at a row and column of a half is on the whole keyboard, if there is one.
/// The right half counts its columns from the outside.
pub open spec fn wired_key(board: Board, is_right: bool, r: u8, c: u8) -> Option<(u8, u8)> {
    if r == 3 {
        match (board, is_right) {
            (Board::Cnano, true) => if c == 0 {
                Some((3, 5))
            } else if c == 2 {
                Some((3, 6))
            } else {
                None
            },
            (Board::Dilemma, true) => if c == 0 {
                Some((3, 6))
            } else if c == 1 {
                Some((3, 5))
            } else {
                None
            },
            (Board::Cnano, false) => if c == 0 {
                Some((3, 4))
            } else if c == 2 {
                Some((3, 2))
            } else if c == 3 {
                Some((3, 3))
            } else {
                None
            },
            (Board::Dilemma, false) => if c == 0 {
                Some((3, 3))
            } else if c == 1 {
                Some((3, 4))
            } else if c == 2 {
                Some((3, 2))
            } else {
                None
            },
        }
    } else if r < 3 && c < 5 {
        if is_right {
            Some((r, (9 - c) as u8))
        } else {
            Some((r, c))
        }
    } else {
        None
    }
}

/// Where the key at a row and column of a half is on the whole keyboard, if there is one
pub fn place_of_key(board: Board, is_right: bool, r: u8, c: u8) -> (place: Option<(u8, u8)>)
    ensures
        place == wired_key(board, is_right, r, c),
{
    if r > 3 || c > 4 {
        return None;
    }
    if r < 3 {
        return if is_right {
            Some((r, 9 - c))
        } else {
            Some((r, c))
        };
    }
    if is_right {
        match (board, c) {
            (Board::Cnano, 0) => Some((3, 5)),
            (Board::Dilemma, 0) => Some((3, 6)),
            (Board::Dilemma, 1) => Some((3, 5)),
            (Board::Cnano, 2) => Some((3, 6)),
            _ => None,
        }
    } else {
        match (board, c) {
            (Board::Cnano, 0) => Some((3, 4)),
            (Board::Dilemma, 0) => Some((3, 3)),
            (Board::Dilemma, 1) => Some((3, 4)),
            (_, 2) => Some((3, 2)),
            (Board::Cnano, 3) => Some((3, 3)),
            _ => None,
        }
    }
}

/// Different keys of a half are at different places, on the side of the half, and all of
/// them can be told to the other half.
pub proof fn law_keys_have_their_own_place(
    board: Board,
    is_right: bool,
    r: u8,
    c: u8,
    other_r: u8,
    other_c: u8,
)
    requires
        wired_key(board, is_right, r, c) is Some,
        wired_key(board, is_right, other_r, other_c) is Some,
    ensures
        wired_key(board, is_right, r, c) == wired_key(board, is_right, other_r, other_c) ==> r
            == other_r && c == other_c,
        wired_key(board, is_right, r, c) matches Some((i, j)) && crate::rgb_anims::key_on_side(
            is_right,
            i,
            j,
        ) && crate::serde::key_in_range(i, j),
{
}

/// Every key has a led, but for the two inner thumb keys on the left of a Charybdis Nano.
pub proof fn law_keys_have_leds(board: Board, is_right: bool, r: u8, c: u8)
    requires
        wired_key(board, is_right, r, c) is Some,
        !(board == Board::Cnano && !is_right && r == 3 && c != 2),
    ensures
        wired_key(board, is_right, r, c) matches Some((i, j)) && crate::rgb_anims::key_has_led(
            board,
            is_right,
            i,
            j,
        ),
{
}

/// What a key event leads to
#[derive(Debug, Clone, Copy, PartialEq, Eq, Structural)]
pub enum KeyAction {
    /// Tell the keymap
    Layout(KeyEvent),
    /// Tell the other half
    Side(Event),
}

/// Where an event goes: to the keymap of the half that is connected to the host.
pub open spec fn route(event: KeyEvent, is_host: bool) -> KeyAction {
    if is_host {
        KeyAction::Layout(event)
    } else {
        match event {
            KeyEvent::Press(r, c) => KeyAction::Side(Event::Press(r, c)),
            KeyEvent::Release(r, c) => KeyAction::Side(Event::Release(r, c)),
        }
    }
}

/// Where an event goes
pub fn route_event(event: KeyEvent, is_host: bool) -> (action: KeyAction)
    ensures
        action == route(event, is_host),
{
    if is_host {
        KeyAction::Layout(event)
    } else {
        match event {
            KeyEvent::Press(r, c) => KeyAction::Side(Event::Press(r, c)),
            KeyEvent::Release(r, c) => KeyAction::Side(Event::Release(r, c)),
        }
    }
}

/// Whether there is a key for each of the events of a half.
pub open spec fn all_wired(board: Board, is_right: bool, events: Seq<KeyEvent>) -> bool {
    forall|k: int|
        0 <= k < events.len() ==> wired_key(
            board,
            is_right,
            (#[trigger] events[k]).coord().0,
            events[k].coord().1,
        ) is Some
}

/// What the events of a half lead to.
pub open spec fn routed(board: Board, is_right: bool, is_host: bool, events: Seq<KeyEvent>) -> Seq<
    KeyAction,
> {
    events.map_values(
        |event: KeyEvent|
            route(
                event.moved_to(
                    wired_key(board, is_right, event.coord().0, event.coord().1)->0,
                ),
                is_host,
            ),
    )
}

/// The keys that stand for the turns of the encoder.
pub open spec fn encoder_taps(last_a: bool, a: bool, b: bool) -> Seq<KeyEvent> {
    if a == last_a {
        Seq::empty()
    } else if b != a {
        crate::hid::tap(3, 8)
    } else {
        crate::hid::tap(3, 9)
    }
}

/// State of the loop that scans the keyboard matrix of a half
pub struct MatrixScanner {
    pub board: Board,
    pub is_right: bool,
    pub debouncer: Debouncer<[[bool; 5]; 4]>,
    /// Last level of the first pin of the encoder
    pub last_pin_a: bool,
}

impl MatrixScanner {
    /// The debouncer counts no further than the bounce number.
    pub open spec fn wf(self) -> bool {
        let s = debouncer_state(self.debouncer);
        &&& s.nb_bounce == NB_BOUNCE
        &&& 0 <= s.since <= NB_BOUNCE
    }

    /// The events that a scan brings.
    pub open spec fn scan_events(self, scan: MatrixState) -> Seq<KeyEvent> {
        let s = debouncer_state(self.debouncer);
        if debounce_accepts(s, keys_of(scan)) {
            changes(s.cur, keys_of(scan))
        } else {
            Seq::empty()
        }
    }

    /// The events that the encoder brings. It is on the right half of a Dilemma, and is
    /// read when that half is connected to the host.
    pub open spec fn encoder_events(self, is_host: bool, encoder: Option<(bool, bool)>) -> Seq<
        KeyEvent,
    > {
        match encoder {
            Some((a, b)) if self.board == Board::Dilemma && self.is_right && is_host =>
                encoder_taps(self.last_pin_a, a, b),
            _ => Seq::empty(),
        }
    }

    /// Create the state: no key is pressed, and the encoder, if there is one, is at the
    /// given level
    pub fn new(board: Board, is_right: bool, pin_a: bool) -> (scanner: Self)
        ensures
            scanner.wf(),
            scanner.board == board,
            scanner.is_right == is_right,
            scanner.last_pin_a == pin_a,
            debouncer_state(scanner.debouncer) == (DebounceState {
                cur: no_keys(),
                new: no_keys(),
                since: 0,
                nb_bounce: NB_BOUNCE as int,
            }),
    {
        MatrixScanner {
            board,
            is_right,
            debouncer: debouncer_new(matrix_state_new(), matrix_state_new(), NB_BOUNCE),
            last_pin_a: pin_a,
        }
    }

    /// A scan of the matrix: returns the events that it brings
    pub fn debounce(&mut self, scan: MatrixState) -> (events: Vec<KeyEvent>)
        requires
            old(self).wf(),
        ensures
            final(self).wf(),
            events@ == old(self).scan_events(scan),
            debouncer_state(final(self).debouncer) == debounce_step(
                debouncer_state(old(self).debouncer),
                keys_of(scan),
            ),
            final(self).board == old(self).board,
            final(self).is_right == old(self).is_right,
            final(self).last_pin_a == old(self).last_pin_a,
    {
        debouncer_events(&mut self.debouncer, scan)
    }

    /// The levels of the pins of the encoder: returns the events that they bring
    pub fn on_encoder(&mut self, is_host: bool, encoder: Option<(bool, bool)>) -> (events: Vec<
        KeyEvent,
    >)
        ensures
            events@ == old(self).encoder_events(is_host, encoder),
            final(self).last_pin_a == match encoder {
                Some((a, _)) if old(self).board == Board::Dilemma && old(self).is_right
                    && is_host => a,
                _ => old(self).last_pin_a,
            },
            final(self).board == old(self).board,
            final(self).is_right == old(self).is_right,
            final(self).debouncer == old(self).debouncer,
    {
        let mut events: Vec<KeyEvent> = Vec::new();
        if let Some((current_a, current_b)) = encoder {
            let has_encoder = match self.board {
                Board::Dilemma => true,
                Board::Cnano => false,
            };
            if has_encoder && self.is_right && is_host {
                // Check for a transition on pin A
                if current_a != self.last_pin_a {
                    let col: u8 = if current_b != current_a {
                        8
                    } else {
                        9
                    };
                    events.push(KeyEvent::Press(3, col));
                    events.push(KeyEvent::Release(3, col));
                    self.last_pin_a = current_a;
                }
            }
        }
        assert(events@ =~= old(self).encoder_events(is_host, encoder));
        events
    }

    /// Whether there is a key for each of the events of a scan
    pub fn all_keys_wired(&self, events: &Vec<KeyEvent>) -> (b: bool)
        ensures
            b == all_wired(self.board, self.is_right, events@),
    {
        let mut k: usize = 0;
        while k < events.len()
            invariant
                k <= events@.len(),
                all_wired(self.board, self.is_right, events@.take(k as int)),
            decreases events@.len() - k,
        {
            let (r, c): (u8, u8) = match events[k] {
                KeyEvent::Press(r, c) => (r, c),
                KeyEvent::Release(r, c) => (r, c),
            };
            if place_of_key(self.board, self.is_right, r, c).is_none() {
                assert(events@[k as int].coord() == (r, c));
                return false;
            }
            assert(events@.take(k + 1) =~= events@.take(k as int).push(events@[k as int]));
            k = k + 1;
        }
        assert(events@.take(k as int) =~= events@);
        true
    }

    /// Where the events of a scan go
    pub fn route_events(&self, events: &Vec<KeyEvent>, is_host: bool) -> (actions: Vec<KeyAction>)
        requires
            all_wired(self.board, self.is_right, events@),
        ensures
            actions@ == routed(self.board, self.is_right, is_host, events@),
    {
        let mut actions: Vec<KeyAction> = Vec::new();
        let mut k: usize = 0;
        while k < events.len()
            invariant
                k <= events@.len(),
                all_wired(self.board, self.is_right, events@),
                actions@ == routed(self.board, self.is_right, is_host, events@.take(k as int)),
            decreases events@.len() - k,
        {
            let event = events[k];
            let (r, c): (u8, u8) = match event {
                KeyEvent::Press(r, c) => (r, c),
                KeyEvent::Release(r, c) => (r, c),
            };
            let place = place_of_key(self.board, self.is_right, r, c);
            if let Some((i, j)) = place {
                let moved = match event {
                    KeyEvent::Press(_, _) => KeyEvent::Press(i, j),
                    KeyEvent::Release(_, _) => KeyEvent::Release(i, j),
                };
                actions.push(route_event(moved, is_host));
            }
            assert(events@.take(k + 1) =~= events@.take(k as int).push(event));
            k = k + 1;
            assert(actions@ =~= routed(self.board, self.is_right, is_host, events@.take(k as int)));
        }
        assert(events@.take(k as int) =~= events@);
        actions
    }

    /// One turn of the loop: a scan of the matrix and the levels of the pins of the encoder,
    /// if there is one
    /// Returns what they lead to, or `None` if a key changed that is not wired
    pub fn step(&mut self, scan: MatrixState, is_host: bool, encoder: Option<(bool, bool)>) -> (r:
        Option<Vec<KeyAction>>)
        requires
            old(self).wf(),
        ensures
            final(self).wf(),
            r is Some <==> all_wired(old(self).board, old(self).is_right, old(self).scan_events(scan)),
            r matches Some(actions) ==> actions@ == routed(
                old(self).board,
                old(self).is_right,
                is_host,
                old(self).scan_events(scan),
            ) + old(self).encoder_events(is_host, encoder).map_values(
                |event: KeyEvent| KeyAction::Layout(event),
            ),
            debouncer_state(final(self).debouncer) == debounce_step(
                debouncer_state(old(self).debouncer),
                keys_of(scan),
            ),
            final(self).board == old(self).board,
            final(self).is_right == old(self).is_right,
            final(self).last_pin_a == match encoder {
                Some((a, _)) if r is Some && old(self).board == Board::Dilemma && old(self).is_right
                    && is_host => a,
                _ => old(self).last_pin_a,
            },
    {
        let events = self.debounce(scan);
        if !self.all_keys_wired(&events) {
            return None;
        }
        let mut actions = self.route_events(&events, is_host);
        let taps = self.on_encoder(is_host, encoder);
        let ghost before = actions@;
        let mut n: usize = 0;
        while n < taps.len()
            invariant
                n <= taps@.len(),
                actions@ == before + taps@.take(n as int).map_values(
                    |event: KeyEvent| KeyAction::Layout(event),
                ),
            decreases taps@.len() - n,
        {
            actions.push(KeyAction::Layout(taps[n]));
            n = n + 1;
            assert(actions@ =~= before + taps@.take(n as int).map_values(
                |event: KeyEvent| KeyAction::Layout(event),
            ));
        }
        assert(taps@.take(n as int) =~= taps@);
        Some(actions)
    }
}

/// What a debouncer knows after it has seen the same scan a number of times.
pub open spec fn debounce_many(s: DebounceState, scan: Seq<Seq<bool>>, n: int) -> DebounceState
    decreases n,
{
    if n <= 0 {
        s
    } else {
        debounce_step(debounce_many(s, scan, n - 1), scan)
    }
}

/// A new state of the keys is accepted when it has been seen once more than the bounce
/// number, and not before: what bounces for a shorter time is filtered out.
pub proof fn law_only_stable_keys_are_accepted(s: DebounceState, scan: Seq<Seq<bool>>, n: int)
    requires
        s.cur != scan,
        s.new != scan || s.since == 0,
        0 <= n <= s.nb_bounce,
    ensures
        debounce_accepts(debounce_many(s, scan, n), scan) <==> n == s.nb_bounce,
        debounce_many(s, scan, n).cur == s.cur,
{
    lemma_debounce_counts(s, scan, n);
}

proof fn lemma_debounce_counts(s: DebounceState, scan: Seq<Seq<bool>>, n: int)
    requires
        s.cur != scan,
        s.new != scan || s.since == 0,
        0 <= n <= s.nb_bounce,
    ensures
        debounce_many(s, scan, n).cur == s.cur,
        debounce_many(s, scan, n).nb_bounce == s.nb_bounce,
        n > 0 ==> debounce_many(s, scan, n).new == scan && debounce_many(s, scan, n).since == n,
    decreases n,
{
    if n > 0 {
        lemma_debounce_counts(s, scan, n - 1);
    }
}

/// A key is told to be pressed exactly if it was not before and is now, and to be released
/// exactly if it was and is not any more.
pub proof fn law_events_tell_the_changes(
    before: Seq<Seq<bool>>,
    after: Seq<Seq<bool>>,
    r: u8,
    c: u8,
)
    requires
        r < 4,
        c < 5,
    ensures
        changes(before, after).contains(KeyEvent::Press(r, c)) <==> !before[r as int][c as int]
            && after[r as int][c as int],
        changes(before, after).contains(KeyEvent::Release(r, c)) <==> before[r as int][c as int]
            && !after[r as int][c as int],
{
    lemma_changes_contain(before, after, r, c, 20);
}

proof fn lemma_changes_contain(
    before: Seq<Seq<bool>>,
    after: Seq<Seq<bool>>,
    r: u8,
    c: u8,
    n: int,
)
    requires
        r < 4,
        c < 5,
        0 <= n <= 20,
    ensures
        changes_upto(before, after, n).contains(KeyEvent::Press(r, c)) <==> r * 5 + c < n
            && !before[r as int][c as int] && after[r as int][c as int],
        changes_upto(before, after, n).contains(KeyEvent::Release(r, c)) <==> r * 5 + c < n
            && before[r as int][c as int] && !after[r as int][c as int],
    decreases n,
{
    broadcast use vstd::seq_lib::group_seq_properties;

    if n > 0 {
        lemma_changes_contain(before, after, r, c, n - 1);
        let (x, y) = ((n - 1) / 5, (n - 1) % 5);
        assert(x == r && y == c <==> r * 5 + c == n - 1);
        let rest = changes_upto(before, after, n - 1);
        let all = changes_upto(before, after, n);
        assert(all == rest || all == rest.push(KeyEvent::Press(x as u8, y as u8)) || all
            == rest.push(KeyEvent::Release(x as u8, y as u8)));
    }
}

/// A key of the three main rows keeps its row on both halves. On the left half it keeps its
/// column too; on the right half its column and its place add up to nine.
pub proof fn law_main_keys_keep_their_row(
    board: Board,
    is_right: bool,
    r: u8,
    c: u8,
    place: Option<(u8, u8)>,
)
    requires
        call_ensures(place_of_key, (board, is_right, r, c), place),
        r <= 2,
        c <= 4,
    ensures
        place matches Some((i, j)) && i == r && (is_right ==> j + c == 9) && (!is_right ==> j == c),
{
}

/// The thumb keys are in the last row, next to the middle: three of them on the left half
/// and two on the right one. A row or a column that the matrix does not have has no key.
pub proof fn law_thumb_keys_are_next_to_the_middle(
    board: Board,
    is_right: bool,
    r: u8,
    c: u8,
    place: Option<(u8, u8)>,
)
    requires
        call_ensures(place_of_key, (board, is_right, r, c), place),
        r > 2 || c > 4,
    ensures
        r > 3 || c > 4 ==> place is None,
        place matches Some((i, j)) ==> i == 3 && (is_right ==> 5 <= j <= 6) && (!is_right ==> 2 <= j
            <= 4),
        r == 3 && is_right ==> (place is Some <==> c == 0 || (board == Board::Cnano && c == 2) || (
        board == Board::Dilemma && c == 1)),
        r == 3 && !is_right ==> (place is Some <==> c == 0 || c == 2 || (board == Board::Cnano && c
            == 3) || (board == Board::Dilemma && c == 1)),
        r == 3 && is_right && c == 0 ==> place == Some(
            (
                3u8,
                if board == Board::Cnano {
                    5u8
                } else {
                    6u8
                },
            ),
        ),
        r == 3 && is_right && 0 < c ==> (place matches Some((_, j)) ==> j == if board
            == Board::Cnano {
            6u8
        } else {
            5u8
        }),
        r == 3 && !is_right && c == 2 ==> place == Some((3u8, 2u8)),
        r == 3 && !is_right && c == 0 ==> place == Some(
            (
                3u8,
                if board == Board::Cnano {
                    4u8
                } else {
                    3u8
                },
            ),
        ),
        r == 3 && !is_right && (c == 1 || c == 3) ==> (place matches Some((_, j)) ==> j == if board
            == Board::Cnano {
            3u8
        } else {
            4u8
        }),
{
}

/// An event stays what it is and on its key, wherever it goes. Only the half that is
/// connected to the host tells its own keymap.
pub proof fn law_route_keeps_the_event(event: KeyEvent, is_host: bool, action: KeyAction)
    requires
        call_ensures(route_event, (event, is_host), action),
    ensures
        is_host ==> action == KeyAction::Layout(event),
        !is_host ==> match event {
            KeyEvent::Press(r, c) => action == KeyAction::Side(Event::Press(r, c)),
            KeyEvent::Release(r, c) => action == KeyAction::Side(Event::Release(r, c)),
        },
{
}

/// A step of the encoder, on the half that has one, is a tap of one of two keys, which one
/// depending on the direction. Without a step there is none.
pub proof fn law_encoder_step_is_a_tap(
    scanner: &mut MatrixScanner,
    is_host: bool,
    a: bool,
    b: bool,
    events: Vec<KeyEvent>,
)
    requires
        call_ensures(MatrixScanner::on_encoder, (scanner, is_host, Some((a, b))), events),
    ensures
        old(scanner).board == Board::Dilemma && old(scanner).is_right && is_host ==> {
            &&& final(scanner).last_pin_a == a
            &&& old(scanner).last_pin_a == a ==> events@.len() == 0
            &&& old(scanner).last_pin_a != a && a != b ==> events@ == seq![
                KeyEvent::Press(3, 8),
                KeyEvent::Release(3, 8),
            ]
            &&& old(scanner).last_pin_a != a && a == b ==> events@ == seq![
                KeyEvent::Press(3, 9),
                KeyEvent::Release(3, 9),
            ]
        },
        !(old(scanner).board == Board::Dilemma && old(scanner).is_right && is_host) ==> events@.len()
            == 0 && final(scanner).last_pin_a == old(scanner).last_pin_a,
{
}

/// Without an encoder there is nothing to tell of it.
pub proof fn law_no_encoder_no_tap(
    scanner: &mut MatrixScanner,
    is_host: bool,
    events: Vec<KeyEvent>,
)
    requires
        call_ensures(MatrixScanner::on_encoder, (scanner, is_host, None), events),
    ensures
        events@.len() == 0,
        final(scanner).last_pin_a == old(scanner).last_pin_a,
{
}

/// Each event of a scan leads to one action, in the same order: the keymap or the other
/// half is told of a press as a press and of a release as a release, at the place of the key.
pub proof fn law_events_are_told_at_their_place(
    scanner: MatrixScanner,
    events: Vec<KeyEvent>,
    is_host: bool,
    actions: Vec<KeyAction>,
    k: int,
    place: Option<(u8, u8)>,
)
    requires
        call_ensures(MatrixScanner::route_events, (&scanner, &events, is_host), actions),
        0 <= k < events@.len(),
        call_ensures(
            place_of_key,
            (scanner.board, scanner.is_right, events@[k].coord().0, events@[k].coord().1),
            place,
        ),
        place is Some,
    ensures
        actions@.len() == events@.len(),
        place matches Some((i, j)) && match (events@[k], is_host) {
            (KeyEvent::Press(_, _), true) => actions@[k] == KeyAction::Layout(
                KeyEvent::Press(i, j),
            ),
            (KeyEvent::Release(_, _), true) => actions@[k] == KeyAction::Layout(
                KeyEvent::Release(i, j),
            ),
            (KeyEvent::Press(_, _), false) => actions@[k] == KeyAction::Side(Event::Press(i, j)),
            (KeyEvent::Release(_, _), false) => actions@[k] == KeyAction::Side(
                Event::Release(i, j),
            ),
        },
{
}

/// A scan that the debouncer accepts tells of each key that changed at its place: a press
/// or a release, to the keymap of the half that is connected to the host or, from the other
/// half, to that one.
pub proof fn law_changed_key_is_told(
    scanner: &mut MatrixScanner,
    scan: MatrixState,
    is_host: bool,
    encoder: Option<(bool, bool)>,
    actions: Vec<KeyAction>,
    r: u8,
    c: u8,
    place: Option<(u8, u8)>,
)
    requires
        old(scanner).wf(),
        call_ensures(MatrixScanner::step, (scanner, scan, is_host, encoder), Some(actions)),
        debounce_accepts(debouncer_state(old(scanner).debouncer), keys_of(scan)),
        r < 4,
        c < 5,
        call_ensures(place_of_key, (old(scanner).board, old(scanner).is_right, r, c), place),
        debouncer_state(old(scanner).debouncer).cur[r as int][c as int] != scan@[r as int]@[c as int],
    ensures
        place matches Some((i, j)) && actions@.contains(
            match (scan@[r as int]@[c as int], is_host) {
                (true, true) => KeyAction::Layout(KeyEvent::Press(i, j)),
                (false, true) => KeyAction::Layout(KeyEvent::Release(i, j)),
                (true, false) => KeyAction::Side(Event::Press(i, j)),
                (false, false) => KeyAction::Side(Event::Release(i, j)),
            },
        ),
        debouncer_state(final(scanner).debouncer).cur == keys_of(scan),
{
    let before = debouncer_state(old(scanner).debouncer).cur;
    let after = keys_of(scan);
    law_events_tell_the_changes(before, after, r, c);
    let event = if scan@[r as int]@[c as int] {
        KeyEvent::Press(r, c)
    } else {
        KeyEvent::Release(r, c)
    };
    let events = changes(before, after);
    let k = choose|k: int| 0 <= k < events.len() && events[k] == event;
    assert(all_wired(old(scanner).board, old(scanner).is_right, events));
    assert(events[k].coord() == (r, c));
    let told = routed(old(scanner).board, old(scanner).is_right, is_host, events);
    assert(actions@[k] == told[k]);
}

/// A scan that the debouncer does not accept tells of no key, and the accepted keys stay.
pub proof fn law_bouncing_keys_are_not_told(
    scanner: &mut MatrixScanner,
    scan: MatrixState,
    is_host: bool,
    actions: Option<Vec<KeyAction>>,
)
    requires
        old(scanner).wf(),
        call_ensures(MatrixScanner::step, (scanner, scan, is_host, None), actions),
        !debounce_accepts(debouncer_state(old(scanner).debouncer), keys_of(scan)),
    ensures
        actions matches Some(actions) && actions@.len() == 0,
        debouncer_state(final(scanner).debouncer).cur == debouncer_state(
            old(scanner).debouncer,
        ).cur,
{
}

/// The events of a scan come row by row, each key at most once.
pub proof fn law_events_come_row_by_row(
    before: Seq<Seq<bool>>,
    after: Seq<Seq<bool>>,
    k: int,
    l: int,
)
    requires
        0 <= k < l < changes(before, after).len(),
    ensures
        ({
            let (first, second) = (changes(before, after)[k], changes(before, after)[l]);
            first.coord().0 * 5 + first.coord().1 < second.coord().0 * 5 + second.coord().1
        }),
{
    lemma_changes_ordered(before, after, 20);
}

proof fn lemma_changes_ordered(before: Seq<Seq<bool>>, after: Seq<Seq<bool>>, n: int)
    requires
        0 <= n <= 20,
    ensures
        forall|k: int|
            0 <= k < changes_upto(before, after, n).len() ==> {
                let (r, c) = (#[trigger] changes_upto(before, after, n)[k]).coord();
                r * 5 + c < n && c < 5 && before[r as int][c as int] != after[r as int][c as int]
            },
        forall|k: int, l: int|
            0 <= k < l < changes_upto(before, after, n).len() ==> {
                let (r, c) = (#[trigger] changes_upto(before, after, n)[k]).coord();
                let (s, d) = (#[trigger] changes_upto(before, after, n)[l]).coord();
                r * 5 + c < s * 5 + d
            },
    decreases n,
{
    if n > 0 {
        lemma_changes_ordered(before, after, n - 1);
        let (x, y) = ((n - 1) / 5, (n - 1) % 5);
        assert((x as u8) * 5 + (y as u8) == n - 1);
        let rest = changes_upto(before, after, n - 1);
        let all = changes_upto(before, after, n);
        assert(all == rest || all == rest.push(KeyEvent::Press(x as u8, y as u8)) || all
            == rest.push(KeyEvent::Release(x as u8, y as u8)));
        assert forall|k: int| 0 <= k < all.len() implies {
            let (r, c) = (#[trigger] all[k]).coord();
            r * 5 + c < n && c < 5 && before[r as int][c as int] != after[r as int][c as int] && (k
                < rest.len() ==> all[k] == rest[k])
        } by {
            if k < rest.len() {
                assert(all[k] == rest[k]);
            }
        }
    }
}

/// As long as only keys of the main rows change, a scan is told.
pub proof fn law_main_keys_are_told(
    scanner: &mut MatrixScanner,
    scan: MatrixState,
    is_host: bool,
    encoder: Option<(bool, bool)>,
    r: Option<Vec<KeyAction>>,
)
    requires
        old(scanner).wf(),
        call_ensures(MatrixScanner::step, (scanner, scan, is_host, encoder), r),
        forall|c: int|
            0 <= c < 5 ==> debouncer_state(old(scanner).debouncer).cur[3][c]
                == #[trigger] scan@[3]@[c],
    ensures
        r is Some,
{
    let before = debouncer_state(old(scanner).debouncer).cur;
    let events = changes(before, keys_of(scan));
    lemma_changes_ordered(before, keys_of(scan), 20);
    assert forall|k: int| 0 <= k < events.len() implies wired_key(
        old(scanner).board,
        old(scanner).is_right,
        (#[trigger] events[k]).coord().0,
        events[k].coord().1,
    ) is Some by {
        let (row, col) = events[k].coord();
        if row == 3 {
            assert(scan@[3]@[col as int] == before[3][col as int]);
        }
    }
}

/// A scan that tells of a key that is not there is refused, and only such a scan.
pub proof fn law_only_wired_keys_are_taken(
    scanner: MatrixScanner,
    events: Vec<KeyEvent>,
    b: bool,
    k: int,
    place: Option<(u8, u8)>,
)
    requires
        call_ensures(MatrixScanner::all_keys_wired, (&scanner, &events), b),
        0 <= k < events@.len(),
        call_ensures(
            place_of_key,
            (scanner.board, scanner.is_right, events@[k].coord().0, events@[k].coord().1),
            place,
        ),
    ensures
        b ==> place is Some,
        (forall|n: int|
            0 <= n < events@.len() ==> wired_key(
                scanner.board,
                scanner.is_right,
                (#[trigger] events@[n]).coord().0,
                events@[n].coord().1,
            ) is Some) ==> b,
        wired_key(
            scanner.board,
            scanner.is_right,
            events@[k].coord().0,
            events@[k].coord().1,
        ) == place,
{
    if b {
        assert(all_wired(scanner.board, scanner.is_right, events@));
    }
}

/// A turn of the loop does what its parts do: the scan is debounced, its events go where they
/// belong, and the taps of the encoder follow, to the keymap.
pub proof fn law_step_is_its_parts(
    scanner: &mut MatrixScanner,
    first: &mut MatrixScanner,
    second: &mut MatrixScanner,
    scan: MatrixState,
    is_host: bool,
    encoder: Option<(bool, bool)>,
    actions: Vec<KeyAction>,
    events: Vec<KeyEvent>,
    told: Vec<KeyAction>,
    taps: Vec<KeyEvent>,
)
    requires
        old(scanner).wf(),
        call_ensures(MatrixScanner::step, (scanner, scan, is_host, encoder), Some(actions)),
        *old(first) == *old(scanner),
        call_ensures(MatrixScanner::debounce, (first, scan), events),
        call_ensures(MatrixScanner::route_events, (&*final(first), &events, is_host), told),
        *old(second) == *final(first),
        call_ensures(MatrixScanner::on_encoder, (second, is_host, encoder), taps),
    ensures
        actions@.len() == told@.len() + taps@.len(),
        forall|k: int| 0 <= k < told@.len() ==> actions@[k] == #[trigger] told@[k],
        forall|k: int|
            0 <= k < taps@.len() ==> actions@[told@.len() + k] == KeyAction::Layout(
                #[trigger] taps@[k],
            ),
        final(scanner).last_pin_a == final(second).last_pin_a,
        debouncer_state(final(scanner).debouncer) == debouncer_state(final(second).debouncer),
{
}

/// A new scanner takes no key to be pressed: a scan without any brings nothing.
pub proof fn law_new_scanner_has_no_key_pressed(
    board: Board,
    is_right: bool,
    pin_a: bool,
    scanner: MatrixScanner,
    first: &mut MatrixScanner,
    state: MatrixState,
    events: Vec<KeyEvent>,
)
    requires
        call_ensures(MatrixScanner::new, (board, is_right, pin_a), scanner),
        *old(first) == scanner,
        call_ensures(matrix_state_new, (), state),
        call_ensures(MatrixScanner::debounce, (first, state), events),
    ensures
        events@.len() == 0,
        scanner.board == board,
        scanner.is_right == is_right,
        scanner.last_pin_a == pin_a,
        forall|r: int, c: int|
            0 <= r < 4 && 0 <= c < 5 ==> !#[trigger] keys_of(state)[r][c],
{
}

/// A change of the keys is accepted by a new scanner in the sixth scan in a row that sees it,
/// and not before.
pub proof fn law_key_has_to_be_stable(
    board: Board,
    is_right: bool,
    pin_a: bool,
    scanner: MatrixScanner,
    scan: Seq<Seq<bool>>,
    n: int,
)
    requires
        call_ensures(MatrixScanner::new, (board, is_right, pin_a), scanner),
        scan != no_keys(),
        0 <= n <= 5,
    ensures
        debounce_accepts(debounce_many(debouncer_state(scanner.debouncer), scan, n), scan) <==> n
            == 5,
{
    law_only_stable_keys_are_accepted(debouncer_state(scanner.debouncer), scan, n);
}

} // verus!
