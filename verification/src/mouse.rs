//! Mouse handling: from moves and clicks to HID reports.
use vstd::prelude::*;

use crate::board::Board;
use crate::hid::MouseReport;

verus! {

/// Mouse move event
#[derive(Debug, Clone, Copy, PartialEq, Eq, Structural)]
pub struct MouseMove {
    /// Delta X
    pub dx: i16,
    /// Delta Y
    pub dy: i16,
    /// Pressure (0-63 for trackpad, 0 for trackball)
    pub pressure: u8,
}

/// Threshold to consider the movement as a wheel movement
pub const WHEEL_THRESHOLD: i16 = 16;

/// Minimum pressure threshold to maintain mouse mode (dilemma only)
/// Values range from 0-63
pub const PRESSURE_NO_MVMT: u8 = 27;

/// Minimum pressure for a movement (dilemma only)
pub const MIN_PRESSURE_MVMT: u8 = 10;

/// Mouse handler
#[derive(Debug, Clone, Copy, PartialEq, Eq, Structural)]
pub struct MouseHandler {
    /// Left click is pressed
    pub left_click: bool,
    /// Right click is pressed
    pub right_click: bool,
    /// Middle click is pressed
    pub wheel_click: bool,
    /// Moving the ball is actually moving the wheel
    pub ball_is_wheel: bool,
    /// Direction X
    pub dx: i16,
    /// Direction Y
    pub dy: i16,
    /// Wheel movement
    /// Positive is up, negative is Down
    /// 0 is no movement, reset on every tick
    pub wheel: i8,
    /// Whether the state has changed
    pub changed: bool,
    /// Current pressure value (0-63 for trackpad, 0 for trackball)
    pub pressure: u8,
}

/// The buttons that are pressed: bit 0 for left, bit 1 for right, bit 2 for middle.
pub open spec fn buttons_of(left: bool, right: bool, middle: bool) -> u8 {
    ((if left {
        1int
    } else {
        0
    }) + (if right {
        2int
    } else {
        0
    }) + (if middle {
        4int
    } else {
        0
    })) as u8
}

impl MouseHandler {
    /// The state after a move has been received, if any.
    pub open spec fn moved(self, received: Option<MouseMove>) -> MouseHandler {
        match received {
            Some(m) => MouseHandler {
                dx: m.dx,
                dy: m.dy,
                pressure: m.pressure,
                changed: true,
                ..self
            },
            None => self,
        }
    }

    /// The report of a state. Where the ball is the wheel, a vertical move that is large
    /// enough scrolls by one unit, and nothing else is reported.
    pub open spec fn report(self) -> MouseReport {
        if self.ball_is_wheel {
            MouseReport {
                buttons: 0,
                x: 0,
                y: 0,
                wheel: if self.dy > WHEEL_THRESHOLD {
                    (-1) as i8
                } else if self.dy < -WHEEL_THRESHOLD {
                    1
                } else {
                    0
                },
                pan: 0,
            }
        } else {
            MouseReport {
                buttons: buttons_of(self.left_click, self.right_click, self.wheel_click),
                x: self.dx,
                y: self.dy,
                wheel: self.wheel,
                pan: 0,
            }
        }
    }

    /// Whether a state is worth a report. A trackpad needs some pressure, unless its
    /// wheel moved and it is not touched.
    pub open spec fn is_reported(self, board: Board) -> bool {
        match board {
            Board::Cnano => true,
            Board::Dilemma => self.pressure >= MIN_PRESSURE_MVMT || (self.pressure == 0
                && self.wheel != 0),
        }
    }

    /// Whether there is enough pressure to keep the mouse mode without a move.
    pub open spec fn has_pressure(self, board: Board) -> bool {
        board == Board::Dilemma && self.pressure >= PRESSURE_NO_MVMT
    }

    /// Create a new mouse handler
    pub fn new() -> (mouse: Self)
        ensures
            mouse == (MouseHandler {
                left_click: false,
                right_click: false,
                wheel_click: false,
                ball_is_wheel: false,
                dx: 0,
                dy: 0,
                wheel: 0,
                changed: false,
                pressure: 0,
            }),
    {
        MouseHandler {
            left_click: false,
            right_click: false,
            wheel_click: false,
            ball_is_wheel: false,
            dx: 0,
            dy: 0,
            wheel: 0,
            changed: false,
            pressure: 0,
        }
    }

    /// On left click
    pub fn on_left_click(&mut self, is_pressed: bool)
        ensures
            *final(self) == (MouseHandler { left_click: is_pressed, changed: true, ..*old(self) }),
    {
        self.left_click = is_pressed;
        self.changed = true;
    }

    /// On right click
    pub fn on_right_click(&mut self, is_pressed: bool)
        ensures
            *final(self) == (MouseHandler { right_click: is_pressed, changed: true, ..*old(self) }),
    {
        self.right_click = is_pressed;
        self.changed = true;
    }

    /// On middle click
    pub fn on_middle_click(&mut self, is_pressed: bool)
        ensures
            *final(self) == (MouseHandler { wheel_click: is_pressed, changed: true, ..*old(self) }),
    {
        self.wheel_click = is_pressed;
        self.changed = true;
    }

    /// On Ball is wheel
    pub fn on_ball_is_wheel(&mut self, is_pressed: bool)
        ensures
            *final(self) == (MouseHandler {
                ball_is_wheel: is_pressed,
                changed: true,
                ..*old(self)
            }),
    {
        self.ball_is_wheel = is_pressed;
        self.changed = true;
    }

    /// On wheel
    pub fn on_wheel(&mut self, is_up: bool)
        ensures
            *final(self) == (MouseHandler {
                wheel: if is_up {
                    1
                } else {
                    (-1) as i8
                },
                changed: true,
                ..*old(self)
            }),
    {
        self.wheel = if is_up {
            1
        } else {
            -1
        };
        self.changed = true;
    }

    /// Handle a mouse movement event
    fn handle_move_event(&mut self, event: MouseMove)
        ensures
            *final(self) == old(self).moved(Some(event)),
    {
        let MouseMove { dx, dy, pressure } = event;
        self.dx = dx;
        self.dy = dy;
        self.pressure = pressure;
        self.changed = true;
    }

    /// Compute the state of the mouse, with the move that was received, if any. Called
    /// every 1ms
    /// Returns (MouseReport, has_pressure) where has_pressure indicates if there's
    /// sufficient pressure on the trackpad to maintain mouse mode without cursor movement
    pub fn tick(&mut self, board: Board, received: Option<MouseMove>, is_host: bool) -> (r: Option<
        (MouseReport, bool),
    >)
        ensures
            ({
                let now = old(self).moved(received);
                &&& r == if now.changed && is_host && now.is_reported(board) {
                    Some((now.report(), now.has_pressure(board)))
                } else {
                    None
                }
                &&& *final(self) == (MouseHandler {
                    changed: now.changed && !is_host,
                    wheel: 0,
                    ..now
                })
            }),
    {
        if let Some(event) = received {
            self.handle_move_event(event);
        }
        let mut res = None;
        if self.changed && is_host {
            self.changed = false;
            let hid_report = self.generate_hid_report();
            res =
            match board {
                Board::Dilemma => {
                    if self.pressure >= PRESSURE_NO_MVMT {
                        // sufficient pressure to maintain mouse mode
                        Some((hid_report, true))
                    } else if self.pressure >= MIN_PRESSURE_MVMT {
                        // insufficient pressure, but allow movement
                        Some((hid_report, false))
                    } else if self.pressure == 0 && self.wheel != 0 {
                        // no pressure, could be wheel movement only
                        Some((hid_report, false))
                    } else {
                        None
                    }
                },
                Board::Cnano => Some((hid_report, false)),
            };
        }
        self.wheel = 0;
        res
    }

    /// Generate a HID report for the mouse
    fn generate_hid_report(&self) -> (report: MouseReport)
        ensures
            report == self.report(),
    {
        let mut report = MouseReport::default();
        if self.ball_is_wheel {
            if self.dy > WHEEL_THRESHOLD {
                report.wheel = -1;
            } else if self.dy < -WHEEL_THRESHOLD {
                report.wheel = 1;
            }
        } else {
            report.x = self.dx;
            report.y = self.dy;
            if self.left_click {
                report.buttons = report.buttons + 1;
            }
            if self.right_click {
                report.buttons = report.buttons + 2;
            }
            if self.wheel_click {
                report.buttons = report.buttons + 4;
            }
            report.wheel = self.wheel;
        }
        report
    }
}

/// The buttons of a report tell which clicks are held.
pub proof fn law_buttons_are_independent(left: bool, right: bool, middle: bool)
    ensures
        buttons_of(left, right, middle) % 2 == 1 <==> left,
        buttons_of(left, right, middle) / 2 % 2 == 1 <==> right,
        buttons_of(left, right, middle) / 4 == 1 <==> middle,
{
}

/// A move that is received moves the pointer by exactly that much, in both directions and
/// whichever way it goes, as long as the ball is not the wheel. The clicks that are held and
/// the turn of the wheel are told with it.
pub proof fn law_move_is_reported(
    mouse: &mut MouseHandler,
    board: Board,
    m: MouseMove,
    r: Option<(MouseReport, bool)>,
)
    requires
        call_ensures(MouseHandler::tick, (mouse, board, Some(m), true), r),
        !old(mouse).ball_is_wheel,
        board == Board::Cnano || m.pressure >= 10,
    ensures
        r matches Some((report, _)) && {
            &&& report.x == m.dx
            &&& report.y == m.dy
            &&& report.wheel == old(mouse).wheel
            &&& report.pan == 0
            &&& report.buttons < 8
            &&& report.buttons % 2 == 1 <==> old(mouse).left_click
            &&& report.buttons / 2 % 2 == 1 <==> old(mouse).right_click
            &&& report.buttons / 4 == 1 <==> old(mouse).wheel_click
        },
{
}

/// Where the ball is the wheel, a vertical move that is large enough scrolls by one unit,
/// down for a move down and up for a move up, and the pointer stays where it is.
pub proof fn law_ball_turns_the_wheel(
    mouse: &mut MouseHandler,
    board: Board,
    received: Option<MouseMove>,
    is_host: bool,
    report: MouseReport,
    has_pressure: bool,
)
    requires
        call_ensures(
            MouseHandler::tick,
            (mouse, board, received, is_host),
            Some((report, has_pressure)),
        ),
        old(mouse).ball_is_wheel,
    ensures
        report.x == 0,
        report.y == 0,
        report.buttons == 0,
        report.pan == 0,
        report.wheel == -1 <==> final(mouse).dy > 16,
        report.wheel == 1 <==> final(mouse).dy < -16,
        report.wheel == 0 <==> -16 <= final(mouse).dy <= 16,
{
}

/// A trackpad that is touched too lightly tells nothing, unless it is not touched at all and
/// the wheel was turned. With more pressure it keeps the mouse mode, which a trackball never
/// does. The pressure is the one that was told last.
pub proof fn law_pressure_decides(
    mouse: &mut MouseHandler,
    board: Board,
    received: Option<MouseMove>,
    r: Option<(MouseReport, bool)>,
)
    requires
        call_ensures(MouseHandler::tick, (mouse, board, received, true), r),
        received is Some || old(mouse).changed,
    ensures
        board == Board::Cnano ==> (r matches Some((_, has_pressure)) && !has_pressure),
        board == Board::Dilemma ==> (r is Some <==> final(mouse).pressure >= 10 || (final(mouse).pressure == 0 && old(mouse).wheel != 0)),
        board == Board::Dilemma ==> (r matches Some((_, has_pressure)) ==> (has_pressure <==> final(mouse).pressure >= 27)),
{
}

/// Something is reported once: a tick without anything new reports nothing. What happens
/// while this half is not connected to the host is kept for later, except for the wheel.
pub proof fn law_reported_once(
    mouse: &mut MouseHandler,
    board: Board,
    received: Option<MouseMove>,
    is_host: bool,
    r: Option<(MouseReport, bool)>,
)
    requires
        call_ensures(MouseHandler::tick, (mouse, board, received, is_host), r),
    ensures
        !is_host ==> r is None,
        received is None && !old(mouse).changed ==> r is None,
        is_host ==> !final(mouse).changed,
        !is_host && (received is Some || old(mouse).changed) ==> final(mouse).changed,
        final(mouse).wheel == 0,
        final(mouse).left_click == old(mouse).left_click,
        final(mouse).right_click == old(mouse).right_click,
        final(mouse).wheel_click == old(mouse).wheel_click,
        final(mouse).ball_is_wheel == old(mouse).ball_is_wheel,
        received matches Some(m) ==> final(mouse).dx == m.dx && final(mouse).dy == m.dy && final(mouse).pressure == m.pressure,
        received is None ==> final(mouse).dx == old(mouse).dx && final(mouse).dy == old(mouse).dy
            && final(mouse).pressure == old(mouse).pressure,
{
}

/// Whatever is reported, a report tells the last move, the turn of the wheel and the clicks
/// that are held, as long as the ball is not the wheel.
pub proof fn law_report_tells_the_state(
    mouse: &mut MouseHandler,
    board: Board,
    received: Option<MouseMove>,
    is_host: bool,
    report: MouseReport,
    has_pressure: bool,
)
    requires
        call_ensures(
            MouseHandler::tick,
            (mouse, board, received, is_host),
            Some((report, has_pressure)),
        ),
        !old(mouse).ball_is_wheel,
    ensures
        report.x == final(mouse).dx,
        report.y == final(mouse).dy,
        report.wheel == old(mouse).wheel,
        report.pan == 0,
        report.buttons < 8,
        report.buttons % 2 == 1 <==> old(mouse).left_click,
        report.buttons / 2 % 2 == 1 <==> old(mouse).right_click,
        report.buttons / 4 == 1 <==> old(mouse).wheel_click,
{
}

/// Each of the clicks, and the ball as a wheel, is held exactly as long as it is said to be,
/// and none of them touches another.
pub proof fn law_clicks_are_held(
    left: &mut MouseHandler,
    right: &mut MouseHandler,
    middle: &mut MouseHandler,
    ball: &mut MouseHandler,
    pressed: bool,
)
    requires
        call_ensures(MouseHandler::on_left_click, (left, pressed), ()),
        call_ensures(MouseHandler::on_right_click, (right, pressed), ()),
        call_ensures(MouseHandler::on_middle_click, (middle, pressed), ()),
        call_ensures(MouseHandler::on_ball_is_wheel, (ball, pressed), ()),
    ensures
        *final(left) == (MouseHandler { left_click: pressed, changed: true, ..*old(left) }),
        *final(right) == (MouseHandler { right_click: pressed, changed: true, ..*old(right) }),
        *final(middle) == (MouseHandler { wheel_click: pressed, changed: true, ..*old(middle) }),
        *final(ball) == (MouseHandler { ball_is_wheel: pressed, changed: true, ..*old(ball) }),
{
}

/// The wheel turns by one, up or down, and this is to be reported.
pub proof fn law_wheel_turns_by_one(mouse: &mut MouseHandler, is_up: bool)
    requires
        call_ensures(MouseHandler::on_wheel, (mouse, is_up), ()),
    ensures
        is_up ==> final(mouse).wheel == 1,
        !is_up ==> final(mouse).wheel == -1,
        final(mouse).changed,
        final(mouse).dx == old(mouse).dx,
        final(mouse).dy == old(mouse).dy,
        final(mouse).left_click == old(mouse).left_click,
        final(mouse).right_click == old(mouse).right_click,
        final(mouse).wheel_click == old(mouse).wheel_click,
        final(mouse).ball_is_wheel == old(mouse).ball_is_wheel,
{
}

/// A new mouse has nothing to report: no click is held and nothing moves.
pub proof fn law_new_mouse_is_at_rest(mouse: MouseHandler)
    requires
        call_ensures(MouseHandler::new, (), mouse),
    ensures
        !mouse.changed,
        !mouse.left_click && !mouse.right_click && !mouse.wheel_click && !mouse.ball_is_wheel,
        mouse.dx == 0 && mouse.dy == 0 && mouse.wheel == 0 && mouse.pressure == 0,
{
}

} // verus!
