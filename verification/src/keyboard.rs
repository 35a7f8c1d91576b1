//! The core of the keyboard: what the keymap and the pointing device lead to.
use vstd::prelude::*;

use crate::board::Board;
use crate::hid::{ConsumerReport, KeyboardReport, MouseReport};
use crate::keys::KeyEvent;
use crate::mouse::{MouseHandler, MouseMove};
use crate::rgb_leds::AnimCommand;
use crate::serde::Event;
use crate::trackball::SensorCommand;

verus! {

/// Layout refresh rate, in ms
pub const REFRESH_RATE_MS: u64 = 1;

/// Timeout for the automouse feature: when the mouse is not used for this
/// amount of time, it will be considered inactive.
pub const AUTO_MOUSE_TIMEOUT: usize = 10;

/// Row of the virtual mouse key
pub const VIRTUAL_MOUSE_ROW: u8 = 3;

/// Column of the virtual mouse key
pub const VIRTUAL_MOUSE_COL: u8 = 0;

/// Error if too much keys are pressed at the same time
pub const KC_ERROR_ROLL_OVER: u8 = 0x01;

/// An undefined error occured
pub const KC_ERROR_UNDEFINED: u8 = 0x03;

/// Key that mutes the sound
pub const KC_MUTE: u8 = 0x7F;

/// Key that turns the sound up
pub const KC_VOL_UP: u8 = 0x80;

/// Key that turns the sound down
pub const KC_VOL_DOWN: u8 = 0x81;

/// First of the modifier keys, in the order of their bits
pub const KC_LEFT_CONTROL: u8 = 0xE0;

/// Last of the modifier keys
pub const KC_RIGHT_GUI: u8 = 0xE7;

/// Media key to play or pause
pub const KC_MEDIA_PLAY_PAUSE: u8 = 0xE8;

/// Media key for the previous song
pub const KC_MEDIA_PREVIOUS_SONG: u8 = 0xEA;

/// Media key for the next song
pub const KC_MEDIA_NEXT_SONG: u8 = 0xEB;

/// A key code of the keymap, by its HID usage
#[derive(Debug, Clone, Copy, PartialEq, Eq, Structural)]
pub struct KeyCode(pub u8);

/// The keyboard and consumer reports, as they are put together.
#[verifier::ext_equal]
pub struct Reports {
    pub modifier: u8,
    pub keys: Seq<u8>,
    pub usage: u16,
}

/// Nothing is pressed.
pub open spec fn no_reports() -> Reports {
    Reports { modifier: 0, keys: Seq::new(6, |i: int| 0u8), usage: 0 }
}

/// The consumer usage of a media key.
pub open spec fn media_usage(kc: u8) -> Option<u16> {
    match kc {
        KC_MEDIA_NEXT_SONG => Some(0x00B5),
        KC_MEDIA_PREVIOUS_SONG => Some(0x00B6),
        KC_MEDIA_PLAY_PAUSE => Some(0x00CD),
        KC_MUTE => Some(0x00E2),
        KC_VOL_UP => Some(0x00E9),
        KC_VOL_DOWN => Some(0x00EA),
        _ => None,
    }
}

/// Whether a key goes into one of the six slots of the keyboard report.
pub open spec fn is_regular(kc: u8) -> bool {
    KC_ERROR_UNDEFINED < kc < KC_LEFT_CONTROL && media_usage(kc) is None
}

/// The first free slot from `k` on; six if there is none.
pub open spec fn free_slot(keys: Seq<u8>, k: int) -> int
    decreases 6 - k,
{
    if k >= 6 || keys[k] == 0 {
        k
    } else {
        free_slot(keys, k + 1)
    }
}

/// All slots say that something went wrong, and no modifier is told.
pub open spec fn error_reports(r: Reports, kc: u8) -> Reports {
    Reports { modifier: 0, keys: Seq::new(6, |i: int| kc), ..r }
}

/// The bit of a modifier key.
pub open spec fn modifier_bit(kc: u8) -> u8 {
    1u8 << ((kc - KC_LEFT_CONTROL) as u8)
}

/// The reports with one more key.
pub open spec fn reports_with(r: Reports, kc: u8) -> Reports {
    if kc == 0 {
        r
    } else if kc <= KC_ERROR_UNDEFINED {
        error_reports(r, kc)
    } else if KC_LEFT_CONTROL <= kc <= KC_RIGHT_GUI {
        Reports { modifier: r.modifier | modifier_bit(kc), ..r }
    } else if media_usage(kc) is Some {
        Reports { usage: media_usage(kc)->0, ..r }
    } else if is_regular(kc) {
        if free_slot(r.keys, 0) < 6 {
            Reports { keys: r.keys.update(free_slot(r.keys, 0), kc), ..r }
        } else {
            error_reports(r, KC_ERROR_ROLL_OVER)
        }
    } else {
        r
    }
}

/// The reports for a number of keys.
pub open spec fn reports_of(keycodes: Seq<KeyCode>) -> Reports
    decreases keycodes.len(),
{
    if keycodes.len() == 0 {
        no_reports()
    } else {
        reports_with(reports_of(keycodes.drop_last()), keycodes.last().0)
    }
}

/// What a keyboard and a consumer report say.
pub open spec fn reports_view(kb: KeyboardReport, consumer: ConsumerReport) -> Reports {
    Reports { modifier: kb.modifier, keys: kb.keycodes@, usage: consumer.usage }
}

/// Set a report as an error based on keycode `kc`
pub fn keyboard_report_set_error(report: &mut KeyboardReport, kc: u8)
    ensures
        final(report).modifier == 0,
        final(report).keycodes@ == Seq::new(6, |i: int| kc),
{
    report.modifier = 0;
    report.keycodes = [kc; 6];
    assert(report.keycodes@ =~= Seq::new(6, |i: int| kc));
}

/// Put a key into the first free slot of a report, or set it as an error if there is none
fn add_key(report: &mut KeyboardReport, kc: u8)
    ensures
        free_slot(old(report).keycodes@, 0) < 6 ==> {
            &&& final(report).modifier == old(report).modifier
            &&& final(report).keycodes@ == old(report).keycodes@.update(
                free_slot(old(report).keycodes@, 0),
                kc,
            )
        },
        free_slot(old(report).keycodes@, 0) >= 6 ==> {
            &&& final(report).modifier == 0
            &&& final(report).keycodes@ == Seq::new(6, |i: int| KC_ERROR_ROLL_OVER)
        },
{
    let mut k: usize = 0;
    while k < 6
        invariant
            k <= 6,
            *report == *old(report),
            free_slot(report.keycodes@, 0) == free_slot(report.keycodes@, k as int),
        decreases 6 - k,
    {
        if report.keycodes[k] == 0 {
            report.keycodes[k] = kc;
            return;
        }
        k = k + 1;
    }
    keyboard_report_set_error(report, KC_ERROR_ROLL_OVER);
}

/// Generate HID reports (keyboard and consumer) from the key codes of the keymap
pub fn generate_hid_reports(keycodes: &Vec<KeyCode>) -> (r: (KeyboardReport, ConsumerReport))
    ensures
        reports_view(r.0, r.1) == reports_of(keycodes@),
{
    let mut kb_report = KeyboardReport::default();
    let mut consumer_report = ConsumerReport::default();
    let mut n: usize = 0;
    assert(reports_view(kb_report, consumer_report) =~= no_reports());
    while n < keycodes.len()
        invariant
            n <= keycodes@.len(),
            reports_view(kb_report, consumer_report) == reports_of(keycodes@.take(n as int)),
        decreases keycodes@.len() - n,
    {
        let kc: u8 = keycodes[n].0;
        let ghost before = reports_view(kb_report, consumer_report);
        if kc == 0 {
        } else if kc <= KC_ERROR_UNDEFINED {
            keyboard_report_set_error(&mut kb_report, kc);
        } else if KC_LEFT_CONTROL <= kc && kc <= KC_RIGHT_GUI {
            kb_report.modifier = kb_report.modifier | (1u8 << (kc - KC_LEFT_CONTROL));
        } else if kc == KC_MEDIA_NEXT_SONG {
            consumer_report.usage = 0x00B5;
        } else if kc == KC_MEDIA_PREVIOUS_SONG {
            consumer_report.usage = 0x00B6;
        } else if kc == KC_MEDIA_PLAY_PAUSE {
            consumer_report.usage = 0x00CD;
        } else if kc == KC_MUTE {
            consumer_report.usage = 0x00E2;
        } else if kc == KC_VOL_UP {
            consumer_report.usage = 0x00E9;
        } else if kc == KC_VOL_DOWN {
            consumer_report.usage = 0x00EA;
        } else if kc < KC_MEDIA_PLAY_PAUSE {
            // Only add to keyboard report if it's a valid keycode
            add_key(&mut kb_report, kc);
        }
        assert(reports_view(kb_report, consumer_report) =~= reports_with(before, kc));
        n = n + 1;
        assert(keycodes@.take(n as int).drop_last() =~= keycodes@.take(n - 1));
    }
    assert(keycodes@.take(n as int) =~= keycodes@);
    (kb_report, consumer_report)
}

/// Custom events for the layout, mostly mouse events
#[derive(Debug, Clone, Copy, PartialEq, Eq, Structural)]
pub enum CustomEvent {
    /// Mouse left click
    MouseLeftClick,
    /// Mouse right click
    MouseRightClick,
    /// Mouse Wheel click
    MouseWheelClick,
    /// Ball is wheel
    BallIsWheel,
    /// Increase sensor CPI, with a trackball
    IncreaseCpi,
    /// Decrease sensor CPI, with a trackball
    DecreaseCpi,
    /// Next Animation of the RGB LEDs
    NextLedAnimation,
    /// Reset to usb mass storage
    ResetToUsbMassStorage,
    /// Wheel up, with encoders
    WheelUp,
    /// Wheel down, with encoders
    WheelDown,
    /// Stop the automouse feature
    NoMouseAction,
}

/// A custom event that the layout tells
#[derive(Debug, Clone, Copy, PartialEq, Eq, Structural)]
pub enum LayoutEvent {
    /// There is none
    NoEvent,
    /// The key of the event is pressed
    Press(CustomEvent),
    /// The key of the event is released
    Release(CustomEvent),
}

/// What the core asks for
#[derive(Debug, Clone, Copy, PartialEq, Eq)]
pub enum CoreAction {
    /// Tell the keymap of a key
    Layout(KeyEvent),
    /// Tell the other half
    Side(Event),
    /// Tell the leds
    Anim(AnimCommand),
    /// Tell the sensor
    Sensor(SensorCommand),
    /// Send a keyboard report
    Keyboard(KeyboardReport),
    /// Send a consumer report
    Consumer(ConsumerReport),
    /// Reset to usb mass storage
    ResetToUsbBoot,
}

/// Core keyboard/mouse handler
#[derive(Debug, Clone, Copy)]
pub struct Core {
    /// The keyboard
    pub board: Board,
    /// Current layer
    pub current_layer: usize,
    /// Keyboard HID report
    pub kb_report: KeyboardReport,
    /// Consumer Control HID report
    pub consumer_report: ConsumerReport,
    /// Mouse handler
    pub mouse: MouseHandler,
    /// Timeout for the automouse feature. When this is non-zero, the mouse
    /// will be considered active. Goes down to 0 every tick.
    pub auto_mouse_timeout: usize,
    /// Current color layer
    pub color_layer: u8,
    /// Is mouse active
    pub mouse_active: bool,
}

/// The press of the virtual mouse key.
pub open spec fn mouse_key_press() -> CoreAction {
    CoreAction::Layout(KeyEvent::Press(VIRTUAL_MOUSE_ROW, VIRTUAL_MOUSE_COL))
}

/// The release of the virtual mouse key.
pub open spec fn mouse_key_release() -> CoreAction {
    CoreAction::Layout(KeyEvent::Release(VIRTUAL_MOUSE_ROW, VIRTUAL_MOUSE_COL))
}

/// Whether a mouse report keeps the mouse active. Don't consider wheel movement as mouse
/// activity since it may just be scrolling and not actual mouse movement.
pub open spec fn is_mouse_activity(report: MouseReport, has_pressure: bool) -> bool {
    report.x != 0 || report.y != 0 || report.buttons != 0 || has_pressure
}

impl Core {
    /// The mouse is active as long as its timeout runs.
    pub open spec fn wf(self) -> bool {
        &&& self.mouse_active <==> self.auto_mouse_timeout > 0
        &&& self.auto_mouse_timeout <= AUTO_MOUSE_TIMEOUT
    }

    /// The state with the mouse active.
    pub open spec fn activated(self) -> Core {
        Core { mouse_active: true, auto_mouse_timeout: AUTO_MOUSE_TIMEOUT, ..self }
    }

    /// The state with the mouse not active.
    pub open spec fn deactivated(self) -> Core {
        Core { mouse_active: false, auto_mouse_timeout: 0, ..self }
    }

    /// The state after the timeout of the mouse has run for one more tick.
    pub open spec fn after_timeout(self) -> Core {
        if self.auto_mouse_timeout <= 1 {
            self.deactivated()
        } else {
            Core { auto_mouse_timeout: (self.auto_mouse_timeout - 1) as usize, ..self }
        }
    }

    /// The state after a custom event.
    pub open spec fn after_custom(self, event: LayoutEvent) -> Core {
        match event {
            LayoutEvent::Press(CustomEvent::NoMouseAction) => self.deactivated(),
            _ => Core { mouse: mouse_after(self.mouse, event), ..self },
        }
    }

    /// What a custom event asks for.
    pub open spec fn custom_action(self, event: LayoutEvent) -> Option<CoreAction> {
        match event {
            LayoutEvent::Press(CustomEvent::IncreaseCpi) => Some(
                CoreAction::Sensor(SensorCommand::IncreaseCpi),
            ),
            LayoutEvent::Press(CustomEvent::DecreaseCpi) => Some(
                CoreAction::Sensor(SensorCommand::DecreaseCpi),
            ),
            LayoutEvent::Press(CustomEvent::NextLedAnimation) => Some(
                CoreAction::Anim(AnimCommand::Next),
            ),
            LayoutEvent::Press(CustomEvent::ResetToUsbMassStorage) => Some(
                CoreAction::ResetToUsbBoot,
            ),
            LayoutEvent::Press(CustomEvent::NoMouseAction) => if self.mouse_active {
                Some(mouse_key_release())
            } else {
                None
            },
            _ => None,
        }
    }

    /// Create a new core
    pub fn new(board: Board) -> (core: Self)
        ensures
            core.wf(),
            core.board == board,
            core.current_layer == 0,
            core.color_layer == 0,
            !core.mouse_active,
            reports_view(core.kb_report, core.consumer_report) == no_reports(),
            core.mouse == (MouseHandler {
                left_click: false,
                right_click: false,
                wheel_click: false,
                ball_is_wheel: false,
                dx: 0,
                dy: 0,
                wheel: 0,
                changed: false,
                pressure: 0,
            }),
    {
        let core = Core {
            board,
            current_layer: 0,
            kb_report: KeyboardReport::default(),
            consumer_report: ConsumerReport::default(),
            mouse: MouseHandler::new(),
            auto_mouse_timeout: 0,
            color_layer: 0,
            mouse_active: false,
        };
        assert(reports_view(core.kb_report, core.consumer_report) =~= no_reports());
        core
    }

    /// Set the color layer of the RGB LEDs, on both halves
    fn set_color_layer(&mut self, layer: u8, actions: &mut Vec<CoreAction>)
        ensures
            *final(self) == (Core { color_layer: layer, ..*old(self) }),
            final(actions)@ == old(actions)@ + color_actions(old(self).color_layer, layer),
    {
        if self.color_layer != layer {
            self.color_layer = layer;
            actions.push(CoreAction::Side(Event::RgbAnimChangeLayer(layer)));
            actions.push(CoreAction::Anim(AnimCommand::ChangeLayer(layer)));
        }
        assert(actions@ =~= old(actions)@ + color_actions(old(self).color_layer, layer));
    }

    /// (Re)Set mouse active timeout
    /// Also press the virtual mouse key, which sets the leds to the mouse active color
    fn on_mouse_active(&mut self) -> (action: Option<CoreAction>)
        ensures
            *final(self) == old(self).activated(),
            action == if old(self).mouse_active {
                None
            } else {
                Some(mouse_key_press())
            },
    {
        self.auto_mouse_timeout = AUTO_MOUSE_TIMEOUT;
        if !self.mouse_active {
            self.mouse_active = true;
            Some(CoreAction::Layout(KeyEvent::Press(VIRTUAL_MOUSE_ROW, VIRTUAL_MOUSE_COL)))
        } else {
            None
        }
    }

    /// When the mouse becomes inactive, release the virtual mouse key, which resets the leds
    /// to the current layer color
    fn on_mouse_inactive(&mut self) -> (action: Option<CoreAction>)
        ensures
            *final(self) == (Core { mouse_active: false, ..*old(self) }),
            action == if old(self).mouse_active {
                Some(mouse_key_release())
            } else {
                None
            },
    {
        if self.mouse_active {
            self.mouse_active = false;
            Some(CoreAction::Layout(KeyEvent::Release(VIRTUAL_MOUSE_ROW, VIRTUAL_MOUSE_COL)))
        } else {
            None
        }
    }

    /// First part of a tick, to be called until there is no report any more: process the
    /// mouse events, since they are time sensitive
    /// Returns the report to send, and what else it asks for
    pub fn tick_mouse(&mut self, received: Option<MouseMove>, is_host: bool) -> (r: Option<
        (MouseReport, Option<CoreAction>),
    >)
        requires
            old(self).wf(),
        ensures
            final(self).wf(),
            ({
                let now = old(self).mouse.moved(received);
                let mouse = MouseHandler { changed: now.changed && !is_host, wheel: 0, ..now };
                let reported = now.changed && is_host && now.is_reported(old(self).board);
                let active = reported && is_mouse_activity(
                    now.report(),
                    now.has_pressure(old(self).board),
                );
                &&& r is Some <==> reported
                &&& r matches Some((report, action)) ==> report == now.report() && action == if active
                    && !old(self).mouse_active {
                    Some(mouse_key_press())
                } else {
                    None
                }
                &&& *final(self) == if active {
                    (Core { mouse, ..*old(self) }).activated()
                } else {
                    Core { mouse, ..*old(self) }
                }
            }),
    {
        match self.mouse.tick(self.board, received, is_host) {
            Some((report, has_pressure)) => {
                let pending_mouse_clicks = report.buttons != 0;
                let mouse_moved = report.x != 0 || report.y != 0;
                let mut action = None;
                if mouse_moved || pending_mouse_clicks || has_pressure {
                    action = self.on_mouse_active();
                }
                Some((report, action))
            },
            None => None,
        }
    }

    /// Second part of a tick: the timeout of the mouse runs
    /// Returns what it asks for
    pub fn tick_timeout(&mut self) -> (action: Option<CoreAction>)
        requires
            old(self).wf(),
        ensures
            final(self).wf(),
            *final(self) == old(self).after_timeout(),
            action == if old(self).auto_mouse_timeout == 1 {
                Some(mouse_key_release())
            } else {
                None
            },
    {
        if self.auto_mouse_timeout > 0 {
            self.auto_mouse_timeout = self.auto_mouse_timeout - 1;
            if self.auto_mouse_timeout == 0 {
                return self.on_mouse_inactive();
            }
        }
        None
    }

    /// Third part of a tick: what the layout tells after its own tick, that is a custom
    /// event, the codes of the keys that are pressed and the layer
    /// Returns what it asks for, in order
    pub fn tick_layout(
        &mut self,
        event: LayoutEvent,
        keycodes: &Vec<KeyCode>,
        new_layer: usize,
    ) -> (actions: Vec<CoreAction>)
        requires
            old(self).wf(),
        ensures
            final(self).wf(),
            reports_view(final(self).kb_report, final(self).consumer_report) == reports_of(
                keycodes@,
            ),
            final(self).current_layer == new_layer,
            final(self).color_layer == if new_layer == old(self).current_layer {
                old(self).color_layer
            } else {
                (new_layer % 256) as u8
            },
            *final(self) == (Core {
                kb_report: final(self).kb_report,
                consumer_report: final(self).consumer_report,
                current_layer: final(self).current_layer,
                color_layer: final(self).color_layer,
                ..old(self).after_custom(event)
            }),
            actions@ == option_seq(old(self).custom_action(event)) + report_actions(
                *old(self),
                *final(self),
            ) + color_actions(old(self).color_layer, final(self).color_layer),
    {
        let mut actions: Vec<CoreAction> = Vec::new();
        if let Some(action) = self.process_custom_event(event) {
            actions.push(action);
        }
        assert(actions@ =~= option_seq(old(self).custom_action(event)));
        let (new_kb_report, new_consumer_report) = generate_hid_reports(keycodes);
        if !new_kb_report.is_same(&self.kb_report) {
            self.kb_report = new_kb_report;
            actions.push(CoreAction::Keyboard(new_kb_report));
        }
        if new_consumer_report.usage != self.consumer_report.usage {
            self.consumer_report = new_consumer_report;
            actions.push(CoreAction::Consumer(new_consumer_report));
        }
        assert(actions@ =~= option_seq(old(self).custom_action(event)) + report_actions(
            *old(self),
            *self,
        ));
        if new_layer != self.current_layer {
            self.current_layer = new_layer;
            self.set_color_layer((new_layer % 256) as u8, &mut actions);
        }
        assert(actions@ =~= option_seq(old(self).custom_action(event)) + report_actions(
            *old(self),
            *self,
        ) + color_actions(old(self).color_layer, self.color_layer));
        actions
    }

    /// Process a custom event from the layout
    /// Returns what it asks for
    pub fn process_custom_event(&mut self, event: LayoutEvent) -> (action: Option<CoreAction>)
        requires
            old(self).wf(),
        ensures
            final(self).wf(),
            *final(self) == old(self).after_custom(event),
            action == old(self).custom_action(event),
    {
        match event {
            LayoutEvent::Press(CustomEvent::MouseLeftClick) => {
                self.mouse.on_left_click(true);
                None
            },
            LayoutEvent::Release(CustomEvent::MouseLeftClick) => {
                self.mouse.on_left_click(false);
                None
            },
            LayoutEvent::Press(CustomEvent::MouseRightClick) => {
                self.mouse.on_right_click(true);
                None
            },
            LayoutEvent::Release(CustomEvent::MouseRightClick) => {
                self.mouse.on_right_click(false);
                None
            },
            LayoutEvent::Press(CustomEvent::MouseWheelClick) => {
                self.mouse.on_middle_click(true);
                None
            },
            LayoutEvent::Release(CustomEvent::MouseWheelClick) => {
                self.mouse.on_middle_click(false);
                None
            },
            LayoutEvent::Press(CustomEvent::BallIsWheel) => {
                self.mouse.on_ball_is_wheel(true);
                None
            },
            LayoutEvent::Release(CustomEvent::BallIsWheel) => {
                self.mouse.on_ball_is_wheel(false);
                None
            },
            LayoutEvent::Press(CustomEvent::WheelUp) => {
                self.mouse.on_wheel(true);
                None
            },
            LayoutEvent::Press(CustomEvent::WheelDown) => {
                self.mouse.on_wheel(false);
                None
            },
            LayoutEvent::Press(CustomEvent::IncreaseCpi) => Some(
                CoreAction::Sensor(SensorCommand::IncreaseCpi),
            ),
            LayoutEvent::Press(CustomEvent::DecreaseCpi) => Some(
                CoreAction::Sensor(SensorCommand::DecreaseCpi),
            ),
            LayoutEvent::Press(CustomEvent::NextLedAnimation) => Some(
                CoreAction::Anim(AnimCommand::Next),
            ),
            LayoutEvent::Press(CustomEvent::ResetToUsbMassStorage) => Some(
                CoreAction::ResetToUsbBoot,
            ),
            LayoutEvent::Press(CustomEvent::NoMouseAction) => {
                if self.auto_mouse_timeout != 0 {
                    self.auto_mouse_timeout = 0;
                    self.on_mouse_inactive()
                } else {
                    None
                }
            },
            LayoutEvent::Release(_) => None,
            LayoutEvent::NoEvent => None,
        }
    }
}

/// The mouse after a custom event.
pub open spec fn mouse_after(mouse: MouseHandler, event: LayoutEvent) -> MouseHandler {
    match event {
        LayoutEvent::NoEvent => mouse,
        LayoutEvent::Press(e) => mouse_after_key(mouse, e, true),
        LayoutEvent::Release(e) => mouse_after_key(mouse, e, false),
    }
}

/// The mouse after the key of a custom event is pressed or released. The wheel turns only
/// when its keys are pressed.
pub open spec fn mouse_after_key(mouse: MouseHandler, event: CustomEvent, pressed: bool) -> MouseHandler {
    match event {
        CustomEvent::MouseLeftClick => MouseHandler { left_click: pressed, changed: true, ..mouse },
        CustomEvent::MouseRightClick => MouseHandler {
            right_click: pressed,
            changed: true,
            ..mouse
        },
        CustomEvent::MouseWheelClick => MouseHandler {
            wheel_click: pressed,
            changed: true,
            ..mouse
        },
        CustomEvent::BallIsWheel => MouseHandler {
            ball_is_wheel: pressed,
            changed: true,
            ..mouse
        },
        CustomEvent::WheelUp => if pressed {
            MouseHandler { wheel: 1, changed: true, ..mouse }
        } else {
            mouse
        },
        CustomEvent::WheelDown => if pressed {
            MouseHandler { wheel: (-1) as i8, changed: true, ..mouse }
        } else {
            mouse
        },
        _ => mouse,
    }
}

/// An action, if there is one.
pub open spec fn option_seq(action: Option<CoreAction>) -> Seq<CoreAction> {
    match action {
        Some(a) => seq![a],
        None => Seq::empty(),
    }
}

/// The reports that are sent: those that have changed.
pub open spec fn report_actions(before: Core, after: Core) -> Seq<CoreAction> {
    (if after.kb_report.same(before.kb_report) {
        Seq::empty()
    } else {
        seq![CoreAction::Keyboard(after.kb_report)]
    }) + (if after.consumer_report == before.consumer_report {
        Seq::empty()
    } else {
        seq![CoreAction::Consumer(after.consumer_report)]
    })
}

/// Both halves are told of a change of the color layer.
pub open spec fn color_actions(before: u8, after: u8) -> Seq<CoreAction> {
    if before == after {
        Seq::empty()
    } else {
        seq![
            CoreAction::Side(Event::RgbAnimChangeLayer(after)),
            CoreAction::Anim(AnimCommand::ChangeLayer(after)),
        ]
    }
}

/// The state after a number of ticks without mouse activity.
pub open spec fn idle_for(core: Core, n: int) -> Core
    decreases n,
{
    if n <= 0 {
        core
    } else {
        idle_for(core, n - 1).after_timeout()
    }
}

/// The mouse stays active for the whole timeout after its last activity, and no longer.
pub proof fn law_mouse_goes_idle(core: Core, n: int)
    requires
        0 <= n <= AUTO_MOUSE_TIMEOUT,
    ensures
        idle_for(core.activated(), n).mouse_active <==> n < AUTO_MOUSE_TIMEOUT,
        n == AUTO_MOUSE_TIMEOUT ==> idle_for(core.activated(), n) == core.deactivated(),
{
    lemma_idle(core, n);
}

proof fn lemma_idle(core: Core, n: int)
    requires
        0 <= n <= AUTO_MOUSE_TIMEOUT,
    ensures
        n < AUTO_MOUSE_TIMEOUT ==> idle_for(core.activated(), n) == (Core {
            auto_mouse_timeout: (AUTO_MOUSE_TIMEOUT - n) as usize,
            ..core.activated()
        }),
        n == AUTO_MOUSE_TIMEOUT ==> idle_for(core.activated(), n) == core.deactivated(),
    decreases n,
{
    if n > 0 {
        lemma_idle(core, n - 1);
    }
}

/// Up to six keys are told in the order in which they are pressed; with one more, all six
/// slots say that there are too many.
pub proof fn law_six_keys_at_a_time(keycodes: Seq<KeyCode>)
    requires
        forall|k: int| 0 <= k < keycodes.len() ==> is_regular((#[trigger] keycodes[k]).0),
    ensures
        keycodes.len() <= 6 ==> reports_of(keycodes) == (Reports {
            modifier: 0,
            keys: Seq::new(
                6,
                |k: int|
                    if k < keycodes.len() {
                        keycodes[k].0
                    } else {
                        0u8
                    },
            ),
            usage: 0,
        }),
        keycodes.len() > 6 ==> reports_of(keycodes) == error_reports(
            no_reports(),
            KC_ERROR_ROLL_OVER,
        ),
    decreases keycodes.len(),
{
    if keycodes.len() > 0 {
        let rest = keycodes.drop_last();
        law_six_keys_at_a_time(rest);
        assert(is_regular(keycodes.last().0)) by {
            assert(keycodes.last() == keycodes[keycodes.len() - 1]);
        }
        let r = reports_of(rest);
        if rest.len() <= 6 {
            lemma_free_slot(r.keys, 0, rest.len() as int);
        } else {
            lemma_free_slot(r.keys, 0, 6);
        }
        assert(reports_of(keycodes) == reports_with(r, keycodes.last().0));
    }
    if keycodes.len() <= 6 {
        assert(reports_of(keycodes).keys =~= Seq::new(
            6,
            |k: int|
                if k < keycodes.len() {
                    keycodes[k].0
                } else {
                    0u8
                },
        ));
    }
}

proof fn lemma_free_slot(keys: Seq<u8>, k: int, n: int)
    requires
        0 <= k <= n <= 6,
        keys.len() == 6,
        forall|i: int| k <= i < n ==> keys[i] != 0,
        n < 6 ==> keys[n] == 0,
    ensures
        free_slot(keys, k) == n,
    decreases n - k,
{
    if k < n {
        lemma_free_slot(keys, k + 1, n);
    }
}

/// The number of keys that need a slot of the keyboard report.
pub open spec fn count_regular(keycodes: Seq<KeyCode>) -> nat
    decreases keycodes.len(),
{
    if keycodes.len() == 0 {
        0
    } else {
        count_regular(keycodes.drop_last()) + if is_regular(keycodes.last().0) {
            1nat
        } else {
            0nat
        }
    }
}

/// Whether none of the keys is an error and there are not too many of them.
pub open spec fn is_reportable(keycodes: Seq<KeyCode>) -> bool {
    &&& forall|k: int|
        0 <= k < keycodes.len() ==> (#[trigger] keycodes[k]).0 == 0 || keycodes[k].0
            > KC_ERROR_UNDEFINED
    &&& count_regular(keycodes) <= 6
}

proof fn lemma_reportable_rest(keycodes: Seq<KeyCode>)
    requires
        is_reportable(keycodes),
        keycodes.len() > 0,
    ensures
        is_reportable(keycodes.drop_last()),
        keycodes.last().0 == 0 || keycodes.last().0 > KC_ERROR_UNDEFINED,
{
    assert(keycodes.last() == keycodes[keycodes.len() - 1]);
    assert forall|k: int| 0 <= k < keycodes.drop_last().len() implies (
    #[trigger] keycodes.drop_last()[k]).0 == 0 || keycodes.drop_last()[k].0
        > KC_ERROR_UNDEFINED by {
        assert(keycodes.drop_last()[k] == keycodes[k]);
    }
}

proof fn lemma_slots_fill(keycodes: Seq<KeyCode>)
    requires
        is_reportable(keycodes),
    ensures
        reports_of(keycodes).keys.len() == 6,
        forall|i: int|
            0 <= i < 6 ==> (#[trigger] reports_of(keycodes).keys[i] != 0 <==> i < count_regular(
                keycodes,
            )),
    decreases keycodes.len(),
{
    if keycodes.len() > 0 {
        let rest = keycodes.drop_last();
        lemma_reportable_rest(keycodes);
        lemma_slots_fill(rest);
        if is_regular(keycodes.last().0) {
            lemma_free_slot(reports_of(rest).keys, 0, count_regular(rest) as int);
        }
    }
}

/// As long as none of the keys is an error and there are not too many of them, the bit of
/// a modifier is set exactly if its key is among those that are pressed.
pub proof fn law_modifier_bits(keycodes: Seq<KeyCode>, kc: u8)
    requires
        KC_LEFT_CONTROL <= kc <= KC_RIGHT_GUI,
        is_reportable(keycodes),
    ensures
        reports_of(keycodes).modifier & modifier_bit(kc) != 0 <==> keycodes.contains(KeyCode(kc)),
    decreases keycodes.len(),
{
    let bit = modifier_bit(kc);
    if keycodes.len() == 0 {
        assert(0u8 & bit == 0) by (bit_vector);
    } else {
        let rest = keycodes.drop_last();
        lemma_reportable_rest(keycodes);
        law_modifier_bits(rest, kc);
        lemma_slots_fill(rest);
        let last = keycodes.last().0;
        let m = reports_of(rest).modifier;
        if KC_LEFT_CONTROL <= last <= KC_RIGHT_GUI {
            let (a, b) = ((kc - KC_LEFT_CONTROL) as u8, (last - KC_LEFT_CONTROL) as u8);
            assert((m | (1u8 << b)) & (1u8 << a) != 0 <==> m & (1u8 << a) != 0 || a == b)
                by (bit_vector)
                requires
                    a < 8,
                    b < 8,
            ;
        } else if is_regular(last) {
            lemma_free_slot(reports_of(rest).keys, 0, count_regular(rest) as int);
        }
        if keycodes.contains(KeyCode(kc)) && last != kc {
            let k = choose|k: int| 0 <= k < keycodes.len() && keycodes[k] == KeyCode(kc);
            assert(rest[k] == KeyCode(kc));
        }
        if rest.contains(KeyCode(kc)) {
            let k = choose|k: int| 0 <= k < rest.len() && rest[k] == KeyCode(kc);
            assert(keycodes[k] == KeyCode(kc));
        }
        if last == kc {
            assert(keycodes[keycodes.len() - 1] == KeyCode(kc));
        }
    }
}

/// The keys that need a slot of the keyboard report, in their order: those between the
/// error codes and the modifiers, without the keys for the sound.
pub open spec fn keys_for_slots(keycodes: Seq<KeyCode>) -> Seq<KeyCode> {
    keycodes.filter(
        |kc: KeyCode| 0x04 <= kc.0 <= 0xDF && kc.0 != 0x7F && kc.0 != 0x80 && kc.0 != 0x81,
    )
}

/// None of the keys is an error code.
pub open spec fn is_free_of_errors(keycodes: Seq<KeyCode>) -> bool {
    forall|k: int|
        0 <= k < keycodes.len() ==> (#[trigger] keycodes[k]).0 == 0 || keycodes[k].0 > 0x03
}

proof fn lemma_slots(keycodes: Seq<KeyCode>)
    requires
        is_free_of_errors(keycodes),
    ensures
        reports_of(keycodes).keys.len() == 6,
        keys_for_slots(keycodes).len() == count_regular(keycodes),
        keys_for_slots(keycodes).len() <= 6 ==> forall|i: int|
            0 <= i < 6 ==> #[trigger] reports_of(keycodes).keys[i] == if i < keys_for_slots(
                keycodes,
            ).len() {
                keys_for_slots(keycodes)[i].0
            } else {
                0
            },
        keys_for_slots(keycodes).len() > 6 ==> forall|i: int|
            0 <= i < 6 ==> #[trigger] reports_of(keycodes).keys[i] == 0x01,
        forall|i: int|
            0 <= i < keys_for_slots(keycodes).len() ==> (#[trigger] keys_for_slots(keycodes)[i]).0
                != 0,
    decreases keycodes.len(),
{
    reveal_with_fuel(Seq::filter, 2);
    if keycodes.len() > 0 {
        let rest = keycodes.drop_last();
        assert(keycodes.last() == keycodes[keycodes.len() - 1]);
        assert forall|k: int| 0 <= k < rest.len() implies (#[trigger] rest[k]).0 == 0 || rest[k].0
            > 0x03 by {
            assert(rest[k] == keycodes[k]);
        }
        lemma_slots(rest);
        let n = keys_for_slots(rest).len() as int;
        let keys = reports_of(rest).keys;
        if n <= 6 {
            lemma_free_slot(keys, 0, n);
        } else {
            lemma_free_slot(keys, 0, 6);
        }
    }
}

/// As long as no key is an error and at most six keys need a slot, the slots are exactly
/// those keys in their order, followed by zeros, whichever modifiers and media keys are
/// pressed with them. With more than six, all slots tell that there are too many.
pub proof fn law_slots_are_the_keys(
    keycodes: Vec<KeyCode>,
    r: (KeyboardReport, ConsumerReport),
    i: int,
)
    requires
        call_ensures(generate_hid_reports, (&keycodes,), r),
        is_free_of_errors(keycodes@),
        0 <= i < 6,
    ensures
        keys_for_slots(keycodes@).len() <= 6 ==> r.0.keycodes@[i] == if i < keys_for_slots(
            keycodes@,
        ).len() {
            keys_for_slots(keycodes@)[i].0
        } else {
            0
        },
        keys_for_slots(keycodes@).len() > 6 ==> r.0.keycodes@[i] == 0x01,
{
    lemma_slots(keycodes@);
}

/// As long as no key is an error and at most six keys need a slot, bit `n` of the modifiers
/// is set exactly if the modifier key with the code `0xE0 + n` is among those that are
/// pressed.
pub proof fn law_modifiers_are_the_keys(
    keycodes: Vec<KeyCode>,
    r: (KeyboardReport, ConsumerReport),
    n: u8,
)
    requires
        call_ensures(generate_hid_reports, (&keycodes,), r),
        is_free_of_errors(keycodes@),
        keys_for_slots(keycodes@).len() <= 6,
        n < 8,
    ensures
        r.0.modifier & (1u8 << n) != 0 <==> keycodes@.contains(KeyCode((0xE0 + n) as u8)),
{
    lemma_slots(keycodes@);
    law_modifier_bits(keycodes@, (0xE0 + n) as u8);
}

/// What one more key changes. A media key replaces the consumer usage and nothing else, each
/// with the usage of its own; an error code fills all slots and clears the modifiers; a
/// modifier leaves the slots alone; the other codes leave the usage alone, and those that
/// stand for no key change nothing.
pub proof fn law_one_more_key(
    keycodes: Vec<KeyCode>,
    with_one_more: Vec<KeyCode>,
    kc: u8,
    r: (KeyboardReport, ConsumerReport),
    more: (KeyboardReport, ConsumerReport),
)
    requires
        with_one_more@ == keycodes@.push(KeyCode(kc)),
        call_ensures(generate_hid_reports, (&keycodes,), r),
        call_ensures(generate_hid_reports, (&with_one_more,), more),
    ensures
        more.1.usage == match kc {
            0x7F => 0xE2u16,
            0x80 => 0xE9u16,
            0x81 => 0xEAu16,
            0xE8 => 0xCDu16,
            0xEA => 0xB6u16,
            0xEB => 0xB5u16,
            _ => r.1.usage,
        },
        kc == 0 || kc == 0x7F || kc == 0x80 || kc == 0x81 || kc >= 0xE8 ==> more.0.modifier
            == r.0.modifier && more.0.keycodes@ == r.0.keycodes@,
        0x01 <= kc <= 0x03 ==> more.0.modifier == 0 && more.0.keycodes@ == seq![
            kc,
            kc,
            kc,
            kc,
            kc,
            kc,
        ],
        0xE0 <= kc <= 0xE7 ==> more.0.keycodes@ == r.0.keycodes@ && more.0.modifier
            == r.0.modifier | (1u8 << ((kc - 0xE0) as u8)),
{
    assert(with_one_more@.drop_last() =~= keycodes@);
    let before = reports_of(keycodes@);
    let after = reports_of(with_one_more@);
    assert(after == reports_with(before, kc));
    if 0x01 <= kc <= 0x03 {
        assert(more.0.keycodes@ =~= seq![kc, kc, kc, kc, kc, kc]);
    }
}

/// Without any key, nothing is reported.
pub proof fn law_no_key_no_report(keycodes: Vec<KeyCode>, r: (KeyboardReport, ConsumerReport))
    requires
        call_ensures(generate_hid_reports, (&keycodes,), r),
        keycodes@.len() == 0,
    ensures
        r.0.modifier == 0,
        r.0.keycodes@ == seq![0u8, 0, 0, 0, 0, 0],
        r.1.usage == 0,
{
    assert(r.0.keycodes@ =~= seq![0u8, 0, 0, 0, 0, 0]);
}

/// The keys of the mouse: a button is held exactly from the press to the release of its key,
/// and so is the ball as a wheel. The change is to be reported, and nothing else changes.
pub proof fn law_mouse_keys(
    core: &mut Core,
    key: CustomEvent,
    pressed: bool,
    action: Option<CoreAction>,
)
    requires
        old(core).wf(),
        call_ensures(
            Core::process_custom_event,
            (
                core,
                if pressed {
                    LayoutEvent::Press(key)
                } else {
                    LayoutEvent::Release(key)
                },
            ),
            action,
        ),
        key == CustomEvent::MouseLeftClick || key == CustomEvent::MouseRightClick || key
            == CustomEvent::MouseWheelClick || key == CustomEvent::BallIsWheel,
    ensures
        action is None,
        final(core).mouse.changed,
        final(core).mouse.left_click == if key == CustomEvent::MouseLeftClick {
            pressed
        } else {
            old(core).mouse.left_click
        },
        final(core).mouse.right_click == if key == CustomEvent::MouseRightClick {
            pressed
        } else {
            old(core).mouse.right_click
        },
        final(core).mouse.wheel_click == if key == CustomEvent::MouseWheelClick {
            pressed
        } else {
            old(core).mouse.wheel_click
        },
        final(core).mouse.ball_is_wheel == if key == CustomEvent::BallIsWheel {
            pressed
        } else {
            old(core).mouse.ball_is_wheel
        },
        final(core).mouse.dx == old(core).mouse.dx,
        final(core).mouse.dy == old(core).mouse.dy,
        final(core).mouse.wheel == old(core).mouse.wheel,
        final(core).mouse.pressure == old(core).mouse.pressure,
        *final(core) == (Core { mouse: final(core).mouse, ..*old(core) }),
{
}

/// The keys of the wheel: it turns by one, up or down, when its key is pressed, and stays
/// when it is released. Nothing else changes.
pub proof fn law_wheel_keys(core: &mut Core, event: LayoutEvent, action: Option<CoreAction>)
    requires
        old(core).wf(),
        call_ensures(Core::process_custom_event, (core, event), action),
    ensures
        event == LayoutEvent::Press(CustomEvent::WheelUp) ==> action is None && *final(core) == (
        Core {
            mouse: (MouseHandler { wheel: 1, changed: true, ..old(core).mouse }),
            ..*old(core)
        }),
        event == LayoutEvent::Press(CustomEvent::WheelDown) ==> action is None && final(core).mouse.wheel == -1 && *final(core) == (Core {
            mouse: (MouseHandler {
                wheel: final(core).mouse.wheel,
                changed: true,
                ..old(core).mouse
            }),
            ..*old(core)
        }),
        event == LayoutEvent::Release(CustomEvent::WheelUp) || event == LayoutEvent::Release(
            CustomEvent::WheelDown,
        ) || event == LayoutEvent::NoEvent ==> action is None && *final(core) == *old(core),
{
}

/// The keys that ask for something else: each for its own, once, when it is pressed. The
/// mouse stays as it is.
pub proof fn law_command_keys(core: &mut Core, event: LayoutEvent, action: Option<CoreAction>)
    requires
        old(core).wf(),
        call_ensures(Core::process_custom_event, (core, event), action),
    ensures
        action == Some(CoreAction::Sensor(SensorCommand::IncreaseCpi)) <==> event
            == LayoutEvent::Press(CustomEvent::IncreaseCpi),
        action == Some(CoreAction::Sensor(SensorCommand::DecreaseCpi)) <==> event
            == LayoutEvent::Press(CustomEvent::DecreaseCpi),
        action == Some(CoreAction::Anim(AnimCommand::Next)) <==> event == LayoutEvent::Press(
            CustomEvent::NextLedAnimation,
        ),
        action == Some(CoreAction::ResetToUsbBoot) <==> event == LayoutEvent::Press(
            CustomEvent::ResetToUsbMassStorage,
        ),
        action == Some(CoreAction::Layout(KeyEvent::Release(3, 0))) <==> event
            == LayoutEvent::Press(CustomEvent::NoMouseAction) && old(core).mouse_active,
        event == LayoutEvent::Press(CustomEvent::NoMouseAction) ==> *final(core) == (Core {
            mouse_active: false,
            auto_mouse_timeout: 0,
            ..*old(core)
        }),
        event == LayoutEvent::Release(CustomEvent::IncreaseCpi) || event == LayoutEvent::Release(
            CustomEvent::DecreaseCpi,
        ) || event == LayoutEvent::Release(CustomEvent::NextLedAnimation) || event
            == LayoutEvent::Release(CustomEvent::ResetToUsbMassStorage) || event
            == LayoutEvent::Release(CustomEvent::NoMouseAction) ==> *final(core) == *old(core),
        action is Some && event != LayoutEvent::Press(CustomEvent::NoMouseAction) ==> *final(core)
            == *old(core),
        event is Release ==> action is None,
{
}

/// A report of the mouse is what the mouse tells. When the pointer moves, a button is held
/// or the pad is pressed, the mouse becomes active for the whole timeout, and the virtual
/// mouse key is pressed if it is not yet. The wheel alone does not do so.
pub proof fn law_moves_make_the_mouse_active(
    core: &mut Core,
    m: MouseMove,
    r: Option<(MouseReport, Option<CoreAction>)>,
)
    requires
        old(core).wf(),
        call_ensures(Core::tick_mouse, (core, Some(m), true), r),
        old(core).board == Board::Cnano || m.pressure >= 10,
    ensures
        r matches Some((report, action)) && {
            let active = report.x != 0 || report.y != 0 || report.buttons != 0 || (old(core).board
                == Board::Dilemma && m.pressure >= 27);
            &&& !old(core).mouse.ball_is_wheel ==> report.x == m.dx && report.y == m.dy
                && report.wheel == old(core).mouse.wheel
            &&& old(core).mouse.ball_is_wheel ==> report.x == 0 && report.y == 0
            &&& active ==> final(core).mouse_active && final(core).auto_mouse_timeout == 10
            &&& !active ==> final(core).mouse_active == old(core).mouse_active && final(core).auto_mouse_timeout == old(core).auto_mouse_timeout
            &&& action == if active && !old(core).mouse_active {
                Some(CoreAction::Layout(KeyEvent::Press(3, 0)))
            } else {
                None
            }
        },
        final(core).kb_report == old(core).kb_report,
        final(core).consumer_report == old(core).consumer_report,
        final(core).current_layer == old(core).current_layer,
{
}

/// Nothing new from the mouse is not reported, and a half that is not connected to the host
/// reports nothing.
pub proof fn law_quiet_mouse(
    core: &mut Core,
    received: Option<MouseMove>,
    is_host: bool,
    r: Option<(MouseReport, Option<CoreAction>)>,
)
    requires
        old(core).wf(),
        call_ensures(Core::tick_mouse, (core, received, is_host), r),
        !is_host || (received is None && !old(core).mouse.changed),
    ensures
        r is None,
        final(core).mouse_active == old(core).mouse_active,
        final(core).auto_mouse_timeout == old(core).auto_mouse_timeout,
{
}

/// The timeout of the mouse runs down by one per tick. The virtual mouse key is released in
/// the tick in which it ends, and then only.
pub proof fn law_timeout_runs_down(core: &mut Core, action: Option<CoreAction>)
    requires
        old(core).wf(),
        call_ensures(Core::tick_timeout, (core,), action),
    ensures
        old(core).auto_mouse_timeout > 0 ==> final(core).auto_mouse_timeout == old(core).auto_mouse_timeout - 1,
        old(core).auto_mouse_timeout == 0 ==> final(core).auto_mouse_timeout == 0,
        final(core).mouse_active <==> final(core).auto_mouse_timeout > 0,
        action == if old(core).mouse_active && !final(core).mouse_active {
            Some(CoreAction::Layout(KeyEvent::Release(3, 0)))
        } else {
            None
        },
        *final(core) == (Core {
            mouse_active: final(core).mouse_active,
            auto_mouse_timeout: final(core).auto_mouse_timeout,
            ..*old(core)
        }),
{
}

/// The reports that are kept are those of the keys that are pressed, and a report is sent
/// exactly if it says something else than the one before.
pub proof fn law_changed_reports_are_sent(
    core: &mut Core,
    event: LayoutEvent,
    keycodes: Vec<KeyCode>,
    new_layer: usize,
    actions: Vec<CoreAction>,
    r: (KeyboardReport, ConsumerReport),
)
    requires
        old(core).wf(),
        call_ensures(Core::tick_layout, (core, event, &keycodes, new_layer), actions),
        call_ensures(generate_hid_reports, (&keycodes,), r),
    ensures
        final(core).kb_report.modifier == r.0.modifier,
        final(core).kb_report.keycodes@ == r.0.keycodes@,
        final(core).consumer_report.usage == r.1.usage,
        actions@.contains(CoreAction::Keyboard(final(core).kb_report)) <==> !(r.0.modifier == old(core).kb_report.modifier && r.0.keycodes@ == old(core).kb_report.keycodes@),
        actions@.len() == (if old(core).custom_action(event) is Some {
            1int
        } else {
            0int
        }) + (if r.0.modifier == old(core).kb_report.modifier && r.0.keycodes@ == old(core).kb_report.keycodes@ {
            0int
        } else {
            1int
        }) + (if r.1.usage == old(core).consumer_report.usage {
            0int
        } else {
            1int
        }) + (if final(core).color_layer == old(core).color_layer {
            0int
        } else {
            2int
        }),
        actions@.contains(CoreAction::Consumer(final(core).consumer_report)) <==> r.1.usage != old(core).consumer_report.usage,
{
    let first = option_seq(old(core).custom_action(event));
    let second = report_actions(*old(core), *final(core));
    let third = color_actions(old(core).color_layer, final(core).color_layer);
    assert(actions@ == first + second + third);
    let kb = CoreAction::Keyboard(final(core).kb_report);
    let consumer = CoreAction::Consumer(final(core).consumer_report);
    let same_kb = final(core).kb_report.same(old(core).kb_report);
    if !same_kb {
        assert(actions@[first.len() as int] == kb);
    }
    if final(core).consumer_report != old(core).consumer_report {
        assert(actions@[first.len() + second.len() - 1] == consumer);
    }
}

/// A change of the layer is told to the leds of both halves, with the number of the layer;
/// no change is told of a layer that stays.
pub proof fn law_layer_change_is_told(
    core: &mut Core,
    event: LayoutEvent,
    keycodes: Vec<KeyCode>,
    new_layer: usize,
    actions: Vec<CoreAction>,
)
    requires
        old(core).wf(),
        call_ensures(Core::tick_layout, (core, event, &keycodes, new_layer), actions),
        new_layer < 256,
    ensures
        final(core).current_layer == new_layer,
        new_layer == old(core).current_layer ==> final(core).color_layer == old(core).color_layer,
        new_layer != old(core).current_layer ==> final(core).color_layer == new_layer,
        new_layer != old(core).current_layer && old(core).color_layer != new_layer ==> actions@.len()
            >= 2 && actions@[actions@.len() - 2] == CoreAction::Side(
            Event::RgbAnimChangeLayer(new_layer as u8),
        ) && actions@.last() == CoreAction::Anim(AnimCommand::ChangeLayer(new_layer as u8)),
        new_layer == old(core).current_layer || old(core).color_layer == new_layer ==> forall|k: int|
            0 <= k < actions@.len() ==> !(#[trigger] actions@[k] is Side),
{
}

/// A tick of the layout does with a custom event what that event asks for, before anything
/// else.
pub proof fn law_custom_event_comes_first(
    core: &mut Core,
    alone: &mut Core,
    event: LayoutEvent,
    keycodes: Vec<KeyCode>,
    new_layer: usize,
    actions: Vec<CoreAction>,
    action: Option<CoreAction>,
)
    requires
        old(core).wf(),
        *old(alone) == *old(core),
        call_ensures(Core::tick_layout, (core, event, &keycodes, new_layer), actions),
        call_ensures(Core::process_custom_event, (alone, event), action),
    ensures
        final(core).mouse == final(alone).mouse,
        final(core).mouse_active == final(alone).mouse_active,
        final(core).auto_mouse_timeout == final(alone).auto_mouse_timeout,
        action matches Some(a) ==> actions@.len() > 0 && actions@[0] == a,
{
}

/// What one more key that needs a slot changes: it takes the first free slot and nothing else
/// changes; where there is none, all slots tell that there are too many keys, and no modifier
/// is told.
pub proof fn law_one_more_key_takes_a_slot(
    keycodes: Vec<KeyCode>,
    with_one_more: Vec<KeyCode>,
    kc: u8,
    r: (KeyboardReport, ConsumerReport),
    more: (KeyboardReport, ConsumerReport),
    free: int,
)
    requires
        with_one_more@ == keycodes@.push(KeyCode(kc)),
        call_ensures(generate_hid_reports, (&keycodes,), r),
        call_ensures(generate_hid_reports, (&with_one_more,), more),
        0x04 <= kc <= 0xDF,
        kc != 0x7F && kc != 0x80 && kc != 0x81,
        0 <= free <= 6,
        forall|k: int| 0 <= k < free ==> r.0.keycodes@[k] != 0,
        free < 6 ==> r.0.keycodes@[free] == 0,
    ensures
        free < 6 ==> more.0.keycodes@ == r.0.keycodes@.update(free, kc) && more.0.modifier
            == r.0.modifier,
        free == 6 ==> more.0.keycodes@ == seq![1u8, 1, 1, 1, 1, 1] && more.0.modifier == 0,
{
    assert(with_one_more@.drop_last() =~= keycodes@);
    let before = reports_of(keycodes@);
    assert(before.keys == r.0.keycodes@);
    lemma_free_slot(before.keys, 0, free);
    assert(reports_of(with_one_more@) == reports_with(before, kc));
    if free == 6 {
        assert(more.0.keycodes@ =~= seq![1u8, 1, 1, 1, 1, 1]);
    }
}

/// A report that is set as an error has the error in all of its slots, and no modifier.
pub proof fn law_error_report(report: &mut KeyboardReport, kc: u8, k: int)
    requires
        call_ensures(keyboard_report_set_error, (report, kc), ()),
        0 <= k < 6,
    ensures
        final(report).modifier == 0,
        final(report).keycodes@[k] == kc,
{
}

/// The mouse reports what its handler does. The mouse becomes active when a report moves the
/// pointer, holds a button or comes with pressure, and only then.
pub proof fn law_mouse_report_is_that_of_the_handler(
    core: &mut Core,
    mouse: &mut MouseHandler,
    received: Option<MouseMove>,
    is_host: bool,
    r: Option<(MouseReport, Option<CoreAction>)>,
    told: Option<(MouseReport, bool)>,
)
    requires
        old(core).wf(),
        call_ensures(Core::tick_mouse, (core, received, is_host), r),
        *old(mouse) == old(core).mouse,
        call_ensures(MouseHandler::tick, (mouse, old(core).board, received, is_host), told),
    ensures
        *final(core) == (Core {
            mouse: *final(mouse),
            mouse_active: final(core).mouse_active,
            auto_mouse_timeout: final(core).auto_mouse_timeout,
            ..*old(core)
        }),
        r is Some <==> told is Some,
        told is None ==> final(core).mouse_active == old(core).mouse_active && final(core).auto_mouse_timeout == old(core).auto_mouse_timeout,
        told matches Some((report, has_pressure)) ==> (r matches Some((sent, action)) && sent
            == report && {
            let active = report.x != 0 || report.y != 0 || report.buttons != 0 || has_pressure;
            &&& active ==> final(core).mouse_active && final(core).auto_mouse_timeout == 10
            &&& !active ==> final(core).mouse_active == old(core).mouse_active && final(core).auto_mouse_timeout == old(core).auto_mouse_timeout
            &&& action is Some <==> active && !old(core).mouse_active
            &&& action matches Some(a) ==> a == CoreAction::Layout(KeyEvent::Press(3, 0))
        }),
{
}

/// A new core has no key pressed, is on the first layer and has the mouse at rest.
pub proof fn law_new_core(board: Board, core: Core, mouse: MouseHandler)
    requires
        call_ensures(Core::new, (board,), core),
        call_ensures(MouseHandler::new, (), mouse),
    ensures
        core.board == board,
        core.current_layer == 0,
        core.color_layer == 0,
        !core.mouse_active,
        core.auto_mouse_timeout == 0,
        core.mouse == mouse,
        core.kb_report.modifier == 0,
        core.kb_report.keycodes@ == seq![0u8, 0, 0, 0, 0, 0],
        core.consumer_report.usage == 0,
{
    assert(core.kb_report.keycodes@ =~= seq![0u8, 0, 0, 0, 0, 0]);
}

} // verus!
