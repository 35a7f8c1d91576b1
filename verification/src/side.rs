//! Handling the other half of the keyboard.
use vstd::prelude::*;

use crate::board::Board;
use crate::keys::KeyEvent;
use crate::protocol::{Hardware, HwCall, SideProtocol};
use crate::rgb_leds::AnimCommand;
use crate::serde::{Event, Message};

verus! {

/// The word that is sent when there is no message
pub const KEEPALIVE: Message = 0;

/// Time between two reports of the statistics, in ms
pub const STATS_PERIOD_MS: u64 = 5000;

/// Protocol layer Hardware implementation: what is to be sent and shown is kept until the
/// tasks that do so take it.
pub struct HwProtocol {
    /// Whether the error is shown
    pub on_error: bool,
    /// Messages to be sent
    pub tx: Vec<Message>,
    /// Commands for the leds
    pub anims: Vec<AnimCommand>,
    /// The calls so far
    pub calls: Ghost<Seq<HwCall>>,
}

impl Hardware for HwProtocol {
    open spec fn wire(&self) -> Seq<Message> {
        self.tx@
    }

    open spec fn error_state(&self) -> bool {
        self.on_error
    }

    open spec fn calls(&self) -> Seq<HwCall> {
        self.calls@
    }

    /// The error state and the commands for the leds follow from the calls.
    open spec fn wf(&self) -> bool {
        &&& self.on_error == shown_error(self.calls@)
        &&& self.anims@ == waiting_commands(self.calls@)
    }

    fn queue_send(&mut self, msg: Message)
        ensures
            final(self).anims == old(self).anims,
    {
        self.tx.push(msg);
        self.calls = Ghost(self.calls@.push(HwCall::QueueSend(msg)));
        assert(self.calls@.drop_last() =~= old(self).calls@);
    }

    /// Set error state: the leds are told when it changes
    fn set_error_state(&mut self, error: bool)
        ensures
            final(self).anims@ == error_commands(old(self).anims@, old(self).on_error, error),
    {
        if error && !self.on_error {
            self.on_error = true;
            self.anims.push(AnimCommand::Error);
        }
        if !error && self.on_error {
            self.on_error = false;
            self.anims.push(AnimCommand::Fixed);
        }
        self.calls = Ghost(self.calls@.push(HwCall::SetErrorState(error)));
        assert(self.calls@.drop_last() =~= old(self).calls@);
    }
}

/// Whether an error is shown after the calls; none is at the start.
pub open spec fn shown_error(calls: Seq<HwCall>) -> bool
    decreases calls.len(),
{
    if calls.len() == 0 {
        false
    } else {
        match calls.last() {
            HwCall::SetErrorState(error) => error,
            _ => shown_error(calls.drop_last()),
        }
    }
}

/// The commands for the leds that wait after the calls.
pub open spec fn waiting_commands(calls: Seq<HwCall>) -> Seq<AnimCommand>
    decreases calls.len(),
{
    if calls.len() == 0 {
        Seq::empty()
    } else {
        let before = calls.drop_last();
        match calls.last() {
            HwCall::QueueSend(_) => waiting_commands(before),
            HwCall::SetErrorState(error) => error_commands(
                waiting_commands(before),
                shown_error(before),
                error,
            ),
            HwCall::TakeCommands => Seq::empty(),
        }
    }
}

/// The commands for the leds after the error state was set.
pub open spec fn error_commands(anims: Seq<AnimCommand>, before: bool, error: bool) -> Seq<
    AnimCommand,
> {
    if error && !before {
        anims.push(AnimCommand::Error)
    } else if !error && before {
        anims.push(AnimCommand::Fixed)
    } else {
        anims
    }
}

impl HwProtocol {
    /// Create the hardware side of the protocol: there is no error and nothing to do
    pub fn new() -> (hw: Self)
        ensures
            !hw.on_error,
            hw.tx@ == Seq::<Message>::empty(),
            hw.anims@ == Seq::<AnimCommand>::empty(),
            hw.calls@ == Seq::<HwCall>::empty(),
            hw.wf(),
    {
        HwProtocol {
            on_error: false,
            tx: Vec::new(),
            anims: Vec::new(),
            calls: Ghost(Seq::empty()),
        }
    }

    /// Take the messages that are to be sent, oldest first
    pub fn take_messages(&mut self) -> (msgs: Vec<Message>)
        ensures
            msgs@ == old(self).tx@,
            final(self).tx@ == Seq::<Message>::empty(),
            final(self).on_error == old(self).on_error,
            final(self).anims == old(self).anims,
            final(self).calls == old(self).calls,
    {
        let mut msgs: Vec<Message> = Vec::new();
        core::mem::swap(&mut msgs, &mut self.tx);
        msgs
    }

    /// Take the commands for the leds, oldest first
    pub fn take_commands(&mut self) -> (commands: Vec<AnimCommand>)
        ensures
            commands@ == old(self).anims@,
            final(self).anims@ == Seq::<AnimCommand>::empty(),
            final(self).on_error == old(self).on_error,
            final(self).tx == old(self).tx,
            final(self).calls@ == old(self).calls@.push(HwCall::TakeCommands),
            old(self).wf() ==> final(self).wf(),
    {
        let mut commands: Vec<AnimCommand> = Vec::new();
        core::mem::swap(&mut commands, &mut self.anims);
        self.calls = Ghost(self.calls@.push(HwCall::TakeCommands));
        assert(self.calls@.drop_last() =~= old(self).calls@);
        commands
    }
}

/// A message that is corrupt or out of turn makes the leds show an error, if they do not
/// show one already. No other message tells the leds anything.
pub proof fn law_error_is_shown(
    before: SideProtocol<HwProtocol>,
    after: SideProtocol<HwProtocol>,
    msg: Message,
)
    requires
        before.wf(),
        after.wf(),
        after@ == crate::protocol::link_receive(before@, msg),
    ensures
        crate::protocol::is_asked_again(before@, msg) ==> after.hw.on_error && after.hw.anims@
            == error_commands(before.hw.anims@, before.hw.on_error, true),
        !crate::protocol::is_asked_again(before@, msg) ==> after.hw.on_error == before.hw.on_error
            && after.hw.anims@ == before.hw.anims@,
{
    reveal_with_fuel(waiting_commands, 3);
    reveal_with_fuel(shown_error, 3);
    let calls = before@.calls;
    let told = calls.push(HwCall::SetErrorState(true));
    assert(told.drop_last() =~= calls);
    if crate::protocol::is_asked_again(before@, msg) {
        assert(after@.calls.drop_last() =~= told);
    } else if after@.calls != calls {
        assert(after@.calls.drop_last() =~= calls);
    }
}

/// The word to send: the next message, or a keepalive to keep the timing
pub fn word_to_send(queued: Option<Message>) -> (word: Message)
    ensures
        word == match queued {
            Some(msg) => msg,
            None => KEEPALIVE,
        },
{
    match queued {
        Some(msg) => msg,
        None => KEEPALIVE,
    }
}

/// The message that a word is, if it is no keepalive
pub fn received_message(word: Message) -> (msg: Option<Message>)
    ensures
        msg == if word == KEEPALIVE {
            None
        } else {
            Some(word)
        },
{
    // Filter out keepalive messages
    if word != KEEPALIVE {
        Some(word)
    } else {
        None
    }
}

/// No message is taken for a keepalive, and a keepalive would not be read as an event.
pub proof fn law_keepalive_hides_no_message(event: Event, sid: crate::sid::Sid)
    requires
        crate::serde::serializable(event),
        sid.valid(),
    ensures
        crate::serde::encode(event, sid) != KEEPALIVE,
        crate::serde::decode(KEEPALIVE) is None,
{
    crate::serde::law_keepalive_is_no_message(event, sid);
}

/// What an event of the other half asks for
#[derive(Debug, Clone, Copy, PartialEq, Eq, Structural)]
pub enum SideAction {
    /// Tell the keymap of a key
    Layout(KeyEvent),
    /// Tell the leds
    Anim(AnimCommand),
}

/// What an event asks for.
pub open spec fn event_action(event: Event) -> Option<SideAction> {
    match event {
        Event::Press(i, j) => Some(SideAction::Layout(KeyEvent::Press(i, j))),
        Event::Release(i, j) => Some(SideAction::Layout(KeyEvent::Release(i, j))),
        Event::RgbAnim(anim) => Some(SideAction::Anim(AnimCommand::SetAnim(anim))),
        Event::RgbAnimChangeLayer(layer) => Some(
            SideAction::Anim(AnimCommand::ChangeLayer(layer)),
        ),
        _ => None,
    }
}

/// Process an event. Seeding the random number generator is not supported.
pub fn process_event(event: Event) -> (action: Option<SideAction>)
    requires
        !(event is SeedRng),
    ensures
        action == event_action(event),
{
    match event {
        Event::Press(i, j) => Some(SideAction::Layout(KeyEvent::Press(i, j))),
        Event::Release(i, j) => Some(SideAction::Layout(KeyEvent::Release(i, j))),
        Event::RgbAnim(anim) => Some(SideAction::Anim(AnimCommand::SetAnim(anim))),
        Event::RgbAnimChangeLayer(layer) => Some(SideAction::Anim(AnimCommand::ChangeLayer(layer))),
        _ => None,
    }
}

/// Whether the status led is at its high level. It is on while an event is processed; the
/// led of the Charybdis Nano is on at the low level.
pub fn status_led_is_high(board: Board, processing: bool) -> (high: bool)
    ensures
        high == (processing == (board == Board::Dilemma)),
{
    match board {
        Board::Cnano => !processing,
        Board::Dilemma => processing,
    }
}

/// Message statistics
#[derive(Debug, Clone, Copy, PartialEq, Eq, Structural)]
pub struct Stats {
    /// Real messages sent counter
    pub sent_real: usize,
    /// Noop messages sent counter
    pub sent_noop: usize,
    /// Real messages received counter
    pub received_real: usize,
    /// Noop messages received counter
    pub received_noop: usize,
}

/// The statistics with one more event sent.
pub open spec fn stats_sent(stats: Stats, event: Event) -> Stats {
    if event is Noop {
        Stats { sent_noop: (stats.sent_noop + 1) as usize, ..stats }
    } else {
        Stats { sent_real: (stats.sent_real + 1) as usize, ..stats }
    }
}

/// The statistics with one more event received.
pub open spec fn stats_received(stats: Stats, event: Event) -> Stats {
    if event is Noop {
        Stats { received_noop: (stats.received_noop + 1) as usize, ..stats }
    } else {
        Stats { received_real: (stats.received_real + 1) as usize, ..stats }
    }
}

/// The statistics at the start of a period.
pub open spec fn no_stats() -> Stats {
    Stats { sent_real: 0, sent_noop: 0, received_real: 0, received_noop: 0 }
}

/// Communication between the two sides
pub struct SidesComms<W: Hardware> {
    /// Protocol to communicate with the other side
    pub protocol: SideProtocol<W>,
    /// Message statistics
    pub stats: Stats,
    /// Time of the last report of the statistics, in ms
    pub stats_last_report: u64,
}

impl<W: Hardware> SidesComms<W> {
    /// The protocol is consistent.
    pub open spec fn wf(self) -> bool {
        self.protocol.wf()
    }

    /// Create a new event buffer, at the given time in ms
    pub fn new(name: &'static str, hw: W, now: u64) -> (comms: Self)
        requires
            hw.wf(),
        ensures
            comms.wf(),
            comms.protocol.hw == hw,
            comms.protocol.name == name,
            comms.protocol@ == crate::protocol::link_new(
                hw.wire(),
                hw.error_state(),
                hw.calls(),
            ),
            comms.stats == no_stats(),
            comms.stats_last_report == now,
    {
        SidesComms {
            protocol: SideProtocol::new(hw, name),
            stats: Stats { sent_real: 0, sent_noop: 0, received_real: 0, received_noop: 0 },
            stats_last_report: now,
        }
    }

    /// Check if it's time to report stats: if so, tells them and starts anew
    pub fn report_stats(&mut self, now: u64) -> (report: Option<Stats>)
        requires
            old(self).stats_last_report <= now,
        ensures
            final(self).protocol == old(self).protocol,
            now - old(self).stats_last_report >= STATS_PERIOD_MS ==> {
                &&& report == Some(old(self).stats)
                &&& final(self).stats == no_stats()
                &&& final(self).stats_last_report == now
            },
            now - old(self).stats_last_report < STATS_PERIOD_MS ==> {
                &&& report is None
                &&& final(self).stats == old(self).stats
                &&& final(self).stats_last_report == old(self).stats_last_report
            },
    {
        if now - self.stats_last_report >= STATS_PERIOD_MS {
            let report = self.stats;
            self.stats =
            Stats { sent_real: 0, sent_noop: 0, received_real: 0, received_noop: 0 };
            self.stats_last_report = now;
            Some(report)
        } else {
            None
        }
    }

    /// An event of this half: the other one is told
    pub fn on_local_event(&mut self, event: Event)
        requires
            old(self).wf(),
            crate::serde::serializable(event),
            event is Noop ==> old(self).stats.sent_noop < usize::MAX,
            !(event is Noop) ==> old(self).stats.sent_real < usize::MAX,
        ensures
            final(self).wf(),
            final(self).protocol.name == old(self).protocol.name,
            final(self).protocol@ == crate::protocol::link_queue(old(self).protocol@, event),
            final(self).stats == stats_sent(old(self).stats, event),
            final(self).stats_last_report == old(self).stats_last_report,
    {
        // Track noop vs real messages
        if event.is_noop() {
            self.stats.sent_noop = self.stats.sent_noop + 1;
        } else {
            self.stats.sent_real = self.stats.sent_real + 1;
        }
        self.protocol.queue_event(event);
    }

    /// Whether a message of the other half can be handled: the protocol can handle it, and
    /// it does not bring the seed of a random number generator
    pub fn accepts(&self, msg: Message) -> (b: bool)
        requires
            self.wf(),
        ensures
            b == (crate::protocol::link_accepts(self.protocol@, msg) && !(
            crate::protocol::link_delivers(self.protocol@, msg) matches Some(Event::SeedRng(_)))),
    {
        if !self.protocol.accepts(msg) {
            return false;
        }
        match self.protocol.event_of_message(msg) {
            Some(Event::SeedRng(_)) => false,
            _ => true,
        }
    }

    /// A message of the other half has been received
    /// Returns what its event asks for, if it brings one
    pub fn on_message(&mut self, msg: Message) -> (action: Option<SideAction>)
        requires
            old(self).wf(),
            crate::protocol::link_accepts(old(self).protocol@, msg),
            !(crate::protocol::link_delivers(old(self).protocol@, msg) matches Some(
                Event::SeedRng(_),
            )),
            crate::protocol::link_delivers(old(self).protocol@, msg) is Some ==> old(self).stats.received_real < usize::MAX,
        ensures
            final(self).wf(),
            final(self).protocol.name == old(self).protocol.name,
            final(self).protocol@ == crate::protocol::link_receive(old(self).protocol@, msg),
            final(self).stats_last_report == old(self).stats_last_report,
            match crate::protocol::link_delivers(old(self).protocol@, msg) {
                Some(event) => action == event_action(event) && final(self).stats
                    == stats_received(old(self).stats, event),
                None => action is None && final(self).stats == old(self).stats,
            },
    {
        match self.protocol.process_received_message(msg) {
            Some(event) => {
                let action = process_event(event);
                // Track noop vs real messages
                if event.is_noop() {
                    self.stats.received_noop = self.stats.received_noop + 1;
                } else {
                    self.stats.received_real = self.stats.received_real + 1;
                }
                action
            },
            None => None,
        }
    }
}

/// An event of the other half is followed as it is: a key is told to the keymap as pressed or
/// released, at its row and column, and the leds are told the animation or the layer. The
/// messages that only keep the connection going ask for nothing.
pub proof fn law_event_is_followed(event: Event, action: Option<SideAction>)
    requires
        call_ensures(process_event, (event,), action),
        !(event is SeedRng),
    ensures
        event matches Event::Press(i, j) ==> action == Some(
            SideAction::Layout(KeyEvent::Press(i, j)),
        ),
        event matches Event::Release(i, j) ==> action == Some(
            SideAction::Layout(KeyEvent::Release(i, j)),
        ),
        event matches Event::RgbAnim(anim) ==> action == Some(
            SideAction::Anim(AnimCommand::SetAnim(anim)),
        ),
        event matches Event::RgbAnimChangeLayer(layer) ==> action == Some(
            SideAction::Anim(AnimCommand::ChangeLayer(layer)),
        ),
        event is Noop || event is Ping || event is Ack || event is Retransmit ==> action is None,
{
}

/// Telling the other half of an event is queueing it, and counts as one message: as a noop
/// or as a real one.
pub proof fn law_local_event_is_queued<W: Hardware>(
    comms: &mut SidesComms<W>,
    p: &mut SideProtocol<W>,
    event: Event,
)
    requires
        old(comms).wf(),
        crate::serde::serializable(event),
        old(comms).stats.sent_noop < usize::MAX,
        old(comms).stats.sent_real < usize::MAX,
        call_ensures(SidesComms::<W>::on_local_event, (comms, event), ()),
        old(p)@ == old(comms).protocol@,
        call_ensures(SideProtocol::<W>::queue_event, (p, event), ()),
    ensures
        final(comms).protocol@ == final(p)@,
        final(comms).stats.sent_noop == old(comms).stats.sent_noop + if event is Noop {
            1int
        } else {
            0int
        },
        final(comms).stats.sent_real == old(comms).stats.sent_real + if event is Noop {
            0int
        } else {
            1int
        },
        final(comms).stats.received_noop == old(comms).stats.received_noop,
        final(comms).stats.received_real == old(comms).stats.received_real,
{
}

/// A message of the other half is processed by the protocol. What its event asks for, if it
/// brings one, is what is returned, and the event is counted.
pub proof fn law_message_is_processed<W: Hardware>(
    comms: &mut SidesComms<W>,
    p: &mut SideProtocol<W>,
    msg: Message,
    action: Option<SideAction>,
    event: Option<Event>,
    asked: Option<SideAction>,
)
    requires
        old(comms).wf(),
        call_ensures(SidesComms::<W>::on_message, (comms, msg), action),
        old(p)@ == old(comms).protocol@,
        call_ensures(SideProtocol::<W>::process_received_message, (p, msg), event),
        event matches Some(e) ==> call_ensures(process_event, (e,), asked) && !(e is Noop)
            && old(comms).stats.received_real < usize::MAX,
    ensures
        final(comms).protocol@ == final(p)@,
        event is None ==> action is None && final(comms).stats == old(comms).stats,
        event is Some ==> action == asked && final(comms).stats.received_real == old(comms).stats.received_real + 1 && final(comms).stats.received_noop == old(comms).stats.received_noop && final(comms).stats.sent_real == old(comms).stats.sent_real
            && final(comms).stats.sent_noop == old(comms).stats.sent_noop,
{
}

/// The statistics are told once in five seconds, as they are, and start anew then.
pub proof fn law_stats_are_told_every_period<W: Hardware>(
    comms: &mut SidesComms<W>,
    now: u64,
    report: Option<Stats>,
)
    requires
        old(comms).stats_last_report <= now,
        call_ensures(SidesComms::<W>::report_stats, (comms, now), report),
    ensures
        report is Some <==> now >= old(comms).stats_last_report + 5000,
        report matches Some(stats) ==> stats == old(comms).stats && final(comms).stats.sent_real
            == 0 && final(comms).stats.sent_noop == 0 && final(comms).stats.received_real == 0
            && final(comms).stats.received_noop == 0 && final(comms).stats_last_report == now,
        report is None ==> final(comms).stats == old(comms).stats && final(comms).stats_last_report
            == old(comms).stats_last_report,
{
}

/// A message arrives as it was sent, and where there is none to send, none arrives.
pub proof fn law_word_carries_the_message(
    queued: Option<Message>,
    word: Message,
    received: Option<Message>,
)
    requires
        call_ensures(word_to_send, (queued,), word),
        call_ensures(received_message, (word,), received),
        queued != Some(0u32),
    ensures
        received == queued,
{
}

/// The leds are told of an error when it begins and when it ends, and not in between. The
/// messages that wait to be sent stay.
pub proof fn law_leds_are_told_of_changes(hw: &mut HwProtocol, error: bool)
    requires
        call_ensures(<HwProtocol as Hardware>::set_error_state, (hw, error), ()),
    ensures
        final(hw).on_error == error,
        final(hw).tx@ == old(hw).tx@,
        error == old(hw).on_error ==> final(hw).anims@ == old(hw).anims@,
        error && !old(hw).on_error ==> final(hw).anims@ == old(hw).anims@.push(AnimCommand::Error),
        !error && old(hw).on_error ==> final(hw).anims@ == old(hw).anims@.push(AnimCommand::Fixed),
{
}

/// A message that is queued waits behind the others until it is taken.
pub proof fn law_messages_are_taken_in_order(
    hw: &mut HwProtocol,
    later: &mut HwProtocol,
    msg: Message,
    msgs: Vec<Message>,
)
    requires
        call_ensures(<HwProtocol as Hardware>::queue_send, (hw, msg), ()),
        *old(later) == *final(hw),
        call_ensures(HwProtocol::take_messages, (later,), msgs),
    ensures
        msgs@.len() > 0,
        msgs@.last() == msg,
        msgs@.drop_last() == old(hw).tx@,
        final(later).tx@.len() == 0,
        final(later).anims@ == old(hw).anims@,
{
    assert(msgs@.drop_last() =~= old(hw).tx@);
}

/// The status led is on exactly while an event is processed: on a Charybdis Nano that is the
/// low level, on a Dilemma the high one.
pub proof fn law_status_led(board: Board, processing: bool, high: bool)
    requires
        call_ensures(status_led_is_high, (board, processing), high),
    ensures
        board == Board::Dilemma ==> high == processing,
        board == Board::Cnano ==> high != processing,
{
}

/// The commands for the leds are taken as they wait, once; the messages stay.
pub proof fn law_commands_are_taken_once(hw: &mut HwProtocol, commands: Vec<AnimCommand>)
    requires
        call_ensures(HwProtocol::take_commands, (hw,), commands),
    ensures
        commands@ == old(hw).anims@,
        final(hw).anims@.len() == 0,
        final(hw).tx@ == old(hw).tx@,
        final(hw).on_error == old(hw).on_error,
{
}

/// A message is refused if the protocol refuses it or if it would bring a seed, and not
/// otherwise.
pub proof fn law_seeds_are_refused<W: Hardware>(
    comms: SidesComms<W>,
    msg: Message,
    b: bool,
    accepted: bool,
    event: Option<Event>,
)
    requires
        comms.wf(),
        call_ensures(SidesComms::<W>::accepts, (&comms, msg), b),
        call_ensures(SideProtocol::<W>::accepts, (&comms.protocol, msg), accepted),
        call_ensures(SideProtocol::<W>::event_of_message, (&comms.protocol, msg), event),
    ensures
        b <==> accepted && !(event matches Some(Event::SeedRng(_))),
{
}

/// The communication starts with nothing counted and a new protocol.
pub proof fn law_new_communication<W: Hardware>(
    name: &'static str,
    hw: W,
    now: u64,
    comms: SidesComms<W>,
    p: SideProtocol<W>,
)
    requires
        hw.wf(),
        call_ensures(SidesComms::<W>::new, (name, hw, now), comms),
        call_ensures(SideProtocol::<W>::new, (hw, name), p),
    ensures
        comms.protocol@ == p@,
        comms.protocol.name == name,
        comms.stats.sent_real == 0 && comms.stats.sent_noop == 0,
        comms.stats.received_real == 0 && comms.stats.received_noop == 0,
        comms.stats_last_report == now,
{
}

/// New hardware has nothing to send or to show, and is not on error.
pub proof fn law_new_hardware(hw: HwProtocol)
    requires
        call_ensures(HwProtocol::new, (), hw),
    ensures
        hw.tx@.len() == 0,
        hw.anims@.len() == 0,
        !hw.on_error,
{
}

} // verus!
