//! The serial side of the console: what it does next after each thing that happens at
//! the port.
//!
//! `SerialTask` never touches the port itself. It names an `Action`, the firmware
//! carries it out and reports an `Event`, and `SerialTask::step` answers with the next
//! action.

use vstd::prelude::*;

use crate::line::{erases, type_byte, LineBuffer, LINE_CAPACITY};
use crate::links::{enqueue, Links, LinksState};
use crate::packets::{greeting, greeting_packet, is_last_of_greeting, report_bytes};
use crate::packets::{is_last_of_reply, law_greeting_fits_packets, law_reply_fits_packets};
use crate::packets::{lemma_short_packets, reply, reply_packet, ERASE};
use crate::response::Response;
use crate::text::{utf8, PACKET_SIZE};

verus! {

/// The line speed that asks for a reboot into BOOTSEL.
pub const BOOTSEL_BAUD: u32 = 1200;

/// How long the console waits before it reboots, in milliseconds.
pub const RESET_DELAY_MILLIS: u64 = 100;

/// How long the console waits between two looks at a closed port, in milliseconds.
pub const POLL_MILLIS: u64 = 20;

/// How long one read waits for a packet, in milliseconds.
pub const READ_TIMEOUT_MILLIS: u64 = 50;

/// How long input is thrown away after the banner at most, in microseconds.
pub const DRAIN_MICROS: u64 = 300_000;

/// What the firmware is to do next.
#[derive(Clone, Copy, Debug, PartialEq, Eq, Structural)]
pub enum Action {
    /// Wait until the host has configured the port; report `Done`.
    WaitConnection,
    /// Look at the DTR line and the line speed; report `Port`.
    ReadPort,
    /// Let time pass; report `Done`.
    Sleep { millis: u64 },
    /// Call the boot ROM's reset into USB boot; report `Done` should it return.
    ResetToUsbBoot { gpio_mask: u32, disable_mask: u32 },
    /// Write `SerialTask::packet` to the port; report `Done` whether it went out or not.
    Write,
    /// Read the clock; report `Clock`.
    ReadClock,
    /// Read a packet; report `Packet`, `ReadFailed` or, when the time is over, `TimedOut`.
    Read { timeout_millis: u64 },
}

/// What happened when the firmware carried out an action.
#[derive(Clone, Copy, Debug)]
pub enum Event<'a> {
    /// The action is done.
    Done,
    /// The state of the port.
    Port { dtr: bool, baud: u32 },
    /// The time since boot, in microseconds.
    Clock { micros: u64 },
    /// A packet was read.
    Packet(&'a [u8]),
    /// The host took the port away.
    ReadFailed,
    /// No packet came in time.
    TimedOut,
}

/// An event, with a packet as a sequence of bytes.
pub enum EventState {
    Done,
    Port { dtr: bool, baud: u32 },
    Clock { micros: u64 },
    Packet { data: Seq<u8> },
    ReadFailed,
    TimedOut,
}

impl<'a> View for Event<'a> {
    type V = EventState;

    open spec fn view(&self) -> EventState {
        match *self {
            Event::Done => EventState::Done,
            Event::Port { dtr, baud } => EventState::Port { dtr, baud },
            Event::Clock { micros } => EventState::Clock { micros },
            Event::Packet(data) => EventState::Packet { data: data@ },
            Event::ReadFailed => EventState::ReadFailed,
            Event::TimedOut => EventState::TimedOut,
        }
    }
}

/// What follows when everything pending is written.
pub enum Then {
    /// The greeting is out: throw away what comes back of it.
    Drain,
    /// An echo is out: interpret this input.
    Edit { input: Seq<u8> },
    /// A reply is out: send the next one.
    Reply,
}

/// What the console is doing, each time up to the event that it waits for.
pub enum Stage {
    /// Waiting for the host to configure the port.
    Connecting,
    /// Looking whether a program has opened the port.
    AwaitingDtr,
    /// Between two looks at the closed port.
    Pausing,
    /// About to reboot, with the port open or not.
    ResetDelay { open: bool },
    /// Rebooting, with the port open or not.
    Resetting { open: bool },
    /// Writing the first of these packets.
    Writing { pending: Seq<Seq<u8>>, then: Then },
    /// Reading the clock at the start of the drain.
    StartingDrain,
    /// Reading the clock before the next read of the drain.
    Draining { deadline: u64 },
    /// Reading what is to be thrown away.
    DrainRead { deadline: u64 },
    /// Looking whether the port is still open.
    CheckingPort,
    /// Reading input.
    Reading,
}

/// The serial side of the console.
pub struct SerialState {
    /// The message of a panic in the previous boot.
    pub report: Option<Seq<u8>>,
    /// Whether no session has been opened since boot.
    pub first: bool,
    /// The line under construction.
    pub line: Seq<u8>,
    pub stage: Stage,
}

impl SerialState {
    /// The console at boot.
    pub open spec fn boot(report: Option<Seq<u8>>) -> SerialState {
        SerialState { report, first: true, line: Seq::empty(), stage: Stage::Connecting }
    }

    pub open spec fn at(self, stage: Stage) -> SerialState {
        SerialState { stage, ..self }
    }

    /// What the console asks of the firmware.
    pub open spec fn action(self) -> Action {
        match self.stage {
            Stage::Connecting => Action::WaitConnection,
            Stage::AwaitingDtr => Action::ReadPort,
            Stage::Pausing => Action::Sleep { millis: POLL_MILLIS },
            Stage::ResetDelay { .. } => Action::Sleep { millis: RESET_DELAY_MILLIS },
            Stage::Resetting { .. } => Action::ResetToUsbBoot { gpio_mask: 0, disable_mask: 0 },
            Stage::Writing { .. } => Action::Write,
            Stage::StartingDrain => Action::ReadClock,
            Stage::Draining { .. } => Action::ReadClock,
            Stage::DrainRead { .. } => Action::Read { timeout_millis: READ_TIMEOUT_MILLIS },
            Stage::CheckingPort => Action::ReadPort,
            Stage::Reading => Action::Read { timeout_millis: READ_TIMEOUT_MILLIS },
        }
    }

    /// The packet to be written: the first one pending.
    pub open spec fn packet(self) -> Seq<u8> {
        match self.stage {
            Stage::Writing { pending, .. } => pending[0],
            _ => Seq::empty(),
        }
    }

    /// The line is within its capacity, and something is pending wherever the console
    /// writes.
    pub open spec fn valid(self) -> bool {
        &&& self.line.len() <= LINE_CAPACITY
        &&& self.stage matches Stage::Writing { pending, .. } ==> pending.len() > 0
    }

    /// The end of the drain can be told in the clock's range, where it is now set.
    pub open spec fn in_clock_range(self, event: EventState) -> bool {
        self.stage is StartingDrain ==> (event matches EventState::Clock { micros } ==> micros
            + DRAIN_MICROS <= u64::MAX)
    }
}

/// What interpreting some input comes to: the line, the queue of completed lines, and
/// the input after the first backspace that took something back, if there was one. The
/// terminal has to be told of such a backspace before anything else is done.
pub struct Edited {
    pub line: Seq<u8>,
    pub queue: Seq<Seq<u8>>,
    pub rest: Option<Seq<u8>>,
}

pub open spec fn edit(line: Seq<u8>, queue: Seq<Seq<u8>>, input: Seq<u8>) -> Edited
    decreases input.len(),
{
    if input.len() == 0 {
        Edited { line, queue, rest: None }
    } else {
        let next = type_byte(line, input[0]);
        if erases(input[0]) && line.len() > 0 {
            Edited { line: next.line, queue, rest: Some(input.drop_first()) }
        } else if next.completed.len() > 0 {
            edit(next.line, enqueue(queue, next.completed[0]), input.drop_first())
        } else {
            edit(next.line, queue, input.drop_first())
        }
    }
}

/// A session begins: nothing of an earlier one is left, the panic report is shown to
/// the first session only, and the banner to each.
pub open spec fn open_session(state: SerialState) -> SerialState {
    SerialState {
        report: state.report,
        first: false,
        line: Seq::empty(),
        stage: Stage::Writing {
            pending: greeting(
                if state.first {
                    state.report
                } else {
                    None
                },
            ),
            then: Then::Drain,
        },
    }
}

/// The drain is over: the session starts with an empty line.
pub open spec fn end_drain(state: SerialState) -> SerialState {
    SerialState { line: Seq::empty(), stage: Stage::CheckingPort, ..state }
}

/// The next response is written, or the port is looked at again where there is none.
pub open spec fn next_reply(state: SerialState, links: LinksState) -> (SerialState, LinksState) {
    if links.responses.len() > 0 {
        (
            state.at(Stage::Writing { pending: reply(links.responses[0]), then: Then::Reply }),
            LinksState { responses: links.responses.drop_first(), ..links },
        )
    } else {
        (state.at(Stage::CheckingPort), links)
    }
}

/// Input is interpreted up to the next thing that has to be written.
pub open spec fn interpret(state: SerialState, links: LinksState, input: Seq<u8>) -> (
    SerialState,
    LinksState,
) {
    let edited = edit(state.line, links.lines, input);
    let after = SerialState { line: edited.line, ..state };
    let sent = LinksState { lines: edited.queue, ..links };
    match edited.rest {
        Some(rest) => (
            after.at(
                Stage::Writing { pending: seq![utf8(ERASE)], then: Then::Edit { input: rest } },
            ),
            sent,
        ),
        None => next_reply(after, sent),
    }
}

/// What the console does after each event. An event that does not answer its action
/// leaves it as it is.
pub open spec fn transition(state: SerialState, links: LinksState, event: EventState) -> (
    SerialState,
    LinksState,
) {
    match (state.stage, event) {
        (Stage::Connecting, EventState::Done) => (state.at(Stage::AwaitingDtr), links),
        (Stage::AwaitingDtr, EventState::Port { dtr, baud }) => if dtr {
            (open_session(state), LinksState::empty())
        } else if baud == BOOTSEL_BAUD {
            (state.at(Stage::ResetDelay { open: false }), links)
        } else {
            (state.at(Stage::Pausing), links)
        },
        (Stage::Pausing, EventState::Done) => (state.at(Stage::AwaitingDtr), links),
        (Stage::ResetDelay { open }, EventState::Done) => (
            state.at(Stage::Resetting { open }),
            links,
        ),
        (Stage::Resetting { open }, EventState::Done) => if open {
            (state.at(Stage::Reading), links)
        } else {
            (state.at(Stage::Pausing), links)
        },
        (Stage::Writing { pending, then }, EventState::Done) => if pending.len() > 1 {
            (state.at(Stage::Writing { pending: pending.drop_first(), then }), links)
        } else {
            match then {
                Then::Drain => (state.at(Stage::StartingDrain), links),
                Then::Edit { input } => interpret(state, links, input),
                Then::Reply => next_reply(state, links),
            }
        },
        (Stage::StartingDrain, EventState::Clock { micros }) => (
            state.at(Stage::Draining { deadline: (micros + DRAIN_MICROS) as u64 }),
            links,
        ),
        (Stage::Draining { deadline }, EventState::Clock { micros }) => if micros < deadline {
            (state.at(Stage::DrainRead { deadline }), links)
        } else {
            (end_drain(state), links)
        },
        (Stage::DrainRead { deadline }, EventState::Packet { data }) => if data.len() > 0 {
            (state.at(Stage::Draining { deadline }), links)
        } else {
            (end_drain(state), links)
        },
        (Stage::DrainRead { .. }, EventState::ReadFailed) => (end_drain(state), links),
        (Stage::DrainRead { .. }, EventState::TimedOut) => (end_drain(state), links),
        (Stage::CheckingPort, EventState::Port { dtr, baud }) => if !dtr {
            (state.at(Stage::Connecting), links)
        } else if baud == BOOTSEL_BAUD {
            (state.at(Stage::ResetDelay { open: true }), links)
        } else {
            (state.at(Stage::Reading), links)
        },
        (Stage::Reading, EventState::Packet { data }) => if data.len() == 0 {
            next_reply(state, links)
        } else if data.len() <= PACKET_SIZE {
            (
                state.at(Stage::Writing { pending: seq![data], then: Then::Edit { input: data } }),
                links,
            )
        } else {
            (state, links)
        },
        (Stage::Reading, EventState::ReadFailed) => (state.at(Stage::Connecting), links),
        (Stage::Reading, EventState::TimedOut) => next_reply(state, links),
        _ => (state, links),
    }
}

#[derive(Clone, Copy)]
enum Phase {
    Connecting,
    AwaitingDtr,
    Pausing,
    ResetDelay { open: bool },
    Resetting { open: bool },
    Greeting { report: bool, index: usize },
    Echoing,
    Erasing { next: usize },
    Replying { index: usize },
    StartingDrain,
    Draining { deadline: u64 },
    DrainRead { deadline: u64 },
    CheckingPort,
    Reading,
}

/// The serial side of the console.
pub struct SerialTask {
    panic_msg: Option<&'static str>,
    first: bool,
    line: LineBuffer,
    buf: [u8; 64],
    len: usize,
    response: Response,
    phase: Phase,
}

impl View for SerialTask {
    type V = SerialState;

    closed spec fn view(&self) -> SerialState {
        SerialState {
            report: report_bytes(self.panic_msg),
            first: self.first,
            line: self.line@,
            stage: self.stage(),
        }
    }
}

impl SerialTask {
    spec fn shown_report(self, report: bool) -> Option<Seq<u8>> {
        if report {
            report_bytes(self.panic_msg)
        } else {
            None
        }
    }

    spec fn input(self) -> Seq<u8> {
        self.buf@.take(self.len as int)
    }

    spec fn stage(self) -> Stage {
        match self.phase {
            Phase::Connecting => Stage::Connecting,
            Phase::AwaitingDtr => Stage::AwaitingDtr,
            Phase::Pausing => Stage::Pausing,
            Phase::ResetDelay { open } => Stage::ResetDelay { open },
            Phase::Resetting { open } => Stage::Resetting { open },
            Phase::Greeting { report, index } => Stage::Writing {
                pending: greeting(self.shown_report(report)).skip(index as int),
                then: Then::Drain,
            },
            Phase::Echoing => Stage::Writing {
                pending: seq![self.input()],
                then: Then::Edit { input: self.input() },
            },
            Phase::Erasing { next } => Stage::Writing {
                pending: seq![utf8(ERASE)],
                then: Then::Edit { input: self.input().skip(next as int) },
            },
            Phase::Replying { index } => Stage::Writing {
                pending: reply(self.response@).skip(index as int),
                then: Then::Reply,
            },
            Phase::StartingDrain => Stage::StartingDrain,
            Phase::Draining { deadline } => Stage::Draining { deadline },
            Phase::DrainRead { deadline } => Stage::DrainRead { deadline },
            Phase::CheckingPort => Stage::CheckingPort,
            Phase::Reading => Stage::Reading,
        }
    }

    /// What every console that `new` made keeps.
    pub closed spec fn wf(self) -> bool {
        &&& self.line@.len() <= LINE_CAPACITY
        &&& self.len <= PACKET_SIZE
        &&& match self.phase {
            Phase::Greeting { report, index } => index < greeting(self.shown_report(report)).len(),
            Phase::Erasing { next } => next <= self.len,
            Phase::Replying { index } => index < reply(self.response@).len(),
            _ => true,
        }
    }

    /// The console at boot, with the message of a panic that ended the previous one.
    pub fn new(panic_msg: Option<&'static str>) -> (task: SerialTask)
        ensures
            task.wf(),
            task@ == SerialState::boot(report_bytes(panic_msg)),
            task@.valid(),
            task@.report is Some <==> panic_msg is Some,
            panic_msg matches Some(message) ==> task@.report == Some(utf8(message)),
            task@.first,
            task@.line.len() == 0,
            task@.stage is Connecting,
    {
        SerialTask {
            panic_msg,
            first: true,
            line: LineBuffer::new(),
            buf: [0u8; 64],
            len: 0,
            response: Response::new(),
            phase: Phase::Connecting,
        }
    }

    /// What the firmware is to do next.
    pub fn action(&self) -> (action: Action)
        requires
            self.wf(),
        ensures
            action == self@.action(),
    {
        match self.phase {
            Phase::Connecting => Action::WaitConnection,
            Phase::AwaitingDtr => Action::ReadPort,
            Phase::Pausing => Action::Sleep { millis: POLL_MILLIS },
            Phase::ResetDelay { .. } => Action::Sleep { millis: RESET_DELAY_MILLIS },
            Phase::Resetting { .. } => Action::ResetToUsbBoot { gpio_mask: 0, disable_mask: 0 },
            Phase::Greeting { .. } => Action::Write,
            Phase::Echoing => Action::Write,
            Phase::Erasing { .. } => Action::Write,
            Phase::Replying { .. } => Action::Write,
            Phase::StartingDrain => Action::ReadClock,
            Phase::Draining { .. } => Action::ReadClock,
            Phase::DrainRead { .. } => Action::Read { timeout_millis: READ_TIMEOUT_MILLIS },
            Phase::CheckingPort => Action::ReadPort,
            Phase::Reading => Action::Read { timeout_millis: READ_TIMEOUT_MILLIS },
        }
    }

    /// The packet that `Action::Write` is about; empty where the console does not write.
    /// It is never more than the port can take in one packet.
    pub fn packet(&self) -> (packet: &[u8])
        requires
            self.wf(),
        ensures
            packet@ == self@.packet(),
            packet@.len() <= PACKET_SIZE,
    {
        proof {
            law_greeting_fits_packets(report_bytes(self.panic_msg));
            law_greeting_fits_packets(None);
            law_reply_fits_packets(self.response@);
            lemma_short_packets();
        }
        match self.phase {
            Phase::Greeting { report, index } => if report {
                greeting_packet(self.panic_msg, index)
            } else {
                greeting_packet(None, index)
            },
            Phase::Echoing => vstd::slice::slice_subrange(self.buf.as_slice(), 0, self.len),
            Phase::Erasing { .. } => ERASE.as_bytes(),
            Phase::Replying { index } => reply_packet(self.response.bytes(), index),
            _ => {
                let none = vstd::slice::slice_subrange(self.buf.as_slice(), 0, 0);
                assert(none@ =~= Seq::<u8>::empty());
                none
            },
        }
    }

    fn keep_packet(&mut self, data: &[u8])
        requires
            data@.len() <= PACKET_SIZE,
        ensures
            *final(self) == (SerialTask {
                buf: final(self).buf,
                len: final(self).len,
                ..*old(self)
            }),
            final(self).len == data@.len(),
            final(self).input() == data@,
    {
        let n: usize = data.len();
        let ghost start = *self;
        let mut i: usize = 0;
        while i < n
            invariant
                i <= n == data@.len(),
                n <= PACKET_SIZE,
                *self == (SerialTask { buf: self.buf, ..start }),
                forall|k: int| 0 <= k < i ==> self.buf@[k] == data@[k],
            decreases n - i,
        {
            self.buf[i] = data[i];
            i += 1;
        }
        self.len = n;
        assert(self.input() =~= data@);
    }

    fn next_reply(&mut self, links: &mut Links)
        requires
            old(self).wf(),
        ensures
            final(self).wf(),
            (final(self)@, final(links)@) == next_reply(old(self)@, old(links)@),
    {
        match links.take_response() {
            Some(response) => {
                self.response = response;
                self.phase = Phase::Replying { index: 0 };
                assert(reply(self.response@).skip(0) =~= reply(self.response@));
            },
            None => {
                self.phase = Phase::CheckingPort;
            },
        }
    }

    fn interpret(&mut self, links: &mut Links, from: usize)
        requires
            old(self).wf(),
            from <= old(self).len,
        ensures
            final(self).wf(),
            (final(self)@, final(links)@) == interpret(
                old(self)@,
                old(links)@,
                old(self).input().skip(from as int),
            ),
    {
        let ghost input = self.input();
        let ghost line0 = self.line@;
        let ghost start = *self;
        let ghost links0 = links@;
        let ghost all = edit(line0, links0.lines, input.skip(from as int));
        let mut i: usize = from;
        while i < self.len
            invariant
                from <= i <= self.len <= PACKET_SIZE,
                *self == (SerialTask { line: self.line, ..start }),
                start.wf(),
                self.line@.len() <= LINE_CAPACITY,
                input == self.input(),
                input.len() == self.len,
                links@ == (LinksState { lines: links@.lines, ..links0 }),
                all == edit(self.line@, links@.lines, input.skip(i as int)),
                all == edit(start.line@, links0.lines, input.skip(from as int)),
                start == *old(self),
                links0 == old(links)@,
            decreases self.len - i,
        {
            let b: u8 = self.buf[i];
            proof {
                assert(input.skip(i as int)[0] == b);
                assert(input.skip(i as int).drop_first() =~= input.skip(i + 1));
                if self.line@.len() == 0 {
                    assert(self.line@ =~= Seq::empty());
                }
            }
            i += 1;
            if b == 0x0D || b == 0x0A {
                if !self.line.is_empty() {
                    links.submit_line(self.line.duplicate());
                    self.line.clear();
                }
            } else if b == 0x08 || b == 0x7F {
                if self.line.pop().is_some() {
                    self.phase = Phase::Erasing { next: i };
                    return ;
                }
            } else {
                self.line.push(b);
            }
        }
        assert(input.skip(i as int).len() == 0);
        self.next_reply(links);
    }

    fn open_session(&mut self, links: &mut Links)
        requires
            old(self).wf(),
        ensures
            final(self).wf(),
            final(self)@ == open_session(old(self)@),
            final(links)@ == LinksState::empty(),
    {
        self.line.clear();
        links.discard_pending();
        let report: bool = self.first && self.panic_msg.is_some();
        self.first = false;
        self.phase = Phase::Greeting { report, index: 0 };
        proof {
            let shown = greeting(self.shown_report(report));
            assert(shown.skip(0) =~= shown);
        }
    }

    fn written(&mut self, links: &mut Links)
        requires
            old(self).wf(),
            old(self)@.stage is Writing,
        ensures
            final(self).wf(),
            (final(self)@, final(links)@) == transition(
                old(self)@,
                old(links)@,
                EventState::Done,
            ),
    {
        match self.phase {
            Phase::Greeting { report, index } => {
                let shown: Option<&str> = if report {
                    self.panic_msg
                } else {
                    None
                };
                if is_last_of_greeting(shown, index) {
                    self.phase = Phase::StartingDrain;
                } else {
                    self.phase = Phase::Greeting { report, index: index + 1 };
                    proof {
                        let all = greeting(self.shown_report(report));
                        assert(all.skip(index as int).drop_first() =~= all.skip(index + 1));
                    }
                }
            },
            Phase::Echoing => {
                assert(self.input().skip(0) =~= self.input());
                self.interpret(links, 0);
            },
            Phase::Erasing { next } => {
                self.interpret(links, next);
            },
            Phase::Replying { index } => {
                if is_last_of_reply(self.response.bytes(), index) {
                    self.next_reply(links);
                } else {
                    self.phase = Phase::Replying { index: index + 1 };
                    proof {
                        let all = reply(self.response@);
                        assert(all.skip(index as int).drop_first() =~= all.skip(index + 1));
                    }
                }
            },
            _ => {},
        }
    }

    fn end_drain(&mut self)
        requires
            old(self).wf(),
        ensures
            final(self).wf(),
            final(self)@ == end_drain(old(self)@),
    {
        self.line.clear();
        self.phase = Phase::CheckingPort;
    }

    /// Takes the event that the last action came to, and returns the next action. At the
    /// start of the drain the clock must leave room for the deadline.
    pub fn step(&mut self, links: &mut Links, event: Event<'_>) -> (action: Action)
        requires
            old(self).wf(),
            old(self)@.in_clock_range(event@),
        ensures
            final(self).wf(),
            (final(self)@, final(links)@) == transition(old(self)@, old(links)@, event@),
            final(self)@.valid(),
            action == final(self)@.action(),
    {
        match event {
            Event::Done => match self.phase {
                Phase::Connecting => {
                    self.phase = Phase::AwaitingDtr;
                },
                Phase::Pausing => {
                    self.phase = Phase::AwaitingDtr;
                },
                Phase::ResetDelay { open } => {
                    self.phase = Phase::Resetting { open };
                },
                Phase::Resetting { open } => {
                    self.phase = if open {
                        Phase::Reading
                    } else {
                        Phase::Pausing
                    };
                },
                Phase::Greeting { .. } => {
                    self.written(links);
                },
                Phase::Echoing => {
                    self.written(links);
                },
                Phase::Erasing { .. } => {
                    self.written(links);
                },
                Phase::Replying { .. } => {
                    self.written(links);
                },
                _ => {},
            },
            Event::Port { dtr, baud } => match self.phase {
                Phase::AwaitingDtr => if dtr {
                    self.open_session(links);
                } else if baud == BOOTSEL_BAUD {
                    self.phase = Phase::ResetDelay { open: false };
                } else {
                    self.phase = Phase::Pausing;
                },
                Phase::CheckingPort => if !dtr {
                    self.phase = Phase::Connecting;
                } else if baud == BOOTSEL_BAUD {
                    self.phase = Phase::ResetDelay { open: true };
                } else {
                    self.phase = Phase::Reading;
                },
                _ => {},
            },
            Event::Clock { micros } => match self.phase {
                Phase::StartingDrain => {
                    self.phase = Phase::Draining { deadline: micros + DRAIN_MICROS };
                },
                Phase::Draining { deadline } => if micros < deadline {
                    self.phase = Phase::DrainRead { deadline };
                } else {
                    self.end_drain();
                },
                _ => {},
            },
            Event::Packet(data) => match self.phase {
                Phase::DrainRead { deadline } => if data.len() > 0 {
                    self.phase = Phase::Draining { deadline };
                } else {
                    self.end_drain();
                },
                Phase::Reading => if data.len() == 0 {
                    self.next_reply(links);
                } else if data.len() <= PACKET_SIZE {
                    self.keep_packet(data);
                    self.phase = Phase::Echoing;
                },
                _ => {},
            },
            Event::ReadFailed => match self.phase {
                Phase::DrainRead { .. } => {
                    self.end_drain();
                },
                Phase::Reading => {
                    self.phase = Phase::Connecting;
                },
                _ => {},
            },
            Event::TimedOut => match self.phase {
                Phase::DrainRead { .. } => {
                    self.end_drain();
                },
                Phase::Reading => {
                    self.next_reply(links);
                },
                _ => {},
            },
        }
        self.action()
    }
}

} // verus!
