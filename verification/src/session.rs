//! What one packet, and one session, comes to.

use vstd::prelude::*;

use crate::line::{erases, law_typing_in_parts, type_byte, type_bytes};
use crate::links::{enqueue, enqueue_all, lemma_enqueue_in_parts, LinksState};
use crate::packets::{greeting, lemma_control_texts, reply, ERASE};
use crate::serial::{edit, interpret, next_reply, open_session, transition, Action, Event, EventState};
use crate::serial::{SerialState, Stage, Then, BOOTSEL_BAUD, DRAIN_MICROS, RESET_DELAY_MILLIS};
use crate::text::{utf8, BANNER, PACKET_SIZE};

verus! {

/// The backspaces in some input that take something back.
pub open spec fn erasures(line: Seq<u8>, input: Seq<u8>) -> nat
    decreases input.len(),
{
    if input.len() == 0 {
        0
    } else {
        let others = erasures(type_byte(line, input[0]).line, input.drop_first());
        if erases(input[0]) && line.len() > 0 {
            others + 1
        } else {
            others
        }
    }
}

/// The console after `n` packets are written, with nothing else going on.
pub open spec fn after_writes(state: SerialState, links: LinksState, n: nat) -> (
    SerialState,
    LinksState,
)
    decreases n,
{
    if n == 0 {
        (state, links)
    } else {
        let next = transition(state, links, EventState::Done);
        after_writes(next.0, next.1, (n - 1) as nat)
    }
}

/// Where interpreting stops early, it stops behind the first backspace that took
/// something back, and no byte is skipped: the input is what was consumed followed by
/// what is left, and the line and the queue are what typing the consumed part makes them.
/// Such a backspace is a byte 0x08 or 0x7F that finds the line not empty, and no other
/// byte stops it.
pub proof fn law_interpreting_skips_nothing(
    line: Seq<u8>,
    queue: Seq<Seq<u8>>,
    input: Seq<u8>,
) -> (n: int)
    ensures
        0 <= n <= input.len(),
        match edit(line, queue, input).rest {
            Some(rest) => n > 0 && rest == input.skip(n) && erases(input[n - 1]) && erasures(
                line,
                input,
            ) == 1 + erasures(edit(line, queue, input).line, rest),
            None => n == input.len() && erasures(line, input) == 0,
        },
        edit(line, queue, input).line == type_bytes(line, input.take(n)).line,
        edit(line, queue, input).queue == enqueue_all(
            queue,
            type_bytes(line, input.take(n)).completed,
        ),
        edit(line, queue, input).rest is Some ==> (input[n - 1] == 0x08 || input[n - 1] == 0x7F)
            && type_bytes(line, input.take(n - 1)).line.len() > 0,
        forall|k: int|
            0 <= k < (if edit(line, queue, input).rest is Some {
                n - 1
            } else {
                n
            }) ==> (#[trigger] input[k] != 0x08 && input[k] != 0x7F) || type_bytes(
                line,
                input.take(k),
            ).line.len() == 0,
    decreases input.len(),
{
    if input.len() == 0 {
        assert(input.take(0) =~= input);
        0
    } else {
        let next = type_byte(line, input[0]);
        let tail = input.drop_first();
        if erases(input[0]) && line.len() > 0 {
            assert(input.take(1).drop_first() =~= Seq::empty());
            assert(type_bytes(next.line, input.take(1).drop_first()).completed =~= Seq::empty());
            assert(type_bytes(line, input.take(1)).completed =~= Seq::empty());
            assert(input.skip(1) =~= tail);
            assert(input.take(0) =~= Seq::empty());
            1
        } else {
            let queue1 = enqueue_all(queue, next.completed);
            if next.completed.len() > 0 {
                assert(next.completed.drop_first() =~= Seq::empty());
                reveal_with_fuel(enqueue_all, 2);
                assert(queue1 == enqueue(queue, next.completed[0]));
            }
            let m = law_interpreting_skips_nothing(next.line, queue1, tail);
            let n = m + 1;
            assert(input.take(n).drop_first() =~= tail.take(m));
            assert(tail.skip(m) =~= input.skip(n));
            lemma_enqueue_in_parts(
                queue,
                next.completed,
                type_bytes(next.line, tail.take(m)).completed,
            );
            assert forall|k: int| 0 <= k <= n implies #[trigger] type_bytes(line, input.take(k)).line
                == if k == 0 {
                line
            } else {
                type_bytes(next.line, tail.take(k - 1)).line
            } by {
                if k > 0 {
                    assert(input.take(k).drop_first() =~= tail.take(k - 1));
                }
            }
            let stop = if edit(next.line, queue1, tail).rest is Some {
                n - 1
            } else {
                n
            };
            assert forall|k: int| 0 <= k < stop implies (#[trigger] input[k] != 0x08 && input[k]
                != 0x7F) || type_bytes(line, input.take(k)).line.len() == 0 by {
                if k > 0 {
                    assert(tail[k - 1] == input[k]);
                }
            }
            n
        }
    }
}

/// One more byte at the front of some input is interpreted by itself, and what follows it
/// as it would be without it: a byte that is neither 0x0D nor 0x0A nor 0x08 nor 0x7F goes
/// into the line where that holds fewer than 64 bytes, 0x0D and 0x0A pass the line on where
/// it is not empty and fewer than four are waiting, and 0x08 and 0x7F stop there where they
/// took something back.
pub proof fn law_bytes_are_interpreted_one_by_one(
    line: Seq<u8>,
    queue: Seq<Seq<u8>>,
    byte: u8,
    others: Seq<u8>,
)
    ensures
        edit(line, queue, Seq::empty()).line == line,
        edit(line, queue, Seq::empty()).queue == queue,
        edit(line, queue, Seq::empty()).rest is None,
        byte == 0x0D || byte == 0x0A ==> edit(line, queue, seq![byte] + others) == edit(
            Seq::empty(),
            if line.len() > 0 && queue.len() < 4 {
                queue.push(line)
            } else {
                queue
            },
            others,
        ),
        (byte == 0x08 || byte == 0x7F) && line.len() == 0 ==> edit(
            line,
            queue,
            seq![byte] + others,
        ) == edit(line, queue, others),
        (byte == 0x08 || byte == 0x7F) && line.len() > 0 ==> {
            let edited = edit(line, queue, seq![byte] + others);
            &&& edited.line == line.take(line.len() - 1)
            &&& edited.queue == queue
            &&& edited.rest == Some(others)
        },
        byte != 0x0D && byte != 0x0A && byte != 0x08 && byte != 0x7F ==> edit(
            line,
            queue,
            seq![byte] + others,
        ) == edit(
            if line.len() < 64 {
                line.push(byte)
            } else {
                line
            },
            queue,
            others,
        ),
{
    let input = seq![byte] + others;
    assert(input[0] == byte);
    assert(input.drop_first() =~= others);
    if line.len() == 0 {
        assert(line =~= Seq::empty());
    } else {
        assert(line.drop_last() =~= line.take(line.len() - 1));
    }
}

/// Once an echo is out and nothing else goes on meanwhile, the whole packet is
/// interpreted: the lines that it completes are passed on in order as far as they find
/// room, the line under construction is what the packet left of it, and one erasure is
/// written for each backspace that took something back.
pub proof fn law_packet_is_interpreted_whole(
    state: SerialState,
    links: LinksState,
    input: Seq<u8>,
    shown: Seq<u8>,
)
    ensures
        after_writes(
            state.at(Stage::Writing { pending: seq![shown], then: Then::Edit { input } }),
            links,
            erasures(state.line, input) + 1,
        ) == next_reply(
            (SerialState { line: type_bytes(state.line, input).line, ..state }),
            (LinksState {
                lines: enqueue_all(links.lines, type_bytes(state.line, input).completed),
                ..links
            }),
        ),
    decreases input.len(),
{
    let line = state.line;
    let start = state.at(Stage::Writing { pending: seq![shown], then: Then::Edit { input } });
    let edited = edit(line, links.lines, input);
    let n = law_interpreting_skips_nothing(line, links.lines, input);
    let next = transition(start, links, EventState::Done);
    assert(next == interpret(start, links, input));
    match edited.rest {
        Some(rest) => {
            let s1 = SerialState { line: edited.line, ..state };
            let l1 = LinksState { lines: edited.queue, ..links };
            law_packet_is_interpreted_whole(s1, l1, rest, utf8(ERASE));
            law_typing_in_parts(line, input.take(n), rest);
            assert(input =~= input.take(n) + rest);
            lemma_enqueue_in_parts(
                links.lines,
                type_bytes(line, input.take(n)).completed,
                type_bytes(edited.line, rest).completed,
            );
        },
        None => {
            assert(input.take(n) =~= input);
            reveal_with_fuel(after_writes, 2);
        },
    }
}

/// Pending packets are written one after the other, in order and each of them once, and
/// nothing else changes before the last of them is out.
pub proof fn law_pending_is_written_in_order(
    state: SerialState,
    links: LinksState,
    pending: Seq<Seq<u8>>,
    then: Then,
    k: nat,
)
    requires
        k < pending.len(),
    ensures
        after_writes(state.at(Stage::Writing { pending, then }), links, k) == (
            state.at(Stage::Writing { pending: pending.skip(k as int), then }),
            links,
        ),
        state.at(Stage::Writing { pending: pending.skip(k as int), then }).packet()
            == pending[k as int],
        state.at(Stage::Writing { pending: pending.skip(k as int), then }).action()
            == Action::Write,
    decreases k,
{
    if k == 0 {
        assert(pending.skip(0) =~= pending);
    } else {
        law_pending_is_written_in_order(
            state,
            links,
            pending.drop_first(),
            then,
            (k - 1) as nat,
        );
        assert(pending.drop_first().skip(k - 1) =~= pending.skip(k as int));
    }
}

/// A packet is echoed as it came, in one write, before any of it is interpreted.
pub proof fn law_packet_is_echoed_first(state: SerialState, links: LinksState, data: Seq<u8>)
    requires
        state.stage is Reading,
        0 < data.len() <= PACKET_SIZE,
    ensures
        ({
            let (next, after) = transition(state, links, EventState::Packet { data });
            &&& next.action() == Action::Write
            &&& next.packet() == data
            &&& next.line == state.line
            &&& after == links
        }),
{
}

/// Opening the port at 1200 baud reboots into BOOTSEL after a short delay, whether the
/// DTR line ever rises or the session is already open.
pub proof fn law_bootsel_baud_reboots(state: SerialState, links: LinksState, dtr: bool)
    requires
        (state.stage is AwaitingDtr && !dtr) || (state.stage is CheckingPort && dtr),
    ensures
        ({
            let seen = transition(state, links, EventState::Port { dtr, baud: BOOTSEL_BAUD });
            let waited = transition(seen.0, seen.1, EventState::Done);
            &&& seen.0.action() == Action::Sleep { millis: RESET_DELAY_MILLIS }
            &&& waited.0.action() == Action::ResetToUsbBoot { gpio_mask: 0, disable_mask: 0 }
        }),
{
}

/// No other line speed reboots.
pub proof fn law_other_bauds_do_not_reboot(
    state: SerialState,
    links: LinksState,
    event: EventState,
)
    requires
        event matches EventState::Port { baud, .. } ==> baud != BOOTSEL_BAUD,
        !(state.stage is ResetDelay),
        !(state.stage is Resetting),
    ensures
        !(transition(state, links, event).0.stage is ResetDelay),
        !(transition(state, links, event).0.stage is Resetting),
{
}

/// Every opening of the port starts afresh: the line and both queues are emptied, and
/// the greeting, which ends with the banner, is written.
pub proof fn law_session_starts_clean(state: SerialState, links: LinksState, baud: u32)
    requires
        state.stage is AwaitingDtr,
    ensures
        ({
            let (next, after) = transition(state, links, EventState::Port { dtr: true, baud });
            &&& next.line.len() == 0
            &&& after == LinksState::empty()
            &&& next.stage matches Stage::Writing { pending, then: Then::Drain }
            &&& pending.len() > 0
            &&& pending.last() == utf8(BANNER)
        }),
{
}

/// Closing the port ends the session, and what was typed without an end of line does not
/// reach the next one.
pub proof fn law_closing_forgets_the_line(state: SerialState, links: LinksState, a: u32, b: u32)
    requires
        state.stage is CheckingPort,
    ensures
        ({
            let closed = transition(state, links, EventState::Port { dtr: false, baud: a });
            let connected = transition(closed.0, closed.1, EventState::Done);
            let opened = transition(
                connected.0,
                connected.1,
                EventState::Port { dtr: true, baud: b },
            );
            &&& closed.0.action() == Action::WaitConnection
            &&& opened.0 == open_session(state)
            &&& opened.0.line.len() == 0
            &&& opened.1 == LinksState::empty()
        }),
{
}

/// What comes in during the drain is thrown away: it touches neither the line nor the
/// queues, and what it says makes no difference.
pub proof fn law_drained_input_is_ignored(
    state: SerialState,
    links: LinksState,
    a: Seq<u8>,
    b: Seq<u8>,
)
    requires
        state.stage is DrainRead,
        a.len() > 0,
        b.len() > 0,
    ensures
        transition(state, links, EventState::Packet { data: a }) == transition(
            state,
            links,
            EventState::Packet { data: b },
        ),
        transition(state, links, EventState::Packet { data: a }).0.line == state.line,
        transition(state, links, EventState::Packet { data: a }).1 == links,
{
}

/// The drain ends when the line is quiet for the time of one read, when a read fails, and
/// at the latest at its deadline; the session then starts with an empty line.
pub proof fn law_drain_ends(state: SerialState, links: LinksState, event: EventState)
    requires
        match state.stage {
            Stage::DrainRead { .. } => event is TimedOut || event is ReadFailed,
            Stage::Draining { deadline } => event matches EventState::Clock { micros } && micros
                >= deadline,
            _ => false,
        },
    ensures
        transition(state, links, event).0.stage is CheckingPort,
        transition(state, links, event).0.line.len() == 0,
        transition(state, links, event).1 == links,
{
}

/// Once the greeting is out, the drain starts.
pub proof fn law_greeting_is_followed_by_the_drain(
    state: SerialState,
    links: LinksState,
    pending: Seq<Seq<u8>>,
)
    requires
        pending.len() > 0,
    ensures
        after_writes(
            state.at(Stage::Writing { pending, then: Then::Drain }),
            links,
            pending.len(),
        ) == (state.at(Stage::StartingDrain), links),
    decreases pending.len(),
{
    if pending.len() > 1 {
        law_greeting_is_followed_by_the_drain(state, links, pending.drop_first());
    } else {
        reveal_with_fuel(after_writes, 2);
    }
}

/// The drain has one deadline, which is set when it starts and which nothing moves.
pub proof fn law_drain_keeps_its_deadline(
    state: SerialState,
    links: LinksState,
    event: EventState,
    deadline: u64,
)
    requires
        state.stage == (Stage::Draining { deadline }) || state.stage == (Stage::DrainRead {
            deadline,
        }),
    ensures
        ({
            let next = transition(state, links, event).0.stage;
            ||| next == (Stage::Draining { deadline })
            ||| next == (Stage::DrainRead { deadline })
            ||| next is CheckingPort
        }),
{
}

/// The drain's deadline is a fixed time after it starts.
pub proof fn law_drain_is_bounded(state: SerialState, links: LinksState, micros: u64)
    requires
        state.stage is StartingDrain,
        state.in_clock_range(EventState::Clock { micros }),
    ensures
        transition(state, links, EventState::Clock { micros }).0.stage matches Stage::Draining {
            deadline,
        } && deadline == micros + DRAIN_MICROS,
{
}

/// What the console asks of the firmware depends on what it is doing alone: it sleeps for
/// 20 ms between two looks at a closed port and for 100 ms before a reboot, reads with a
/// timeout of 50 ms, and resets with every interface on.
pub proof fn law_actions_and_their_times(state: SerialState)
    ensures
        state.action() == match state.stage {
            Stage::Connecting => Action::WaitConnection,
            Stage::AwaitingDtr => Action::ReadPort,
            Stage::CheckingPort => Action::ReadPort,
            Stage::Pausing => Action::Sleep { millis: 20 },
            Stage::ResetDelay { .. } => Action::Sleep { millis: 100 },
            Stage::Resetting { .. } => Action::ResetToUsbBoot { gpio_mask: 0, disable_mask: 0 },
            Stage::Writing { .. } => Action::Write,
            Stage::StartingDrain => Action::ReadClock,
            Stage::Draining { .. } => Action::ReadClock,
            Stage::DrainRead { .. } => Action::Read { timeout_millis: 50 },
            Stage::Reading => Action::Read { timeout_millis: 50 },
        },
        state.stage matches Stage::Writing { pending, .. } ==> state.packet() == pending[0],
        !(state.stage is Writing) ==> state.packet().len() == 0,
{
}

/// The console takes every event as the firmware reports it.
pub proof fn law_events_are_seen_as_they_are<'a>(event: Event<'a>)
    ensures
        match event {
            Event::Done => event@ is Done,
            Event::Port { dtr, baud } => event@ == (EventState::Port { dtr, baud }),
            Event::Clock { micros } => event@ == (EventState::Clock { micros }),
            Event::Packet(data) => event@ == (EventState::Packet { data: data@ }),
            Event::ReadFailed => event@ is ReadFailed,
            Event::TimedOut => event@ is TimedOut,
        },
{
}

/// An event that does not answer what the console asked for changes nothing, nor does a
/// packet of more than 64 bytes where input is read.
pub proof fn law_other_events_change_nothing(
    state: SerialState,
    links: LinksState,
    event: EventState,
)
    requires
        match state.stage {
            Stage::AwaitingDtr => !(event is Port),
            Stage::CheckingPort => !(event is Port),
            Stage::StartingDrain => !(event is Clock),
            Stage::Draining { .. } => !(event is Clock),
            Stage::DrainRead { .. } => !(event is Packet) && !(event is ReadFailed)
                && !(event is TimedOut),
            Stage::Reading => match event {
                EventState::Packet { data } => data.len() > 64,
                EventState::ReadFailed => false,
                EventState::TimedOut => false,
                _ => true,
            },
            _ => !(event is Done),
        },
    ensures
        transition(state, links, event) == (state, links),
{
}

/// Until a program opens the port the console looks at it again and again, 20 ms apart:
/// it sleeps where the port is closed and not at 1200 baud, and looks again after that.
pub proof fn law_closed_port_is_polled(state: SerialState, links: LinksState, baud: u32)
    requires
        baud != 1200,
    ensures
        transition(
            (SerialState { stage: Stage::Connecting, ..state }),
            links,
            EventState::Done,
        ) == ((SerialState { stage: Stage::AwaitingDtr, ..state }), links),
        transition(
            (SerialState { stage: Stage::AwaitingDtr, ..state }),
            links,
            EventState::Port { dtr: false, baud },
        ) == ((SerialState { stage: Stage::Pausing, ..state }), links),
        transition(
            (SerialState { stage: Stage::Pausing, ..state }),
            links,
            EventState::Done,
        ) == ((SerialState { stage: Stage::AwaitingDtr, ..state }), links),
{
}

/// At 1200 baud, on a closed port and on an open one alike, the console waits and then
/// resets, and keeps its line and its queues. Should the reset return, a closed port is
/// looked at again after a pause, and an open one is read.
pub proof fn law_reset_returns_to_where_it_was(state: SerialState, links: LinksState, open: bool)
    ensures
        transition(
            (SerialState {
                stage: if open {
                    Stage::CheckingPort
                } else {
                    Stage::AwaitingDtr
                },
                ..state
            }),
            links,
            EventState::Port { dtr: open, baud: 1200 },
        ) == ((SerialState { stage: Stage::ResetDelay { open }, ..state }), links),
        transition(
            (SerialState { stage: Stage::ResetDelay { open }, ..state }),
            links,
            EventState::Done,
        ) == ((SerialState { stage: Stage::Resetting { open }, ..state }), links),
        transition(
            (SerialState { stage: Stage::Resetting { open }, ..state }),
            links,
            EventState::Done,
        ) == (
            (SerialState {
                stage: if open {
                    Stage::Reading
                } else {
                    Stage::Pausing
                },
                ..state
            }),
            links,
        ),
{
}

/// Opening the port at any speed, 1200 baud included, starts a session with an empty line
/// and empty queues. The first one since boot is greeted with the message of a panic,
/// where there is one, and each other one with the banner alone.
pub proof fn law_opening_greets(state: SerialState, links: LinksState, baud: u32)
    requires
        state.stage is AwaitingDtr,
    ensures
        ({
            let (next, after) = transition(state, links, EventState::Port { dtr: true, baud });
            &&& next.report == state.report
            &&& !next.first
            &&& next.line.len() == 0
            &&& after.lines.len() == 0
            &&& after.responses.len() == 0
            &&& next.stage == (Stage::Writing {
                pending: if state.first && state.report is Some {
                    greeting(state.report)
                } else {
                    seq![utf8("[Pico USB Console - escribe 'help']\r\n")]
                },
                then: Then::Drain,
            })
        }),
{
}

/// A packet that is out makes way for the next one that is pending, and behind the last
/// one of a greeting the drain starts.
pub proof fn law_next_packet_follows(
    state: SerialState,
    links: LinksState,
    pending: Seq<Seq<u8>>,
    then: Then,
)
    requires
        pending.len() > 0,
        state.stage == (Stage::Writing { pending, then }),
    ensures
        pending.len() > 1 ==> transition(state, links, EventState::Done) == (
            (SerialState { stage: Stage::Writing { pending: pending.skip(1), then }, ..state }),
            links,
        ),
        pending.len() == 1 && then is Drain ==> transition(state, links, EventState::Done) == (
            (SerialState { stage: Stage::StartingDrain, ..state }),
            links,
        ),
{
    assert(pending.skip(1) =~= pending.drop_first());
}

/// The drain lasts for 300 ms from the time at which it starts, wherever in the clock's
/// range that is.
pub proof fn law_drain_lasts_300_ms(state: SerialState, links: LinksState, micros: u64)
    requires
        state.stage is StartingDrain,
    ensures
        state.in_clock_range(EventState::Clock { micros }) <==> micros + 300_000 <= u64::MAX,
        micros + 300_000 <= u64::MAX ==> transition(state, links, EventState::Clock { micros }) == (
            (SerialState { stage: Stage::Draining { deadline: (micros + 300_000) as u64 }, ..state }),
            links,
        ),
{
}

/// The clock has to leave room for the deadline where the drain starts; at no other time,
/// and for no other event, is anything asked of it.
pub proof fn law_clock_range_matters_at_the_start_of_the_drain(
    state: SerialState,
    event: EventState,
)
    ensures
        state.in_clock_range(event) <==> !(state.stage is StartingDrain && (
        event matches EventState::Clock { micros } && micros + 300_000 > u64::MAX)),
{
}

/// As long as the deadline is not reached, the drain reads, and a packet that is not empty
/// leads back to where it was before the read: same deadline, same line, same queues.
pub proof fn law_drain_goes_on_before_its_deadline(
    state: SerialState,
    links: LinksState,
    deadline: u64,
    micros: u64,
    data: Seq<u8>,
)
    requires
        state.stage == (Stage::Draining { deadline }),
        micros < deadline,
        data.len() > 0,
    ensures
        ({
            let reading = transition(state, links, EventState::Clock { micros });
            let drained = transition(reading.0, reading.1, EventState::Packet { data });
            &&& reading.0 == (SerialState { stage: Stage::DrainRead { deadline }, ..state })
            &&& reading.1 == links
            &&& drained.0.stage == (Stage::Draining { deadline })
            &&& drained.0 == state
            &&& drained.1 == links
        }),
{
}

/// Nothing but silence, a failed read, an empty packet or the deadline ends the drain, and
/// each of them does: the line is then empty, and the queues are as they were.
pub proof fn law_only_silence_or_the_deadline_ends_the_drain(
    state: SerialState,
    links: LinksState,
    event: EventState,
)
    requires
        state.stage is Draining || state.stage is DrainRead,
    ensures
        ({
            let (next, after) = transition(state, links, event);
            let over = match state.stage {
                Stage::Draining { deadline } => match event {
                    EventState::Clock { micros } => micros >= deadline,
                    _ => false,
                },
                _ => match event {
                    EventState::TimedOut => true,
                    EventState::ReadFailed => true,
                    EventState::Packet { data } => data.len() == 0,
                    _ => false,
                },
            };
            &&& after == links
            &&& next.report == state.report
            &&& next.first == state.first
            &&& over <==> next.stage is CheckingPort
            &&& over ==> next.line.len() == 0
            &&& !over ==> next.line == state.line
            &&& !over ==> next.stage is Draining || next.stage is DrainRead
        }),
{
}

/// In a session the port is looked at before each read: where it was closed the console
/// waits for the next connection, and where it is open and not at 1200 baud it reads.
pub proof fn law_open_port_is_read(state: SerialState, links: LinksState, dtr: bool, baud: u32)
    requires
        state.stage is CheckingPort,
    ensures
        !dtr ==> transition(state, links, EventState::Port { dtr, baud }) == (
            (SerialState { stage: Stage::Connecting, ..state }),
            links,
        ),
        dtr && baud != 1200 ==> transition(state, links, EventState::Port { dtr, baud }) == (
            (SerialState { stage: Stage::Reading, ..state }),
            links,
        ),
{
}

/// A read comes to one of three things: a packet of 1 to 64 bytes is echoed and then
/// interpreted, a failed read ends the session, and silence or an empty packet leads on to
/// the responses, of which the oldest is written next. Whatever it comes to, the line stays
/// as it is for now, and so do the lines that are waiting.
pub proof fn law_read_is_echoed_or_followed_by_responses(
    state: SerialState,
    links: LinksState,
    data: Seq<u8>,
)
    requires
        state.stage is Reading,
        data.len() <= 64,
    ensures
        data.len() > 0 ==> transition(state, links, EventState::Packet { data }) == (
            (SerialState {
                stage: Stage::Writing { pending: seq![data], then: Then::Edit { input: data } },
                ..state
            }),
            links,
        ),
        data.len() == 0 ==> transition(state, links, EventState::Packet { data }) == transition(
            state,
            links,
            EventState::TimedOut,
        ),
        transition(state, links, EventState::ReadFailed) == (
            (SerialState { stage: Stage::Connecting, ..state }),
            links,
        ),
        links.responses.len() == 0 ==> transition(state, links, EventState::TimedOut) == (
            (SerialState { stage: Stage::CheckingPort, ..state }),
            links,
        ),
        links.responses.len() > 0 ==> transition(state, links, EventState::TimedOut) == (
            (SerialState {
                stage: Stage::Writing { pending: reply(links.responses[0]), then: Then::Reply },
                ..state
            }),
            (LinksState { responses: links.responses.skip(1), ..links }),
        ),
{
    if links.responses.len() > 0 {
        assert(links.responses.skip(1) =~= links.responses.drop_first());
    }
}

/// Behind a reply comes the next response, the oldest of those that are waiting, and where
/// none is waiting the port is looked at again. Nothing else changes.
pub proof fn law_responses_are_written_one_after_the_other(
    state: SerialState,
    links: LinksState,
    last: Seq<u8>,
)
    requires
        state.stage == (Stage::Writing { pending: seq![last], then: Then::Reply }),
    ensures
        links.responses.len() == 0 ==> transition(state, links, EventState::Done) == (
            (SerialState { stage: Stage::CheckingPort, ..state }),
            links,
        ),
        links.responses.len() > 0 ==> transition(state, links, EventState::Done) == (
            (SerialState {
                stage: Stage::Writing { pending: reply(links.responses[0]), then: Then::Reply },
                ..state
            }),
            (LinksState { responses: links.responses.skip(1), ..links }),
        ),
{
    if links.responses.len() > 0 {
        assert(links.responses.skip(1) =~= links.responses.drop_first());
    }
}

/// Behind an echo, or an erasure, the input is interpreted. A backspace that took something
/// back is shown as a blank and a step back, and what follows it in the input waits until
/// that is out; where none did, the oldest response is written, and where none is waiting
/// the port is looked at again.
pub proof fn law_echo_is_followed_by_its_effect(
    state: SerialState,
    links: LinksState,
    last: Seq<u8>,
    input: Seq<u8>,
)
    requires
        state.stage == (Stage::Writing { pending: seq![last], then: Then::Edit { input } }),
    ensures
        ({
            let edited = edit(state.line, links.lines, input);
            let (next, after) = transition(state, links, EventState::Done);
            &&& next.line == edited.line
            &&& next.report == state.report
            &&& next.first == state.first
            &&& after.lines == edited.queue
            &&& match edited.rest {
                Some(rest) => after.responses == links.responses && next.stage == (
                Stage::Writing {
                    pending: seq![seq![0x20u8, 0x08u8]],
                    then: Then::Edit { input: rest },
                }),
                None => if links.responses.len() == 0 {
                    next.stage is CheckingPort && after.responses == links.responses
                } else {
                    next.stage == (Stage::Writing {
                        pending: reply(links.responses[0]),
                        then: Then::Reply,
                    }) && after.responses == links.responses.skip(1)
                },
            }
        }),
{
    lemma_control_texts();
    if links.responses.len() > 0 {
        assert(links.responses.skip(1) =~= links.responses.drop_first());
    }
}

} // verus!
