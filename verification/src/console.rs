//! The whole console: both tasks, the queues between them, and everything that can
//! happen to them.

use vstd::prelude::*;

use crate::commands::{app_transition, info_pieces, lemma_fixed_texts_fit};
use crate::commands::{lemma_temperature_text_fits, lemma_uptime_text_fits, temperature_text};
use crate::commands::{uptime_text, AppEventState, AppStage, AppState, ResetReason};
use crate::commands::{ADC_ERROR_TEXT, BOOTSEL_TEXT, HELP_TEXT, UNKNOWN_TEXT};
use crate::line::{erases, type_byte, well_formed_line};
use crate::links::{enqueue, LinksState, QUEUE_CAPACITY};
use crate::packets::{fitting_packets, greeting, law_greeting_fits_packets};
use crate::packets::{law_reply_fits_packets, lemma_short_packets, ERASE};
use crate::response::{law_written_fits, RESPONSE_CAPACITY};
use crate::serial::{edit, next_reply, transition, EventState, SerialState, Stage, Then};
use crate::text::{utf8, BANNER, PACKET_SIZE};

verus! {

/// The whole console: both tasks and the queues between them.
pub struct Console {
    pub serial: SerialState,
    pub app: AppState,
    pub links: LinksState,
}

/// One thing that happens to the console.
pub enum Input {
    /// Something at the port.
    Port(EventState),
    /// Something that the commands waited for.
    Command(AppEventState),
    /// The commands look for a line.
    NextLine,
}

/// Whether queued lines are what lines can be: not empty, within the capacity of a line
/// and free of the editor's control bytes.
#[verifier::opaque]
pub open spec fn sound_lines(lines: Seq<Seq<u8>>) -> bool {
    forall|i: int|
        0 <= i < lines.len() ==> (#[trigger] lines[i]).len() > 0 && well_formed_line(lines[i])
}

/// Whether queued responses are within the capacity of a response.
#[verifier::opaque]
pub open spec fn fitting_responses(responses: Seq<Seq<u8>>) -> bool {
    forall|i: int|
        0 <= i < responses.len() ==> (#[trigger] responses[i]).len() <= RESPONSE_CAPACITY
}

/// Whether an event of the commands is a line. Lines come from the queue only.
pub open spec fn is_line(event: AppEventState) -> bool {
    event is Line
}

impl Console {
    /// The console at boot.
    pub open spec fn boot(
        report: Option<Seq<u8>>,
        version: Seq<u8>,
        uid: Seq<u8>,
        reason: Option<ResetReason>,
    ) -> Console {
        Console {
            serial: SerialState::boot(report),
            app: AppState { version, uid, reason, stage: AppStage::Idle },
            links: LinksState::empty(),
        }
    }

    /// The console after one thing has happened.
    pub open spec fn advance(self, input: Input) -> Console {
        match input {
            Input::Port(event) => {
                let (serial, links) = transition(self.serial, self.links, event);
                Console { serial, links, ..self }
            },
            Input::Command(event) => if is_line(event) {
                self
            } else {
                let (app, links) = app_transition(self.app, self.links, event);
                Console { app, links, ..self }
            },
            Input::NextLine => if self.app.stage == AppStage::Idle && self.links.lines.len() > 0 {
                let taken = LinksState {
                    lines: self.links.lines.drop_first(),
                    ..self.links
                };
                let (app, links) = app_transition(
                    self.app,
                    taken,
                    AppEventState::Line { line: self.links.lines[0] },
                );
                Console { app, links, ..self }
            } else {
                self
            },
        }
    }

    /// The console after a row of things has happened.
    pub open spec fn run(self, inputs: Seq<Input>) -> Console
        decreases inputs.len(),
    {
        if inputs.len() == 0 {
            self
        } else {
            self.run(inputs.drop_last()).advance(inputs.last())
        }
    }

    /// Whether a session is being opened: the greeting or the drain goes on.
    pub open spec fn opening(self) -> bool {
        match self.serial.stage {
            Stage::Writing { then, .. } => then is Drain,
            Stage::StartingDrain => true,
            Stage::Draining { .. } => true,
            Stage::DrainRead { .. } => true,
            _ => false,
        }
    }

    /// What holds in every state that the console can come to.
    pub open spec fn sound(self) -> bool {
        &&& self.serial.valid()
        &&& well_formed_line(self.serial.line)
        &&& self.links.within_capacity()
        &&& sound_lines(self.links.lines)
        &&& fitting_responses(self.links.responses)
        &&& self.opening() ==> self.serial.line.len() == 0 && self.links.lines.len() == 0
        &&& self.serial.stage matches Stage::Writing { pending, .. } ==> fitting_packets(pending)
    }
}

proof fn lemma_queues_stay_sound(queue: Seq<Seq<u8>>, item: Seq<u8>)
    ensures
        sound_lines(Seq::empty()),
        fitting_responses(Seq::empty()),
        sound_lines(queue) && queue.len() > 0 ==> sound_lines(queue.drop_first()),
        fitting_responses(queue) && queue.len() > 0 ==> fitting_responses(queue.drop_first()),
        sound_lines(queue) && item.len() > 0 && well_formed_line(item) ==> sound_lines(
            enqueue(queue, item),
        ),
        fitting_responses(queue) && item.len() <= RESPONSE_CAPACITY ==> fitting_responses(
            enqueue(queue, item),
        ),
{
    reveal(sound_lines);
    reveal(fitting_responses);
}

proof fn lemma_edit_keeps_lines_sound(line: Seq<u8>, queue: Seq<Seq<u8>>, input: Seq<u8>)
    requires
        well_formed_line(line),
        queue.len() <= QUEUE_CAPACITY,
        sound_lines(queue),
    ensures
        well_formed_line(edit(line, queue, input).line),
        edit(line, queue, input).queue.len() <= QUEUE_CAPACITY,
        sound_lines(edit(line, queue, input).queue),
    decreases input.len(),
{
    if input.len() > 0 {
        let next = type_byte(line, input[0]);
        if erases(input[0]) && line.len() > 0 {
        } else if next.completed.len() > 0 {
            lemma_queues_stay_sound(queue, next.completed[0]);
            lemma_edit_keeps_lines_sound(
                next.line,
                enqueue(queue, next.completed[0]),
                input.drop_first(),
            );
        } else {
            lemma_edit_keeps_lines_sound(next.line, queue, input.drop_first());
        }
    }
}

proof fn lemma_next_reply_keeps_sound(serial: SerialState, links: LinksState)
    requires
        fitting_responses(links.responses),
        links.within_capacity(),
    ensures
        ({
            let (next, after) = next_reply(serial, links);
            &&& fitting_responses(after.responses)
            &&& after.within_capacity()
            &&& after.lines == links.lines
            &&& next.line == serial.line
            &&& match next.stage {
                Stage::CheckingPort => true,
                Stage::Writing { pending, then } => pending.len() > 0 && then is Reply
                    && fitting_packets(pending),
                _ => false,
            }
        }),
{
    lemma_queues_stay_sound(links.responses, Seq::empty());
    if links.responses.len() > 0 {
        reveal(fitting_packets);
        law_reply_fits_packets(links.responses[0]);
    }
}

proof fn lemma_packets_keep_fitting(packets: Seq<Seq<u8>>, packet: Seq<u8>)
    ensures
        fitting_packets(packets) && packets.len() > 0 ==> fitting_packets(packets.drop_first()),
        0 < packet.len() <= PACKET_SIZE ==> fitting_packets(seq![packet]),
        fitting_packets(seq![utf8(ERASE)]),
{
    reveal(fitting_packets);
    lemma_short_packets();
}

proof fn lemma_commands_keep_sound(app: AppState, links: LinksState, event: AppEventState)
    requires
        fitting_responses(links.responses),
        links.within_capacity(),
    ensures
        ({
            let after = app_transition(app, links, event).1;
            &&& fitting_responses(after.responses)
            &&& after.within_capacity()
            &&& after.lines == links.lines
        }),
{
    let queue = links.responses;
    lemma_fixed_texts_fit();
    lemma_queues_stay_sound(queue, utf8(HELP_TEXT));
    lemma_queues_stay_sound(queue, utf8(BOOTSEL_TEXT));
    lemma_queues_stay_sound(queue, utf8(ADC_ERROR_TEXT));
    lemma_queues_stay_sound(queue, utf8(UNKNOWN_TEXT));
    law_written_fits(Seq::empty(), info_pieces(app.version, app.uid, app.reason));
    lemma_queues_stay_sound(queue, app.info_text());
    match event {
        AppEventState::Temperature { raw, tenths } => {
            lemma_temperature_text_fits(raw, tenths);
            lemma_queues_stay_sound(queue, temperature_text(raw, tenths));
        },
        AppEventState::Uptime { millis } => {
            lemma_uptime_text_fits(millis);
            lemma_queues_stay_sound(queue, uptime_text(millis));
        },
        _ => {},
    }
}

proof fn lemma_port_keeps_sound(console: Console, event: EventState)
    requires
        console.sound(),
    ensures
        console.advance(Input::Port(event)).sound(),
{
    let links = console.links;
    let serial = console.serial;
    lemma_queues_stay_sound(links.lines, Seq::empty());
    lemma_next_reply_keeps_sound(serial, links);
    lemma_packets_keep_fitting(Seq::empty(), Seq::empty());
    match (serial.stage, event) {
        (Stage::AwaitingDtr, EventState::Port { .. }) => {
            reveal(fitting_packets);
            law_greeting_fits_packets(serial.report);
            law_greeting_fits_packets(None);
        },
        (Stage::Writing { pending, then: Then::Drain }, EventState::Done) => {
            lemma_packets_keep_fitting(pending, Seq::empty());
        },
        (Stage::Writing { pending, then: Then::Reply }, EventState::Done) => {
            lemma_packets_keep_fitting(pending, Seq::empty());
        },
        (Stage::Reading, EventState::Packet { data }) => {
            lemma_packets_keep_fitting(Seq::empty(), data);
        },
        (Stage::Writing { pending, then: Then::Edit { input } }, EventState::Done) => {
            lemma_packets_keep_fitting(pending, Seq::empty());
            lemma_edit_keeps_lines_sound(serial.line, links.lines, input);
            let edited = edit(serial.line, links.lines, input);
            lemma_next_reply_keeps_sound(
                SerialState { line: edited.line, ..serial },
                LinksState { lines: edited.queue, ..links },
            );
        },
        _ => {},
    }
}

/// A sound state stays sound whatever happens.
pub proof fn lemma_advance_keeps_sound(console: Console, input: Input)
    requires
        console.sound(),
    ensures
        console.advance(input).sound(),
{
    let links = console.links;
    match input {
        Input::Port(event) => {
            lemma_port_keeps_sound(console, event);
        },
        Input::Command(event) => {
            lemma_commands_keep_sound(console.app, links, event);
        },
        Input::NextLine => {
            if links.lines.len() > 0 {
                lemma_queues_stay_sound(links.lines, Seq::empty());
                lemma_commands_keep_sound(
                    console.app,
                    LinksState { lines: links.lines.drop_first(), ..links },
                    AppEventState::Line { line: links.lines[0] },
                );
            }
        },
    }
}

/// Whatever happens, in whatever order: the line under construction and the queued lines
/// stay within their capacity and free of the editor's control bytes, no queued line is
/// empty, the queues stay within their capacity, no response outgrows its own, while a
/// session is being opened neither a line nor a queued line is there, and everything that
/// is written, the greeting with its report not excepted, is in packets that the port can
/// take.
pub proof fn law_every_reachable_state_is_sound(
    report: Option<Seq<u8>>,
    version: Seq<u8>,
    uid: Seq<u8>,
    reason: Option<ResetReason>,
    inputs: Seq<Input>,
)
    ensures
        Console::boot(report, version, uid, reason).run(inputs).sound(),
    decreases inputs.len(),
{
    if inputs.len() > 0 {
        law_every_reachable_state_is_sound(report, version, uid, reason, inputs.drop_last());
        lemma_advance_keeps_sound(
            Console::boot(report, version, uid, reason).run(inputs.drop_last()),
            inputs.last(),
        );
    } else {
        lemma_queues_stay_sound(Seq::empty(), Seq::empty());
    }
}

/// The report of a panic is shown to one session at most: once a session was opened,
/// whatever happens from there on, every later one is greeted with the banner alone.
pub proof fn law_report_is_shown_once(console: Console, inputs: Seq<Input>, baud: u32)
    requires
        !console.serial.first,
    ensures
        !console.run(inputs).serial.first,
        console.run(inputs).serial.stage is AwaitingDtr ==> {
            let opened = console.run(inputs).advance(Input::Port(EventState::Port { dtr: true, baud }));
            opened.serial.stage == (Stage::Writing {
                pending: seq![utf8(BANNER)],
                then: Then::Drain,
            })
        },
    decreases inputs.len(),
{
    if inputs.len() > 0 {
        law_report_is_shown_once(console, inputs.drop_last(), baud);
    }
}

/// The first session shows the report of the panic that ended the previous boot, and the
/// banner alone after a clean one, however long it takes until the port is opened.
pub proof fn law_first_session_shows_the_report(
    report: Option<Seq<u8>>,
    version: Seq<u8>,
    uid: Seq<u8>,
    reason: Option<ResetReason>,
    inputs: Seq<Input>,
    baud: u32,
)
    requires
        Console::boot(report, version, uid, reason).run(inputs).serial.first,
        Console::boot(report, version, uid, reason).run(inputs).serial.stage is AwaitingDtr,
    ensures
        ({
            let opened = Console::boot(report, version, uid, reason).run(inputs).advance(
                Input::Port(EventState::Port { dtr: true, baud }),
            );
            &&& opened.serial.stage == (Stage::Writing {
                pending: greeting(report),
                then: Then::Drain,
            })
            &&& !opened.serial.first
        }),
{
    lemma_report_never_changes(Console::boot(report, version, uid, reason), inputs);
}

proof fn lemma_report_never_changes(console: Console, inputs: Seq<Input>)
    ensures
        console.run(inputs).serial.report == console.serial.report,
        console.run(inputs).app.version == console.app.version,
        console.run(inputs).app.uid == console.app.uid,
        console.run(inputs).app.reason == console.app.reason,
    decreases inputs.len(),
{
    if inputs.len() > 0 {
        lemma_report_never_changes(console, inputs.drop_last());
    }
}

/// Whether no new session is opened in the course of a run.
pub open spec fn same_session(console: Console, inputs: Seq<Input>) -> bool
    decreases inputs.len(),
{
    inputs.len() > 0 ==> {
        &&& same_session(console, inputs.drop_last())
        &&& !(console.run(inputs.drop_last()).serial.stage is AwaitingDtr)
    }
}

} // verus!
