//! What the commands answer in a session, and how it reaches the host.

use vstd::prelude::*;

use crate::commands::{answer_of, direct_answer, AppEventState, AppStage};
use crate::console::{lemma_advance_keeps_sound, same_session, Console, Input};
use crate::line::{ends_line, erases, law_ended_text_is_one_line, plain, type_byte};
use crate::line::LINE_CAPACITY;
use crate::links::{enqueue_all, LinksState};
use crate::packets::reply;
use crate::serial::{edit, EventState, Stage, Then, BOOTSEL_BAUD};
use crate::session::{erasures, law_interpreting_skips_nothing};
use crate::text::PACKET_SIZE;

verus! {

/// The packets of some responses, one response after the other.
pub open spec fn replies(responses: Seq<Seq<u8>>) -> Seq<Seq<u8>>
    decreases responses.len(),
{
    if responses.len() == 0 {
        Seq::empty()
    } else {
        reply(responses[0]) + replies(responses.drop_first())
    }
}

/// The packet of a reply that one thing that happens finishes writing, if it is that.
pub open spec fn writing_reply(at: Console, input: Input) -> Seq<Seq<u8>> {
    match (at.serial.stage, input) {
        (Stage::Writing { pending, then: Then::Reply }, Input::Port(EventState::Done)) => seq![
            pending[0],
        ],
        _ => Seq::empty(),
    }
}

/// The packets of replies that were written in the course of a run.
pub open spec fn written_replies(console: Console, inputs: Seq<Input>) -> Seq<Seq<u8>>
    decreases inputs.len(),
{
    if inputs.len() == 0 {
        Seq::empty()
    } else {
        written_replies(console, inputs.drop_last()) + writing_reply(
            console.run(inputs.drop_last()),
            inputs.last(),
        )
    }
}

/// The response that the commands give in one thing that happens, if they give one and it
/// finds room in the queue.
pub open spec fn giving(at: Console, input: Input) -> Seq<Seq<u8>> {
    let old_queue = at.links.responses;
    let new_queue = at.advance(input).links.responses;
    if !(input is Port) && new_queue.len() > old_queue.len() {
        seq![new_queue.last()]
    } else {
        Seq::empty()
    }
}

/// The responses that the commands gave and that found room in the queue, in the course
/// of a run.
pub open spec fn accepted(console: Console, inputs: Seq<Input>) -> Seq<Seq<u8>>
    decreases inputs.len(),
{
    if inputs.len() == 0 {
        Seq::empty()
    } else {
        accepted(console, inputs.drop_last()) + giving(
            console.run(inputs.drop_last()),
            inputs.last(),
        )
    }
}

/// The packets of replies that are still to be written.
pub open spec fn unwritten_replies(console: Console) -> Seq<Seq<u8>> {
    let current = match console.serial.stage {
        Stage::Writing { pending, then: Then::Reply } => pending,
        _ => Seq::empty(),
    };
    current + replies(console.links.responses)
}

proof fn lemma_replies_of_more(a: Seq<Seq<u8>>, b: Seq<Seq<u8>>)
    ensures
        replies(a + b) == replies(a) + replies(b),
    decreases a.len(),
{
    if a.len() == 0 {
        assert(a + b =~= b);
        assert(replies(a) + replies(b) =~= replies(b));
    } else {
        assert((a + b).drop_first() =~= a.drop_first() + b);
        lemma_replies_of_more(a.drop_first(), b);
        assert(replies(a + b) =~= replies(a) + replies(b));
    }
}

proof fn lemma_port_keeps_unwritten(at: Console, event: EventState)
    requires
        at.sound(),
        !at.opening(),
        !(at.serial.stage is AwaitingDtr),
    ensures
        writing_reply(at, Input::Port(event)) + unwritten_replies(at.advance(Input::Port(event)))
            == unwritten_replies(at),
        !at.advance(Input::Port(event)).opening(),
{
    let next = at.advance(Input::Port(event));
    let queue = at.links.responses;
    let none = Seq::<Seq<u8>>::empty();
    if queue.len() > 0 {
        assert(none + replies(queue) =~= reply(queue[0]) + replies(queue.drop_first()));
    }
    match (at.serial.stage, event) {
        (Stage::Writing { pending, then: Then::Reply }, EventState::Done) => {
            if pending.len() > 1 {
                assert(seq![pending[0]] + (pending.drop_first() + replies(queue)) =~= pending
                    + replies(queue));
            } else {
                assert(pending =~= seq![pending[0]]);
                assert(unwritten_replies(next) =~= replies(queue));
            }
        },
        _ => {
            assert(none + unwritten_replies(next) =~= unwritten_replies(at));
        },
    }
}

proof fn lemma_commands_add_what_they_give(at: Console, input: Input)
    requires
        !(input is Port),
    ensures
        at.advance(input).links.responses == at.links.responses + giving(at, input),
        at.advance(input).serial == at.serial,
        writing_reply(at, input).len() == 0,
{
    assert(at.advance(input).links.responses =~= at.links.responses + giving(at, input));
}

proof fn lemma_answering_step(at: Console, input: Input, out: Seq<Seq<u8>>, given: Seq<Seq<u8>>)
    requires
        at.sound(),
        !at.opening(),
        !(at.serial.stage is AwaitingDtr),
        out + unwritten_replies(at) == replies(given),
    ensures
        (out + writing_reply(at, input)) + unwritten_replies(at.advance(input)) == replies(
            given + giving(at, input),
        ),
        !at.advance(input).opening(),
{
    let next = at.advance(input);
    match input {
        Input::Port(event) => {
            lemma_port_keeps_unwritten(at, event);
            assert((out + writing_reply(at, input)) + unwritten_replies(next) =~= out + (
            writing_reply(at, input) + unwritten_replies(next)));
            assert(given + giving(at, input) =~= given);
        },
        _ => {
            let more = giving(at, input);
            lemma_commands_add_what_they_give(at, input);
            lemma_replies_of_more(at.links.responses, more);
            lemma_replies_of_more(given, more);
            assert((out + writing_reply(at, input)) + unwritten_replies(next) =~= (out
                + unwritten_replies(at)) + replies(more));
        },
    }
}

/// The host gets what the commands answer, and nothing else: over one session, whatever
/// else happens in whatever order, the packets written in reply and those still to be
/// written are the packets of the responses that were queued at its start or found room
/// since, each of them whole and once, in the order in which they were given.
pub proof fn law_host_gets_what_is_answered(start: Console, inputs: Seq<Input>)
    requires
        start.sound(),
        start.serial.stage is CheckingPort,
        same_session(start, inputs),
    ensures
        written_replies(start, inputs) + unwritten_replies(start.run(inputs)) == replies(
            start.links.responses + accepted(start, inputs),
        ),
        start.run(inputs).sound(),
        !start.run(inputs).opening(),
    decreases inputs.len(),
{
    let none = Seq::<Seq<u8>>::empty();
    if inputs.len() == 0 {
        assert(start.links.responses + none =~= start.links.responses);
        assert(none + (none + replies(start.links.responses)) =~= replies(start.links.responses));
    } else {
        let front = inputs.drop_last();
        let at = start.run(front);
        let given = start.links.responses + accepted(start, front);
        law_host_gets_what_is_answered(start, front);
        lemma_advance_keeps_sound(at, inputs.last());
        lemma_answering_step(at, inputs.last(), written_replies(start, front), given);
        assert(given + giving(at, inputs.last()) =~= start.links.responses + accepted(
            start,
            inputs,
        ));
    }
}

/// A command that is typed into an idle session, in one packet or in several, and ended is
/// answered: the last packet is echoed, the line reaches the commands as it was typed, and
/// once they have what they need, the next read that brings nothing is followed by the
/// answer, cut into packets and ended with an end of line.
pub proof fn law_typed_command_is_answered(
    console: Console,
    text: Seq<u8>,
    end: u8,
    baud: u32,
    reading: AppEventState,
    answer: Seq<u8>,
)
    requires
        console.serial.stage is Reading,
        console.links == LinksState::empty(),
        console.app.stage == AppStage::Idle,
        text.len() < PACKET_SIZE,
        0 < console.serial.line.len() + text.len() <= LINE_CAPACITY,
        forall|i: int| 0 <= i < text.len() ==> plain(#[trigger] text[i]),
        ends_line(end),
        baud != BOOTSEL_BAUD,
        answer_of(console.app, console.serial.line + text, reading) == Some(answer),
    ensures
        ({
            let line = console.serial.line + text;
            let echoing = console.advance(
                Input::Port(EventState::Packet { data: text.push(end) }),
            );
            let passed_on = echoing.advance(Input::Port(EventState::Done));
            let asked = passed_on.advance(Input::NextLine);
            let answered = if direct_answer(console.app, line) is Some {
                asked
            } else {
                asked.advance(Input::Command(reading))
            };
            let open = answered.advance(Input::Port(EventState::Port { dtr: true, baud }));
            let replying = open.advance(Input::Port(EventState::TimedOut));
            &&& echoing.serial.packet() == text.push(end)
            &&& passed_on.links.lines == seq![line]
            &&& passed_on.serial.line.len() == 0
            &&& answered.links == (LinksState {
                lines: Seq::<Seq<u8>>::empty(),
                responses: seq![answer],
            })
            &&& replying.serial.stage == (Stage::Writing {
                pending: reply(answer),
                then: Then::Reply,
            })
            &&& replying.links == LinksState::empty()
        }),
{
    let input = text.push(end);
    let none = Seq::<Seq<u8>>::empty();
    let before = console.serial.line;
    let line = before + text;
    law_ended_text_is_one_line(before, text, end);
    lemma_no_erasures(before, input);
    let n = law_interpreting_skips_nothing(before, none, input);
    assert(input.take(input.len() as int) =~= input);
    reveal_with_fuel(enqueue_all, 2);
    assert(seq![line].drop_first() =~= none);
    assert(none.push(line) =~= seq![line]);
    assert(edit(before, none, input).queue =~= seq![line]);
    let echoing = console.advance(Input::Port(EventState::Packet { data: input }));
    let passed_on = echoing.advance(Input::Port(EventState::Done));
    assert(seq![input].len() == 1);
    assert(passed_on.serial.stage is CheckingPort);
    assert(passed_on.links.lines.drop_first() =~= none);
    assert(none.push(answer) =~= seq![answer]);
    assert(seq![answer].drop_first() =~= none);
}

proof fn lemma_no_erasures(line: Seq<u8>, input: Seq<u8>)
    requires
        forall|i: int| 0 <= i < input.len() ==> !erases(#[trigger] input[i]),
    ensures
        erasures(line, input) == 0,
    decreases input.len(),
{
    if input.len() > 0 {
        lemma_no_erasures(type_byte(line, input[0]).line, input.drop_first());
    }
}

} // verus!
