//! What is typed in a session, and what of it reaches the commands.

use vstd::prelude::*;

use crate::commands::AppStage;
use crate::console::{lemma_advance_keeps_sound, same_session, Console, Input};
use crate::line::{law_typing_in_parts, type_bytes};
use crate::links::{enqueue_all, law_queue_keeps_what_fits, QUEUE_CAPACITY};
use crate::serial::{EventState, SerialState, Stage, Then};
use crate::session::law_interpreting_skips_nothing;
use crate::text::PACKET_SIZE;

verus! {

/// What one thing that happens adds to what the host has typed.
pub open spec fn arriving(at: Console, input: Input) -> Seq<u8> {
    match input {
        Input::Port(EventState::Packet { data }) => if at.serial.stage is Reading && data.len()
            <= PACKET_SIZE {
            data
        } else {
            Seq::empty()
        },
        _ => Seq::empty(),
    }
}

/// What the host has typed in the course of a run.
pub open spec fn received(console: Console, inputs: Seq<Input>) -> Seq<u8>
    decreases inputs.len(),
{
    if inputs.len() == 0 {
        Seq::empty()
    } else {
        received(console, inputs.drop_last()) + arriving(
            console.run(inputs.drop_last()),
            inputs.last(),
        )
    }
}

/// The line that the commands take in one thing that happens, if it is that.
pub open spec fn taking(at: Console, input: Input) -> Seq<Seq<u8>> {
    if input is NextLine && at.app.stage == AppStage::Idle && at.links.lines.len() > 0 {
        seq![at.links.lines[0]]
    } else {
        Seq::empty()
    }
}

/// The lines that the commands have taken in the course of a run.
pub open spec fn taken(console: Console, inputs: Seq<Input>) -> Seq<Seq<u8>>
    decreases inputs.len(),
{
    if inputs.len() == 0 {
        Seq::empty()
    } else {
        taken(console, inputs.drop_last()) + taking(
            console.run(inputs.drop_last()),
            inputs.last(),
        )
    }
}

/// Whether every line that one thing that happens can complete finds room in the queue.
pub open spec fn has_room(at: Console, input: Input) -> bool {
    input is Port ==> at.links.lines.len() + type_bytes(
        at.serial.line,
        waiting_input(at.serial),
    ).completed.len() <= QUEUE_CAPACITY
}

/// Whether every line found room in the queue in the course of a run.
pub open spec fn no_line_lost(console: Console, inputs: Seq<Input>) -> bool
    decreases inputs.len(),
{
    inputs.len() > 0 ==> no_line_lost(console, inputs.drop_last()) && has_room(
        console.run(inputs.drop_last()),
        inputs.last(),
    )
}

/// The input that is echoed but not yet interpreted.
pub open spec fn waiting_input(serial: SerialState) -> Seq<u8> {
    match serial.stage {
        Stage::Writing { then: Then::Edit { input }, .. } => input,
        _ => Seq::empty(),
    }
}

/// Whether all items of one row stand in another, in the same order.
pub open spec fn is_subsequence(a: Seq<Seq<u8>>, b: Seq<Seq<u8>>) -> bool
    decreases b.len(),
{
    ||| a.len() == 0
    ||| b.len() > 0 && a.last() == b.last() && is_subsequence(a.drop_last(), b.drop_last())
    ||| b.len() > 0 && is_subsequence(a, b.drop_last())
}

proof fn lemma_subsequence_of_longer(a: Seq<Seq<u8>>, b: Seq<Seq<u8>>, more: Seq<Seq<u8>>)
    requires
        is_subsequence(a, b),
    ensures
        is_subsequence(a, b + more),
    decreases more.len(),
{
    if more.len() == 0 {
        assert(b + more =~= b);
    } else {
        lemma_subsequence_of_longer(a, b, more.drop_last());
        assert((b + more).drop_last() =~= b + more.drop_last());
    }
}

proof fn lemma_both_longer(a: Seq<Seq<u8>>, b: Seq<Seq<u8>>, more: Seq<Seq<u8>>)
    requires
        is_subsequence(a, b),
    ensures
        is_subsequence(a + more, b + more),
    decreases more.len(),
{
    if more.len() == 0 {
        assert(a + more =~= a);
        assert(b + more =~= b);
    } else {
        lemma_both_longer(a, b, more.drop_last());
        assert((a + more).drop_last() =~= a + more.drop_last());
        assert((b + more).drop_last() =~= b + more.drop_last());
    }
}

proof fn lemma_enqueued_is_subsequence(
    out: Seq<Seq<u8>>,
    queue: Seq<Seq<u8>>,
    done: Seq<Seq<u8>>,
    items: Seq<Seq<u8>>,
)
    requires
        queue.len() <= QUEUE_CAPACITY,
        is_subsequence(out + queue, done),
    ensures
        is_subsequence(out + enqueue_all(queue, items), done + items),
        queue.len() + items.len() <= QUEUE_CAPACITY && out + queue == done ==> out + enqueue_all(
            queue,
            items,
        ) == done + items,
{
    law_queue_keeps_what_fits(queue, items);
    let room = QUEUE_CAPACITY - queue.len();
    let kept = if items.len() <= room {
        items
    } else {
        items.take(room)
    };
    assert(enqueue_all(queue, items) =~= queue + kept);
    assert(items =~= kept + items.skip(kept.len() as int));
    lemma_both_longer(out + queue, done, kept);
    lemma_subsequence_of_longer((out + queue) + kept, done + kept, items.skip(kept.len() as int));
    assert((out + queue) + kept =~= out + (queue + kept));
    assert((done + kept) + items.skip(kept.len() as int) =~= done + items);
}

/// How typing goes on while an echo or an erasure is written, one event at a time.
proof fn lemma_interpreting_step(
    at: Console,
    out: Seq<Seq<u8>>,
    read: Seq<u8>,
    typed: Seq<u8>,
) -> (more: Seq<u8>)
    requires
        at.sound(),
        at.serial.stage matches Stage::Writing { pending, then: Then::Edit { input } }
            && pending.len() == 1 && input == typed,
        at.serial.line == type_bytes(Seq::empty(), read).line,
        is_subsequence(out + at.links.lines, type_bytes(Seq::empty(), read).completed),
    ensures
        ({
            let next = at.advance(Input::Port(EventState::Done));
            &&& more + waiting_input(next.serial) == read + typed
            &&& next.serial.line == type_bytes(Seq::empty(), more).line
            &&& is_subsequence(
                out + next.links.lines,
                type_bytes(Seq::empty(), more).completed,
            )
            &&& has_room(at, Input::Port(EventState::Done)) && out + at.links.lines == type_bytes(
                Seq::empty(),
                read,
            ).completed ==> out + next.links.lines == type_bytes(Seq::empty(), more).completed
            &&& !next.opening()
        }),
{
    let empty = Seq::<u8>::empty();
    let n = law_interpreting_skips_nothing(at.serial.line, at.links.lines, typed);
    let part = typed.take(n);
    let rest = typed.skip(n);
    let done = type_bytes(empty, read).completed;
    law_typing_in_parts(empty, read, part);
    law_typing_in_parts(at.serial.line, part, rest);
    assert(typed =~= part + rest);
    lemma_enqueued_is_subsequence(
        out,
        at.links.lines,
        done,
        type_bytes(at.serial.line, part).completed,
    );
    let next = at.advance(Input::Port(EventState::Done));
    assert(waiting_input(next.serial) =~= rest);
    assert((read + part) + rest =~= read + typed);
    read + part
}

/// Any other event of a session leaves the line and the queue of lines alone.
proof fn lemma_other_events(at: Console, event: EventState)
    requires
        at.sound(),
        !at.opening(),
        !(at.serial.stage is AwaitingDtr),
        !(at.serial.stage matches Stage::Writing { pending, then: Then::Edit { .. } }
            && pending.len() == 1 && event is Done),
    ensures
        ({
            let next = at.advance(Input::Port(event));
            &&& next.serial.line == at.serial.line
            &&& next.links.lines == at.links.lines
            &&& waiting_input(next.serial) == waiting_input(at.serial) + arriving(
                at,
                Input::Port(event),
            )
            &&& !next.opening()
        }),
{
    let next = at.advance(Input::Port(event));
    assert(waiting_input(next.serial) =~= waiting_input(at.serial) + arriving(
        at,
        Input::Port(event),
    ));
}

proof fn lemma_typing_step(
    at: Console,
    input: Input,
    out: Seq<Seq<u8>>,
    read: Seq<u8>,
) -> (more: Seq<u8>)
    requires
        at.sound(),
        !at.opening(),
        !(at.serial.stage is AwaitingDtr),
        at.serial.line == type_bytes(Seq::empty(), read).line,
        is_subsequence(out + at.links.lines, type_bytes(Seq::empty(), read).completed),
    ensures
        more + waiting_input(at.advance(input).serial) == (read + waiting_input(at.serial))
            + arriving(at, input),
        at.advance(input).serial.line == type_bytes(Seq::empty(), more).line,
        is_subsequence(
            (out + taking(at, input)) + at.advance(input).links.lines,
            type_bytes(Seq::empty(), more).completed,
        ),
        has_room(at, input) && out + at.links.lines == type_bytes(Seq::empty(), read).completed
            ==> (out + taking(at, input)) + at.advance(input).links.lines == type_bytes(
            Seq::empty(),
            more,
        ).completed,
        !at.advance(input).opening(),
{
    let none = Seq::<Seq<u8>>::empty();
    match input {
        Input::Port(event) => {
            assert(out + none =~= out);
            match (at.serial.stage, event) {
                (
                    Stage::Writing { pending, then: Then::Edit { input: typed } },
                    EventState::Done,
                ) => {
                    assert((read + typed) + Seq::<u8>::empty() =~= read + typed);
                    if pending.len() == 1 {
                        lemma_interpreting_step(at, out, read, typed)
                    } else {
                        lemma_other_events(at, event);
                        read
                    }
                },
                _ => {
                    lemma_other_events(at, event);
                    assert(read + (waiting_input(at.serial) + arriving(at, input)) =~= (read
                        + waiting_input(at.serial)) + arriving(at, input));
                    read
                },
            }
        },
        _ => {
            let next = at.advance(input);
            assert((read + waiting_input(at.serial)) + Seq::<u8>::empty() =~= read
                + waiting_input(at.serial));
            assert((out + taking(at, input)) + next.links.lines =~= out + at.links.lines);
            read
        },
    }
}

/// The commands get what is typed, and nothing else: over one session, whatever else
/// happens in whatever order, the lines that they have taken and those still queued are
/// lines that the input typed so far completes, in the order in which it completes them;
/// they are all of those lines, unless one found the queue full. And the line under
/// construction is what that input leaves.
pub proof fn law_commands_get_what_is_typed(start: Console, inputs: Seq<Input>) -> (read: Seq<u8>)
    requires
        start.sound(),
        start.serial.stage is CheckingPort,
        start.serial.line.len() == 0,
        start.links.lines.len() == 0,
        same_session(start, inputs),
    ensures
        read + waiting_input(start.run(inputs).serial) == received(start, inputs),
        start.run(inputs).serial.line == type_bytes(Seq::empty(), read).line,
        is_subsequence(
            taken(start, inputs) + start.run(inputs).links.lines,
            type_bytes(Seq::empty(), read).completed,
        ),
        no_line_lost(start, inputs) ==> taken(start, inputs) + start.run(inputs).links.lines
            == type_bytes(Seq::empty(), read).completed,
        start.run(inputs).sound(),
        !start.run(inputs).opening(),
    decreases inputs.len(),
{
    let empty = Seq::<u8>::empty();
    if inputs.len() == 0 {
        assert(start.serial.line =~= empty);
        assert(taken(start, inputs) + start.links.lines =~= Seq::empty());
        assert(empty + waiting_input(start.serial) =~= received(start, inputs));
        empty
    } else {
        let front = inputs.drop_last();
        let read = law_commands_get_what_is_typed(start, front);
        lemma_advance_keeps_sound(start.run(front), inputs.last());
        lemma_typing_step(start.run(front), inputs.last(), taken(start, front), read)
    }
}

} // verus!
