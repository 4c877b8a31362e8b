//! The two queues between the serial port and the commands: lines one way, responses
//! the other.

use vstd::prelude::*;

use embassy_sync::blocking_mutex::raw::NoopRawMutex;
use embassy_sync::channel::Channel;

use crate::line::LineBuffer;
use crate::response::Response;

verus! {

/// The items that a queue can hold.
pub const QUEUE_CAPACITY: usize = 4;

/// Lines on their way to the commands: an `embassy_sync` channel with one owner, in
/// which no task waits.
#[verifier::external_body]
pub struct LineQueue {
    channel: Channel<NoopRawMutex, LineBuffer, 4>,
}

/// The lines in a queue, the oldest first.
pub uninterp spec fn queued_lines(queue: LineQueue) -> Seq<Seq<u8>>;

/// Responses on their way to the port: an `embassy_sync` channel with one owner, in
/// which no task waits.
#[verifier::external_body]
pub struct ResponseQueue {
    channel: Channel<NoopRawMutex, Response, 4>,
}

/// The responses in a queue, the oldest first.
pub uninterp spec fn queued_responses(queue: ResponseQueue) -> Seq<Seq<u8>>;

/// A queue with one more item at its end, or unchanged where it is full.
pub open spec fn enqueue(queue: Seq<Seq<u8>>, item: Seq<u8>) -> Seq<Seq<u8>> {
    if queue.len() < QUEUE_CAPACITY {
        queue.push(item)
    } else {
        queue
    }
}

/// A queue after some items are put in one after the other.
pub open spec fn enqueue_all(queue: Seq<Seq<u8>>, items: Seq<Seq<u8>>) -> Seq<Seq<u8>>
    decreases items.len(),
{
    if items.len() == 0 {
        queue
    } else {
        enqueue_all(enqueue(queue, items[0]), items.drop_first())
    }
}

impl LineQueue {
    /// Calls `Channel::new`, which makes a channel that holds nothing.
    #[verifier::external_body]
    fn new() -> (queue: LineQueue)
        ensures
            queued_lines(queue) == Seq::<Seq<u8>>::empty(),
    {
        LineQueue { channel: Channel::new() }
    }

    /// Calls `Channel::try_send`. The line goes to the end of the channel and the result
    /// is true; a full channel stays as it is and the result is false.
    #[verifier::external_body]
    fn try_send(&mut self, line: LineBuffer) -> (sent: bool)
        ensures
            sent == (queued_lines(*old(self)).len() < QUEUE_CAPACITY),
            queued_lines(*final(self)) == enqueue(queued_lines(*old(self)), line@),
    {
        self.channel.try_send(line).is_ok()
    }

    /// Calls `Channel::try_receive`. The oldest line is taken out and returned; an empty
    /// channel stays empty and the result is `None`.
    #[verifier::external_body]
    fn try_receive(&mut self) -> (line: Option<LineBuffer>)
        ensures
            line is Some <==> queued_lines(*old(self)).len() > 0,
            line matches Some(l) ==> l@ == queued_lines(*old(self))[0] && queued_lines(*final(self))
                == queued_lines(*old(self)).drop_first(),
            line is None ==> queued_lines(*final(self)) == queued_lines(*old(self)),
    {
        self.channel.try_receive().ok()
    }
}

impl ResponseQueue {
    /// Calls `Channel::new`, which makes a channel that holds nothing.
    #[verifier::external_body]
    fn new() -> (queue: ResponseQueue)
        ensures
            queued_responses(queue) == Seq::<Seq<u8>>::empty(),
    {
        ResponseQueue { channel: Channel::new() }
    }

    /// Calls `Channel::try_send`. The response goes to the end of the channel and the
    /// result is true; a full channel stays as it is and the result is false.
    #[verifier::external_body]
    fn try_send(&mut self, response: Response) -> (sent: bool)
        ensures
            sent == (queued_responses(*old(self)).len() < QUEUE_CAPACITY),
            queued_responses(*final(self)) == enqueue(queued_responses(*old(self)), response@),
    {
        self.channel.try_send(response).is_ok()
    }

    /// Calls `Channel::try_receive`. The oldest response is taken out and returned; an
    /// empty channel stays empty and the result is `None`.
    #[verifier::external_body]
    fn try_receive(&mut self) -> (response: Option<Response>)
        ensures
            response is Some <==> queued_responses(*old(self)).len() > 0,
            response matches Some(r) ==> r@ == queued_responses(*old(self))[0]
                && queued_responses(*final(self)) == queued_responses(*old(self)).drop_first(),
            response is None ==> queued_responses(*final(self)) == queued_responses(*old(self)),
    {
        self.channel.try_receive().ok()
    }
}

/// What both queues hold.
#[verifier::ext_equal]
pub struct LinksState {
    pub lines: Seq<Seq<u8>>,
    pub responses: Seq<Seq<u8>>,
}

impl LinksState {
    /// Nothing on its way.
    pub open spec fn empty() -> LinksState {
        LinksState { lines: Seq::empty(), responses: Seq::empty() }
    }

    /// Neither queue holds more than it can.
    pub open spec fn within_capacity(self) -> bool {
        self.lines.len() <= QUEUE_CAPACITY && self.responses.len() <= QUEUE_CAPACITY
    }
}

/// The queues between the serial port and the commands.
pub struct Links {
    lines: LineQueue,
    responses: ResponseQueue,
}

impl View for Links {
    type V = LinksState;

    closed spec fn view(&self) -> LinksState {
        LinksState {
            lines: queued_lines(self.lines),
            responses: queued_responses(self.responses),
        }
    }
}

impl Links {
    /// Two empty queues.
    pub fn new() -> (links: Links)
        ensures
            links@ == LinksState::empty(),
            links@.lines.len() == 0,
            links@.responses.len() == 0,
    {
        Links { lines: LineQueue::new(), responses: ResponseQueue::new() }
    }

    /// Passes a line on to the commands. It is lost where the queue is full.
    pub fn submit_line(&mut self, line: LineBuffer) -> (accepted: bool)
        ensures
            accepted == (old(self)@.lines.len() < QUEUE_CAPACITY),
            final(self)@ == (LinksState { lines: enqueue(old(self)@.lines, line@), ..old(self)@ }),
            accepted == (old(self)@.lines.len() < 4),
            final(self)@.responses == old(self)@.responses,
            final(self)@.lines == if accepted {
                old(self)@.lines.push(line@)
            } else {
                old(self)@.lines
            },
    {
        self.lines.try_send(line)
    }

    /// The next line for the commands.
    pub fn take_line(&mut self) -> (line: Option<LineBuffer>)
        ensures
            line is Some <==> old(self)@.lines.len() > 0,
            line matches Some(l) ==> l@ == old(self)@.lines[0] && final(self)@ == (LinksState {
                lines: old(self)@.lines.drop_first(),
                ..old(self)@
            }),
            line is None ==> final(self)@ == old(self)@,
    {
        self.lines.try_receive()
    }

    /// Passes a response on to the port. It is lost where the queue is full.
    pub fn submit_response(&mut self, response: Response) -> (accepted: bool)
        ensures
            accepted == (old(self)@.responses.len() < QUEUE_CAPACITY),
            final(self)@ == (LinksState {
                responses: enqueue(old(self)@.responses, response@),
                ..old(self)@
            }),
            accepted == (old(self)@.responses.len() < 4),
            final(self)@.lines == old(self)@.lines,
            final(self)@.responses == if accepted {
                old(self)@.responses.push(response@)
            } else {
                old(self)@.responses
            },
    {
        self.responses.try_send(response)
    }

    /// The next response for the port.
    pub fn take_response(&mut self) -> (response: Option<Response>)
        ensures
            response is Some <==> old(self)@.responses.len() > 0,
            response matches Some(r) ==> r@ == old(self)@.responses[0] && final(self)@
                == (LinksState { responses: old(self)@.responses.drop_first(), ..old(self)@ }),
            response is None ==> final(self)@ == old(self)@,
    {
        self.responses.try_receive()
    }

    /// Throws away whatever is on its way.
    pub fn discard_pending(&mut self)
        ensures
            final(self)@ == LinksState::empty(),
            final(self)@.lines.len() == 0,
            final(self)@.responses.len() == 0,
    {
        while self.take_line().is_some()
            decreases self@.lines.len(),
        {
        }
        while self.take_response().is_some()
            invariant
                self@.lines.len() == 0,
            decreases self@.responses.len(),
        {
        }
        assert(self@ =~= LinksState::empty());
    }
}

/// Items come out of a queue in the order in which they went in.
pub proof fn law_queue_is_first_in_first_out(queue: Seq<Seq<u8>>, item: Seq<u8>)
    requires
        0 < queue.len() < QUEUE_CAPACITY,
    ensures
        enqueue(queue, item)[0] == queue[0],
        enqueue(queue, item).drop_first() == enqueue(queue.drop_first(), item),
{
    assert(enqueue(queue, item).drop_first() =~= enqueue(queue.drop_first(), item));
}

/// Of items put in one after the other, those that find room stay, in order, and the
/// others are lost.
pub proof fn law_queue_keeps_what_fits(queue: Seq<Seq<u8>>, items: Seq<Seq<u8>>)
    requires
        queue.len() <= QUEUE_CAPACITY,
    ensures
        enqueue_all(queue, items) == if queue.len() + items.len() <= QUEUE_CAPACITY {
            queue + items
        } else {
            (queue + items).take(QUEUE_CAPACITY as int)
        },
    decreases items.len(),
{
    if items.len() == 0 {
        assert(queue + items =~= queue);
    } else {
        let next = enqueue(queue, items[0]);
        law_queue_keeps_what_fits(next, items.drop_first());
        if queue.len() < QUEUE_CAPACITY {
            assert(next + items.drop_first() =~= queue + items);
        } else {
            assert((next + items.drop_first()).take(QUEUE_CAPACITY as int) =~= queue);
            assert((queue + items).take(QUEUE_CAPACITY as int) =~= queue);
        }
    }
}

/// A queue of fewer than four items takes one more at its end and keeps the others where
/// they are; any other stays as it is.
pub proof fn law_queue_holds_four(queue: Seq<Seq<u8>>, item: Seq<u8>)
    ensures
        enqueue(queue, item).len() == if queue.len() < 4 {
            queue.len() + 1
        } else {
            queue.len()
        },
        forall|i: int|
            0 <= i < queue.len() ==> #[trigger] enqueue(queue, item)[i] == queue[i],
        queue.len() < 4 ==> enqueue(queue, item).last() == item,
{
}

/// Of items put in one after the other, a queue keeps as many as find one of its four
/// places, each at the place where it found it.
pub proof fn law_queue_keeps_the_first_four(queue: Seq<Seq<u8>>, items: Seq<Seq<u8>>, k: int)
    requires
        queue.len() <= 4,
        0 <= k < queue.len() + items.len(),
        k < 4,
    ensures
        enqueue_all(queue, items).len() == if queue.len() + items.len() <= 4 {
            queue.len() + items.len()
        } else {
            4
        },
        enqueue_all(queue, items)[k] == if k < queue.len() {
            queue[k]
        } else {
            items[k - queue.len()]
        },
{
    law_queue_keeps_what_fits(queue, items);
}

/// Putting items in in two parts is putting them in at once.
pub proof fn lemma_enqueue_in_parts(queue: Seq<Seq<u8>>, a: Seq<Seq<u8>>, b: Seq<Seq<u8>>)
    ensures
        enqueue_all(queue, a + b) == enqueue_all(enqueue_all(queue, a), b),
    decreases a.len(),
{
    if a.len() == 0 {
        assert(a + b =~= b);
    } else {
        lemma_enqueue_in_parts(enqueue(queue, a[0]), a.drop_first(), b);
        assert((a + b).drop_first() =~= a.drop_first() + b);
    }
}

/// A full queue loses the newcomer and keeps what it holds.
pub proof fn law_full_queue_drops_the_newcomer(queue: Seq<Seq<u8>>, item: Seq<u8>)
    requires
        queue.len() == QUEUE_CAPACITY,
    ensures
        enqueue(queue, item) == queue,
{
}

} // verus!
