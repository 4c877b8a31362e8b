//! How texts are cut into the packets that are written to the port.

use vstd::prelude::*;
use vstd::slice::slice_subrange;
use vstd::string::is_ascii_spec_bytes;

use crate::text::{law_banner_fits_packet, utf8, BANNER, PACKET_SIZE};

verus! {

/// The end of a line on the terminal.
pub const LINE_END: &'static str = "\r\n";

/// What overwrites the character that a backspace took away: a blank, and a step back.
pub const ERASE: &'static str = " \x08";

/// The top of the frame around the heading of a panic report.
pub const REPORT_TOP: &'static str = "╔══════════════════════════════════════╗\r\n";

/// The heading of a panic report.
pub const REPORT_TITLE: &'static str = "║  !! PANIC EN BOOT ANTERIOR !!       ║\r\n";

/// The bottom of the frame around the heading of a panic report.
pub const REPORT_BOTTOM: &'static str = "╚══════════════════════════════════════╝\r\n";

/// The rule below a panic report.
pub const REPORT_RULE: &'static str = "════════════════════════════════════════\r\n";

/// The last line of a panic report.
pub const REPORT_END: &'static str = "Sistema operando normalmente.\r\n\r\n";

/// The number of packets that `len` bytes fill.
pub open spec fn chunk_total(len: int) -> int {
    (len + PACKET_SIZE - 1) / PACKET_SIZE as int
}

/// The bytes in pieces of one packet each, the last of which may be shorter.
pub open spec fn chunks(bytes: Seq<u8>) -> Seq<Seq<u8>> {
    Seq::new(
        chunk_total(bytes.len() as int) as nat,
        |i: int|
            bytes.subrange(
                i * PACKET_SIZE,
                if (i + 1) * PACKET_SIZE <= bytes.len() {
                    (i + 1) * PACKET_SIZE
                } else {
                    bytes.len() as int
                },
            ),
    )
}

/// What a session starts with: the report of a panic in the previous boot, where there
/// is one to be shown, and always the banner. The frame, the heading and the message of
/// a report are cut like any text that may be larger than a packet.
pub open spec fn greeting(report: Option<Seq<u8>>) -> Seq<Seq<u8>> {
    match report {
        Some(message) => seq![utf8(LINE_END)] + chunks(utf8(REPORT_TOP)) + chunks(
            utf8(REPORT_TITLE),
        ) + chunks(utf8(REPORT_BOTTOM)) + chunks(message) + seq![utf8(LINE_END)] + chunks(
            utf8(REPORT_RULE),
        ) + seq![utf8(REPORT_END), utf8(BANNER)],
        None => seq![utf8(BANNER)],
    }
}

/// The text that a session starts with.
pub open spec fn greeting_text(report: Option<Seq<u8>>) -> Seq<u8> {
    match report {
        Some(message) => utf8(LINE_END) + utf8(REPORT_TOP) + utf8(REPORT_TITLE) + utf8(
            REPORT_BOTTOM,
        ) + message + utf8(LINE_END) + utf8(REPORT_RULE) + utf8(REPORT_END) + utf8(BANNER),
        None => utf8(BANNER),
    }
}

/// How a response is written: piece by piece, and then an end of line.
pub open spec fn reply(response: Seq<u8>) -> Seq<Seq<u8>> {
    chunks(response).push(utf8(LINE_END))
}

/// The packets written one after the other.
pub open spec fn stream(packets: Seq<Seq<u8>>) -> Seq<u8> {
    packets.flatten()
}

/// No piece is empty or larger than a packet, and only the last can be smaller.
pub proof fn law_chunks_fit_packets(bytes: Seq<u8>)
    ensures
        forall|i: int|
            0 <= i < chunks(bytes).len() ==> 0 < (#[trigger] chunks(bytes)[i]).len() <= PACKET_SIZE,
        forall|i: int|
            0 <= i < chunks(bytes).len() - 1 ==> (#[trigger] chunks(bytes)[i]).len() == PACKET_SIZE,
{
}

/// Text is cut every 64 bytes and nowhere else: each of its bytes is where it was, in the
/// packet that its place falls into, and nothing is added behind the last one.
pub proof fn law_text_is_cut_every_64_bytes(bytes: Seq<u8>)
    ensures
        chunks(bytes).len() == (bytes.len() + 63) / 64,
        forall|i: int|
            0 <= i < chunks(bytes).len() ==> (#[trigger] chunks(bytes)[i]).len() == if 64 * (i + 1)
                <= bytes.len() {
                64
            } else {
                bytes.len() - 64 * i
            },
        forall|k: int|
            0 <= k < bytes.len() ==> #[trigger] bytes[k] == chunks(bytes)[k / 64][k % 64],
{
}

proof fn lemma_stream_of_front(bytes: Seq<u8>, n: int)
    requires
        0 <= n <= chunks(bytes).len(),
    ensures
        stream(chunks(bytes).take(n)) == bytes.take(
            if n * PACKET_SIZE <= bytes.len() {
                n * PACKET_SIZE
            } else {
                bytes.len() as int
            },
        ),
    decreases n,
{
    let front = chunks(bytes).take(n);
    if n == 0 {
        assert(stream(front) =~= bytes.take(0));
    } else {
        lemma_stream_of_front(bytes, n - 1);
        front.lemma_flatten_and_flatten_alt_are_equivalent();
        front.drop_last().lemma_flatten_and_flatten_alt_are_equivalent();
        assert(front.drop_last() =~= chunks(bytes).take(n - 1));
        assert(front.last() == chunks(bytes)[n - 1]);
        assert(stream(front) =~= bytes.take(
            if n * PACKET_SIZE <= bytes.len() {
                n * PACKET_SIZE
            } else {
                bytes.len() as int
            },
        ));
    }
}

/// Written one after the other, the pieces are the bytes again.
pub proof fn law_chunks_lose_nothing(bytes: Seq<u8>)
    ensures
        stream(chunks(bytes)) == bytes,
{
    let n = chunks(bytes).len() as int;
    lemma_stream_of_front(bytes, n);
    assert(chunks(bytes).take(n) =~= chunks(bytes));
    assert(bytes.take(bytes.len() as int) =~= bytes);
}

/// A reply puts the response on the wire unchanged, followed by one end of line.
pub proof fn law_reply_is_response_and_line_end(response: Seq<u8>)
    ensures
        stream(reply(response)) == response + utf8(LINE_END),
{
    let packets = reply(response);
    packets.lemma_flatten_and_flatten_alt_are_equivalent();
    chunks(response).lemma_flatten_and_flatten_alt_are_equivalent();
    assert(packets.drop_last() =~= chunks(response));
    law_chunks_lose_nothing(response);
}

/// A reply is the response, cut every 64 bytes, and one packet more, which holds a
/// carriage return and a line feed. An empty response is that packet alone.
pub proof fn law_reply_ends_the_line(response: Seq<u8>)
    ensures
        reply(response).len() == (response.len() + 63) / 64 + 1,
        reply(response).last() == seq![0x0Du8, 0x0Au8],
        forall|i: int|
            0 <= i < reply(response).len() - 1 ==> (#[trigger] reply(response)[i]).len() == if 64 * (
            i + 1) <= response.len() {
                64
            } else {
                response.len() - 64 * i
            },
        forall|k: int|
            0 <= k < response.len() ==> #[trigger] response[k] == reply(response)[k / 64][k % 64],
{
    law_text_is_cut_every_64_bytes(response);
    lemma_control_texts();
    assert forall|i: int| 0 <= i < reply(response).len() - 1 implies (#[trigger] reply(
        response,
    )[i]).len() == if 64 * (i + 1) <= response.len() {
        64
    } else {
        response.len() - 64 * i
    } by {
        assert(reply(response)[i] == chunks(response)[i]);
    }
}

/// The end of a line and the erasure of a character, byte for byte.
pub proof fn lemma_control_texts()
    ensures
        utf8(LINE_END) == seq![0x0Du8, 0x0Au8],
        utf8(ERASE) == seq![0x20u8, 0x08u8],
{
    reveal_strlit("\r\n");
    reveal_strlit(" \x08");
    is_ascii_spec_bytes(LINE_END);
    is_ascii_spec_bytes(ERASE);
    assert(utf8(LINE_END) =~= seq![0x0Du8, 0x0Au8]);
    assert(utf8(ERASE) =~= seq![0x20u8, 0x08u8]);
}

/// Every packet of a reply fits into a packet of the port.
pub proof fn law_reply_fits_packets(response: Seq<u8>)
    ensures
        forall|i: int|
            0 <= i < reply(response).len() ==> 0 < (#[trigger] reply(response)[i]).len()
                <= PACKET_SIZE,
{
    law_chunks_fit_packets(response);
    lemma_short_packets();
    assert forall|i: int| 0 <= i < reply(response).len() implies 0 < (#[trigger] reply(
        response,
    )[i]).len() <= PACKET_SIZE by {
        if i < chunks(response).len() {
            assert(reply(response)[i] == chunks(response)[i]);
        }
    }
}

/// The texts that are written in one packet are short enough for it.
pub proof fn lemma_short_packets()
    ensures
        utf8(LINE_END).len() == 2,
        utf8(ERASE).len() == 2,
        0 < utf8(REPORT_END).len() <= PACKET_SIZE,
        0 < utf8(BANNER).len() <= PACKET_SIZE,
{
    law_banner_fits_packet();
    reveal_strlit("Sistema operando normalmente.\r\n\r\n");
    is_ascii_spec_bytes(REPORT_END);
    reveal_strlit("\r\n");
    reveal_strlit(" \x08");
    is_ascii_spec_bytes(LINE_END);
    is_ascii_spec_bytes(ERASE);
}

/// Whether every packet is one that the port can take.
#[verifier::opaque]
pub open spec fn fitting_packets(packets: Seq<Seq<u8>>) -> bool {
    forall|i: int| 0 <= i < packets.len() ==> 0 < (#[trigger] packets[i]).len() <= PACKET_SIZE
}

proof fn lemma_fitting_parts(a: Seq<Seq<u8>>, b: Seq<Seq<u8>>)
    requires
        fitting_packets(a),
        fitting_packets(b),
    ensures
        fitting_packets(a + b),
{
    reveal(fitting_packets);
    assert forall|i: int| 0 <= i < (a + b).len() implies 0 < (#[trigger] (a + b)[i]).len()
        <= PACKET_SIZE by {
        if i < a.len() {
            assert((a + b)[i] == a[i]);
        } else {
            assert((a + b)[i] == b[i - a.len()]);
        }
    }
}

proof fn lemma_fitting_chunks(bytes: Seq<u8>)
    ensures
        fitting_packets(chunks(bytes)),
{
    reveal(fitting_packets);
    law_chunks_fit_packets(bytes);
}

/// Every packet of a greeting fits into a packet of the port, whatever message a panic
/// left.
pub proof fn law_greeting_fits_packets(report: Option<Seq<u8>>)
    ensures
        forall|i: int|
            0 <= i < greeting(report).len() ==> 0 < (#[trigger] greeting(report)[i]).len()
                <= PACKET_SIZE,
{
    lemma_short_packets();
    assert(fitting_packets(greeting(report))) by {
        let line_end = seq![utf8(LINE_END)];
        let ending = seq![utf8(REPORT_END), utf8(BANNER)];
        assert(fitting_packets(line_end) && fitting_packets(ending) && fitting_packets(
            seq![utf8(BANNER)],
        )) by {
            reveal(fitting_packets);
        }
        if let Some(message) = report {
            let top = chunks(utf8(REPORT_TOP));
            let title = chunks(utf8(REPORT_TITLE));
            let bottom = chunks(utf8(REPORT_BOTTOM));
            let body = chunks(message);
            let rule = chunks(utf8(REPORT_RULE));
            lemma_fitting_chunks(utf8(REPORT_TOP));
            lemma_fitting_chunks(utf8(REPORT_TITLE));
            lemma_fitting_chunks(utf8(REPORT_BOTTOM));
            lemma_fitting_chunks(message);
            lemma_fitting_chunks(utf8(REPORT_RULE));
            lemma_fitting_parts(line_end, top);
            lemma_fitting_parts(line_end + top, title);
            lemma_fitting_parts(line_end + top + title, bottom);
            lemma_fitting_parts(line_end + top + title + bottom, body);
            lemma_fitting_parts(line_end + top + title + bottom + body, line_end);
            lemma_fitting_parts(line_end + top + title + bottom + body + line_end, rule);
            lemma_fitting_parts(line_end + top + title + bottom + body + line_end + rule, ending);
        }
    }
    reveal(fitting_packets);
}

proof fn lemma_stream_of_parts(a: Seq<Seq<u8>>, b: Seq<Seq<u8>>)
    ensures
        stream(a + b) == stream(a) + stream(b),
    decreases b.len(),
{
    if b.len() == 0 {
        assert(a + b =~= a);
        assert(stream(a) + stream(b) =~= stream(a));
    } else {
        lemma_stream_of_parts(a, b.drop_last());
        (a + b).lemma_flatten_and_flatten_alt_are_equivalent();
        (a + b).drop_last().lemma_flatten_and_flatten_alt_are_equivalent();
        b.lemma_flatten_and_flatten_alt_are_equivalent();
        b.drop_last().lemma_flatten_and_flatten_alt_are_equivalent();
        assert((a + b).drop_last() =~= a + b.drop_last());
        assert(stream(a + b) =~= stream(a) + stream(b));
    }
}

proof fn lemma_stream_of_one(packet: Seq<u8>)
    ensures
        stream(seq![packet]) == packet,
{
    seq![packet].lemma_flatten_one_element();
}

/// Written one after the other, the packets of a greeting are its text: nothing of the
/// frame, the heading or the message is lost.
pub proof fn law_greeting_loses_nothing(report: Option<Seq<u8>>)
    ensures
        stream(greeting(report)) == greeting_text(report),
{
    lemma_stream_of_one(utf8(BANNER));
    if let Some(message) = report {
        let line_end = seq![utf8(LINE_END)];
        let top = chunks(utf8(REPORT_TOP));
        let title = chunks(utf8(REPORT_TITLE));
        let bottom = chunks(utf8(REPORT_BOTTOM));
        let body = chunks(message);
        let rule = chunks(utf8(REPORT_RULE));
        let front = line_end + top + title + bottom + body + line_end + rule;
        law_chunks_lose_nothing(utf8(REPORT_TOP));
        law_chunks_lose_nothing(utf8(REPORT_TITLE));
        law_chunks_lose_nothing(utf8(REPORT_BOTTOM));
        law_chunks_lose_nothing(message);
        law_chunks_lose_nothing(utf8(REPORT_RULE));
        lemma_stream_of_one(utf8(LINE_END));
        lemma_stream_of_one(utf8(REPORT_END));
        lemma_stream_of_parts(line_end, top);
        lemma_stream_of_parts(line_end + top, title);
        lemma_stream_of_parts(line_end + top + title, bottom);
        lemma_stream_of_parts(line_end + top + title + bottom, body);
        lemma_stream_of_parts(line_end + top + title + bottom + body, line_end);
        lemma_stream_of_parts(line_end + top + title + bottom + body + line_end, rule);
        lemma_stream_of_parts(front, seq![utf8(REPORT_END)]);
        lemma_stream_of_parts(front + seq![utf8(REPORT_END)], seq![utf8(BANNER)]);
        assert(greeting(report) =~= front + seq![utf8(REPORT_END)] + seq![utf8(BANNER)]);
    }
}

/// Without a report a session starts with the banner, in one packet; with one, the banner
/// comes last, and before it the frame, the heading, the message as it is, and the closing
/// lines. Nothing that the message says makes a difference to the rest.
pub proof fn law_greeting_shows_the_message(message: Seq<u8>)
    ensures
        greeting(None) == seq![utf8("[Pico USB Console - escribe 'help']\r\n")],
        stream(greeting(Some(message))) == utf8("\r\n") + utf8(
            "╔══════════════════════════════════════╗\r\n",
        ) + utf8("║  !! PANIC EN BOOT ANTERIOR !!       ║\r\n") + utf8(
            "╚══════════════════════════════════════╝\r\n",
        ) + message + utf8("\r\n") + utf8("════════════════════════════════════════\r\n") + utf8(
            "Sistema operando normalmente.\r\n\r\n",
        ) + utf8("[Pico USB Console - escribe 'help']\r\n"),
{
    law_greeting_loses_nothing(Some(message));
}

/// In the packets of a report, the first is an end of line, those of the message follow
/// those of the frame and are cut every 64 bytes from its start, and an end of line, the
/// rule, the closing line and the banner follow in packets of their own.
pub proof fn law_message_has_packets_of_its_own(message: Seq<u8>) -> (start: int)
    ensures
        1 <= start,
        start == 1 + chunks(utf8("╔══════════════════════════════════════╗\r\n")).len() + chunks(
            utf8("║  !! PANIC EN BOOT ANTERIOR !!       ║\r\n"),
        ).len() + chunks(utf8("╚══════════════════════════════════════╝\r\n")).len(),
        greeting(Some(message)).len() == start + (message.len() + 63) / 64 + 3 + chunks(
            utf8("════════════════════════════════════════\r\n"),
        ).len(),
        greeting(Some(message))[0] == seq![0x0Du8, 0x0Au8],
        greeting(Some(message)).subrange(1, start) == chunks(
            utf8("╔══════════════════════════════════════╗\r\n"),
        ) + chunks(utf8("║  !! PANIC EN BOOT ANTERIOR !!       ║\r\n")) + chunks(
            utf8("╚══════════════════════════════════════╝\r\n"),
        ),
        greeting(Some(message)).subrange(
            start + (message.len() + 63) / 64 + 1,
            greeting(Some(message)).len() - 2,
        ) == chunks(utf8("════════════════════════════════════════\r\n")),
        forall|k: int|
            0 <= k < message.len() ==> #[trigger] message[k] == greeting(Some(message))[start + k
                / 64][k % 64],
        greeting(Some(message))[start + (message.len() + 63) / 64] == seq![0x0Du8, 0x0Au8],
        greeting(Some(message))[greeting(Some(message)).len() - 2] == utf8(
            "Sistema operando normalmente.\r\n\r\n",
        ),
        greeting(Some(message)).last() == utf8("[Pico USB Console - escribe 'help']\r\n"),
        forall|other: Seq<u8>, i: int|
            0 <= i < start ==> #[trigger] greeting(Some(other))[i] == greeting(Some(message))[i],
{
    law_text_is_cut_every_64_bytes(message);
    lemma_control_texts();
    1int + chunks(utf8(REPORT_TOP)).len() + chunks(utf8(REPORT_TITLE)).len() + chunks(
        utf8(REPORT_BOTTOM),
    ).len()
}

/// A message that may be there is shown with the bytes that it has, and only where there
/// is one.
pub proof fn law_report_is_the_message(report: Option<&str>)
    ensures
        report is Some <==> report_bytes(report) is Some,
        report matches Some(message) ==> report_bytes(report) == Some(utf8(message)),
{
}

/// Every session's greeting ends with the banner.
pub proof fn law_greeting_ends_with_banner(report: Option<Seq<u8>>)
    ensures
        greeting(report).len() > 0,
        greeting(report).last() == utf8(BANNER),
{
}

pub(crate) fn chunk_count(len: usize) -> (n: usize)
    ensures
        n == chunk_total(len as int),
        n <= len / PACKET_SIZE + 1,
{
    if len % PACKET_SIZE == 0 {
        len / PACKET_SIZE
    } else {
        len / PACKET_SIZE + 1
    }
}

fn chunk(bytes: &[u8], i: usize) -> (piece: &[u8])
    requires
        i < chunks(bytes@).len(),
    ensures
        piece@ == chunks(bytes@)[i as int],
{
    let len: usize = bytes.len();
    let start: usize = i * PACKET_SIZE;
    if len - start >= PACKET_SIZE {
        slice_subrange(bytes, start, start + PACKET_SIZE)
    } else {
        slice_subrange(bytes, start, len)
    }
}

pub(crate) fn is_last_of_greeting(report: Option<&str>, i: usize) -> (last: bool)
    requires
        i < greeting(report_bytes(report)).len(),
    ensures
        last == (i + 1 == greeting(report_bytes(report)).len()),
        !last ==> i < usize::MAX,
{
    match report {
        Some(message) => i == 3 + chunk_count(REPORT_TOP.as_bytes().len()) + chunk_count(
            REPORT_TITLE.as_bytes().len(),
        ) + chunk_count(REPORT_BOTTOM.as_bytes().len()) + chunk_count(message.as_bytes().len())
            + chunk_count(REPORT_RULE.as_bytes().len()),
        None => true,
    }
}

/// The bytes of a message that may be there.
pub open spec fn report_bytes(report: Option<&str>) -> Option<Seq<u8>> {
    match report {
        Some(message) => Some(utf8(message)),
        None => None,
    }
}

pub(crate) fn greeting_packet<'a>(report: Option<&'a str>, i: usize) -> (packet: &'a [u8])
    requires
        i < greeting(report_bytes(report)).len(),
    ensures
        packet@ == greeting(report_bytes(report))[i as int],
{
    match report {
        Some(message) => {
            let top: &'a [u8] = REPORT_TOP.as_bytes();
            let title: &'a [u8] = REPORT_TITLE.as_bytes();
            let bottom: &'a [u8] = REPORT_BOTTOM.as_bytes();
            let body: &'a [u8] = message.as_bytes();
            let rule: &'a [u8] = REPORT_RULE.as_bytes();
            // Where each part ends, and the next one starts.
            let top_end: usize = 1 + chunk_count(top.len());
            let title_end: usize = top_end + chunk_count(title.len());
            let bottom_end: usize = title_end + chunk_count(bottom.len());
            let body_end: usize = bottom_end + chunk_count(body.len());
            let rule_end: usize = body_end + 1 + chunk_count(rule.len());
            if i == 0 {
                LINE_END.as_bytes()
            } else if i < top_end {
                chunk(top, i - 1)
            } else if i < title_end {
                chunk(title, i - top_end)
            } else if i < bottom_end {
                chunk(bottom, i - title_end)
            } else if i < body_end {
                chunk(body, i - bottom_end)
            } else if i == body_end {
                LINE_END.as_bytes()
            } else if i < rule_end {
                chunk(rule, i - body_end - 1)
            } else if i == rule_end {
                REPORT_END.as_bytes()
            } else {
                BANNER.as_bytes()
            }
        },
        None => BANNER.as_bytes(),
    }
}

pub(crate) fn is_last_of_reply(response: &[u8], i: usize) -> (last: bool)
    requires
        i < reply(response@).len(),
    ensures
        last == (i + 1 == reply(response@).len()),
        !last ==> i < usize::MAX,
{
    i == chunk_count(response.len())
}

pub(crate) fn reply_packet(response: &[u8], i: usize) -> (packet: &[u8])
    requires
        i < reply(response@).len(),
    ensures
        packet@ == reply(response@)[i as int],
{
    if i < chunk_count(response.len()) {
        chunk(response, i)
    } else {
        LINE_END.as_bytes()
    }
}

} // verus!
