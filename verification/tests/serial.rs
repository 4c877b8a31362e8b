use pico_usb_console::commands::{info_response, uptime_response, AppEvent, AppTask};
use pico_usb_console::links::Links;
use pico_usb_console::packets::{
    LINE_END, REPORT_BOTTOM, REPORT_END, REPORT_RULE, REPORT_TITLE, REPORT_TOP,
};
use pico_usb_console::serial::{Action, Event, SerialTask};
use pico_usb_console::text::BANNER;

const OPEN: Event<'static> = Event::Port { dtr: true, baud: 115_200 };
const CLOSED: Event<'static> = Event::Port { dtr: false, baud: 115_200 };
const READ: Action = Action::Read { timeout_millis: 50 };
const RESET: Action = Action::ResetToUsbBoot { gpio_mask: 0, disable_mask: 0 };

/// Confirms writes as long as there are any, and returns them with the action after them.
fn write_all(
    task: &mut SerialTask,
    links: &mut Links,
    mut action: Action,
) -> (Vec<Vec<u8>>, Action) {
    let mut packets = Vec::new();
    while action == Action::Write {
        packets.push(task.packet().to_vec());
        action = task.step(links, Event::Done);
    }
    (packets, action)
}

/// Opens the port of a waiting console and returns the greeting.
fn greet(task: &mut SerialTask, links: &mut Links) -> Vec<Vec<u8>> {
    let action = task.step(links, OPEN);
    let (packets, action) = write_all(task, links, action);
    assert_eq!(action, Action::ReadClock);
    packets
}

/// Ends the drain after a quiet read, and reads.
fn settle(task: &mut SerialTask, links: &mut Links) {
    assert_eq!(task.step(links, Event::Clock { micros: 0 }), Action::ReadClock);
    assert_eq!(task.step(links, Event::Clock { micros: 1 }), READ);
    assert_eq!(task.step(links, Event::TimedOut), Action::ReadPort);
    assert_eq!(task.step(links, OPEN), READ);
}

/// A console in a session that reads.
fn session() -> (SerialTask, Links) {
    let (mut task, mut links) = (SerialTask::new(None), Links::new());
    task.step(&mut links, Event::Done);
    greet(&mut task, &mut links);
    settle(&mut task, &mut links);
    (task, links)
}

/// Types one packet into a session and returns what is written, up to the next read.
fn type_packet(task: &mut SerialTask, links: &mut Links, data: &[u8]) -> Vec<Vec<u8>> {
    let action = task.step(links, Event::Packet(data));
    let (packets, action) = write_all(task, links, action);
    assert_eq!(action, Action::ReadPort);
    assert_eq!(task.step(links, OPEN), READ);
    packets
}

fn lines(links: &mut Links) -> Vec<Vec<u8>> {
    let mut lines = Vec::new();
    while let Some(line) = links.take_line() {
        lines.push(line.bytes().to_vec());
    }
    lines
}

#[test]
fn boot_waits_for_the_connection_and_then_for_dtr() {
    let (mut task, mut links) = (SerialTask::new(None), Links::new());
    assert_eq!(task.action(), Action::WaitConnection);
    assert_eq!(task.step(&mut links, Event::Done), Action::ReadPort);
    assert_eq!(task.step(&mut links, CLOSED), Action::Sleep { millis: 20 });
    assert_eq!(task.step(&mut links, Event::Done), Action::ReadPort);
    assert_eq!(task.step(&mut links, OPEN), Action::Write);
    assert_eq!(task.packet(), BANNER.as_bytes());
}

#[test]
fn first_session_shows_the_panic_report() {
    let message = "panicked at src/main.rs:204:73: called `Result::unwrap()` on an `Err` value";
    let (mut task, mut links) = (SerialTask::new(Some(message)), Links::new());
    task.step(&mut links, Event::Done);
    let packets = greet(&mut task, &mut links);
    let expected: Vec<&[u8]> = vec![
        LINE_END.as_bytes(),
        &REPORT_TOP.as_bytes()[..64],
        &REPORT_TOP.as_bytes()[64..],
        REPORT_TITLE.as_bytes(),
        &REPORT_BOTTOM.as_bytes()[..64],
        &REPORT_BOTTOM.as_bytes()[64..],
        &message.as_bytes()[..64],
        &message.as_bytes()[64..],
        LINE_END.as_bytes(),
        &REPORT_RULE.as_bytes()[..64],
        &REPORT_RULE.as_bytes()[64..],
        REPORT_END.as_bytes(),
        BANNER.as_bytes(),
    ];
    assert_eq!(packets, expected);
}

#[test]
fn every_packet_of_a_greeting_fits_the_port_and_nothing_is_lost() {
    for len in [0, 1, 63, 64, 65, 127, 128, 129, 1000] {
        let message: &'static str = Box::leak("z".repeat(len).into_boxed_str());
        let (mut task, mut links) = (SerialTask::new(Some(message)), Links::new());
        task.step(&mut links, Event::Done);
        let packets = greet(&mut task, &mut links);
        assert!(packets.iter().all(|p| 0 < p.len() && p.len() <= 64));
        let parts = [
            LINE_END, REPORT_TOP, REPORT_TITLE, REPORT_BOTTOM, message, LINE_END, REPORT_RULE,
            REPORT_END, BANNER,
        ];
        assert_eq!(packets.concat(), parts.concat().as_bytes());
    }
}

#[test]
fn later_sessions_show_only_the_banner() {
    let (mut task, mut links) = (SerialTask::new(Some("boom")), Links::new());
    task.step(&mut links, Event::Done);
    assert_eq!(greet(&mut task, &mut links).len(), 12);
    settle(&mut task, &mut links);
    for _ in 0..3 {
        assert_eq!(task.step(&mut links, Event::ReadFailed), Action::WaitConnection);
        assert_eq!(task.step(&mut links, Event::Done), Action::ReadPort);
        assert_eq!(greet(&mut task, &mut links), vec![BANNER.as_bytes()]);
        settle(&mut task, &mut links);
    }
}

#[test]
fn report_messages_are_cut_into_packets() {
    for (message, pieces) in [("", 0), ("x", 1)] {
        let (mut task, mut links) = (SerialTask::new(Some(message)), Links::new());
        task.step(&mut links, Event::Done);
        assert_eq!(greet(&mut task, &mut links).len(), 11 + pieces);
    }
    let message: &'static str = Box::leak("y".repeat(128).into_boxed_str());
    let (mut task, mut links) = (SerialTask::new(Some(message)), Links::new());
    task.step(&mut links, Event::Done);
    let packets = greet(&mut task, &mut links);
    assert_eq!(packets.len(), 13);
    assert_eq!(packets[6..8].concat(), message.as_bytes());
}

#[test]
fn baud_1200_reboots_a_closed_port() {
    let (mut task, mut links) = (SerialTask::new(None), Links::new());
    task.step(&mut links, Event::Done);
    let action = task.step(&mut links, Event::Port { dtr: false, baud: 1200 });
    assert_eq!(action, Action::Sleep { millis: 100 });
    assert_eq!(task.step(&mut links, Event::Done), RESET);
    assert_eq!(task.step(&mut links, Event::Done), Action::Sleep { millis: 20 });
    assert_eq!(task.step(&mut links, Event::Done), Action::ReadPort);
}

#[test]
fn baud_1200_reboots_an_open_session() {
    let (mut task, mut links) = session();
    assert_eq!(task.step(&mut links, Event::TimedOut), Action::ReadPort);
    let action = task.step(&mut links, Event::Port { dtr: true, baud: 1200 });
    assert_eq!(action, Action::Sleep { millis: 100 });
    assert_eq!(task.step(&mut links, Event::Done), RESET);
    assert_eq!(task.step(&mut links, Event::Done), READ);
}

#[test]
fn other_bauds_do_not_reboot() {
    for baud in [0, 1199, 1201, 9600, u32::MAX] {
        let (mut task, mut links) = (SerialTask::new(None), Links::new());
        task.step(&mut links, Event::Done);
        let action = task.step(&mut links, Event::Port { dtr: false, baud });
        assert_eq!(action, Action::Sleep { millis: 20 });
    }
}

#[test]
fn drain_throws_input_away_until_the_line_is_quiet() {
    let (mut task, mut links) = (SerialTask::new(None), Links::new());
    task.step(&mut links, Event::Done);
    greet(&mut task, &mut links);
    assert_eq!(task.step(&mut links, Event::Clock { micros: 1_000 }), Action::ReadClock);
    assert_eq!(task.step(&mut links, Event::Clock { micros: 1_001 }), READ);
    assert_eq!(task.step(&mut links, Event::Packet(b"[Pico\rUSB\r")), Action::ReadClock);
    assert_eq!(task.step(&mut links, Event::Clock { micros: 300_999 }), READ);
    assert_eq!(task.step(&mut links, Event::Packet(b"junk")), Action::ReadClock);
    assert_eq!(task.step(&mut links, Event::Clock { micros: 301_000 }), Action::ReadPort);
    assert_eq!(task.step(&mut links, OPEN), READ);
    assert_eq!(type_packet(&mut task, &mut links, b"help\r"), vec![b"help\r"]);
    assert_eq!(lines(&mut links), vec![b"help"]);
}

#[test]
fn drain_ends_on_silence_failure_or_an_empty_packet() {
    for event in [Event::TimedOut, Event::ReadFailed, Event::Packet(b"")] {
        let (mut task, mut links) = (SerialTask::new(None), Links::new());
        task.step(&mut links, Event::Done);
        greet(&mut task, &mut links);
        task.step(&mut links, Event::Clock { micros: 0 });
        task.step(&mut links, Event::Clock { micros: 0 });
        assert_eq!(task.step(&mut links, event), Action::ReadPort);
    }
}

#[test]
fn packets_are_echoed_before_they_are_interpreted() {
    let (mut task, mut links) = session();
    assert_eq!(task.step(&mut links, Event::Packet(b"info\r")), Action::Write);
    assert_eq!(task.packet(), b"info\r");
    assert!(links.take_line().is_none());
    assert_eq!(task.step(&mut links, Event::Done), Action::ReadPort);
    assert_eq!(lines(&mut links), vec![b"info"]);
}

#[test]
fn lines_are_collected_over_packets_and_ended_by_either_end() {
    let (mut task, mut links) = session();
    type_packet(&mut task, &mut links, b"he");
    assert!(lines(&mut links).is_empty());
    type_packet(&mut task, &mut links, b"lp\r\nup");
    type_packet(&mut task, &mut links, b"time\n");
    assert_eq!(lines(&mut links), vec![&b"help"[..], b"uptime"]);
}

#[test]
fn empty_lines_are_not_passed_on() {
    let (mut task, mut links) = session();
    type_packet(&mut task, &mut links, b"\r\n\r\n\n");
    assert!(lines(&mut links).is_empty());
}

#[test]
fn backspace_takes_back_and_is_shown() {
    let (mut task, mut links) = session();
    let packets = type_packet(&mut task, &mut links, b"hex\x08lo\x7f\x7fp\r");
    let echo: &[u8] = b"hex\x08lo\x7f\x7fp\r";
    assert_eq!(packets, vec![echo, b" \x08", b" \x08", b" \x08"]);
    assert_eq!(lines(&mut links), vec![b"hep"]);
}

#[test]
fn backspace_on_an_empty_line_does_nothing() {
    let (mut task, mut links) = session();
    assert_eq!(type_packet(&mut task, &mut links, b"\x08\x7f"), vec![b"\x08\x7f"]);
    type_packet(&mut task, &mut links, b"a\r");
    assert_eq!(lines(&mut links), vec![b"a"]);
}

#[test]
fn escape_sequences_go_into_the_line() {
    let (mut task, mut links) = session();
    type_packet(&mut task, &mut links, b"\x1b[Ahelp\r");
    assert_eq!(lines(&mut links), vec![b"\x1b[Ahelp"]);
}

#[test]
fn bytes_beyond_the_capacity_are_dropped() {
    let (mut task, mut links) = session();
    let full = [b'x'; 64];
    type_packet(&mut task, &mut links, &full);
    type_packet(&mut task, &mut links, b"yz\r");
    assert_eq!(lines(&mut links), vec![full.to_vec()]);
    type_packet(&mut task, &mut links, &full);
    type_packet(&mut task, &mut links, b"y\x08\r");
    assert_eq!(lines(&mut links), vec![full[..63].to_vec()]);
}

#[test]
fn lines_beyond_the_queue_are_lost() {
    let (mut task, mut links) = session();
    type_packet(&mut task, &mut links, b"1\r2\r3\r4\r5\r6\r");
    assert_eq!(lines(&mut links), vec![b"1", b"2", b"3", b"4"]);
}

#[test]
fn lines_taken_while_an_erasure_is_written_make_room() {
    let (mut task, mut links) = session();
    task.step(&mut links, Event::Packet(b"1\r2\r3\r4\rx\x085\r"));
    assert_eq!(task.step(&mut links, Event::Done), Action::Write);
    assert_eq!(task.packet(), b" \x08");
    assert_eq!(links.take_line().unwrap().bytes(), b"1");
    assert_eq!(task.step(&mut links, Event::Done), Action::ReadPort);
    assert_eq!(lines(&mut links), vec![b"2", b"3", b"4", b"5"]);
}

#[test]
fn responses_are_written_in_packets_and_ended() {
    let (mut task, mut links) = session();
    let response = info_response("0.1.0", &[0; 8], None);
    let text = response.bytes().to_vec();
    assert!(text.len() > 64);
    links.submit_response(response);
    links.submit_response(uptime_response(5));
    let action = task.step(&mut links, Event::TimedOut);
    let (packets, action) = write_all(&mut task, &mut links, action);
    assert_eq!(action, Action::ReadPort);
    let mut expected = text;
    expected.extend_from_slice(b"\r\nUptime: 5 ms\r\n");
    assert_eq!(packets.concat(), expected);
    assert!(packets.iter().all(|p| 0 < p.len() && p.len() <= 64));
    assert_eq!(packets.last().unwrap(), b"\r\n");
}

#[test]
fn an_empty_packet_lets_responses_out() {
    let (mut task, mut links) = session();
    links.submit_response(uptime_response(5));
    assert_eq!(task.step(&mut links, Event::Packet(b"")), Action::Write);
    assert_eq!(task.packet(), b"Uptime: 5 ms");
}

#[test]
fn a_closed_port_ends_the_session_and_forgets_everything() {
    let (mut task, mut links) = session();
    type_packet(&mut task, &mut links, b"one\rhalf a li");
    links.submit_response(uptime_response(5));
    task.step(&mut links, Event::ReadFailed);
    task.step(&mut links, Event::Done);
    assert_eq!(greet(&mut task, &mut links), vec![BANNER.as_bytes()]);
    assert!(links.take_response().is_none());
    assert!(links.take_line().is_none());
    settle(&mut task, &mut links);
    type_packet(&mut task, &mut links, b"help\r");
    assert_eq!(lines(&mut links), vec![b"help"]);
}

#[test]
fn a_fallen_dtr_ends_the_session() {
    let (mut task, mut links) = session();
    assert_eq!(task.step(&mut links, Event::TimedOut), Action::ReadPort);
    let closed = Event::Port { dtr: false, baud: 1200 };
    assert_eq!(task.step(&mut links, closed), Action::WaitConnection);
}

#[test]
fn events_that_answer_nothing_are_ignored() {
    let (mut task, mut links) = session();
    assert_eq!(task.step(&mut links, Event::Done), READ);
    assert_eq!(task.step(&mut links, CLOSED), READ);
    assert_eq!(task.step(&mut links, Event::Clock { micros: u64::MAX }), READ);
    assert_eq!(task.step(&mut links, Event::Packet(&[b'x'; 65])), READ);
    assert!(task.packet().is_empty());
}

#[test]
fn a_typed_command_is_answered() {
    let (mut task, mut links) = session();
    let mut app = AppTask::new("0.1.0", [0; 8], None);
    type_packet(&mut task, &mut links, b"hellp\x08\x08p\r");
    let line = links.take_line().unwrap();
    assert_eq!(line.bytes(), b"help");
    app.step(&mut links, AppEvent::Line(line.bytes()));
    let action = task.step(&mut links, Event::TimedOut);
    let (packets, _) = write_all(&mut task, &mut links, action);
    assert_eq!(packets.concat(), b"Comandos: help, info, temp, uptime, bootsel\r\n");
}
