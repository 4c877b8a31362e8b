use pico_usb_console::commands::{
    info_response, temperature_response, uptime_response, AppAction, AppEvent, AppTask, Command,
    ResetReason,
};
use pico_usb_console::links::Links;

const UID: [u8; 8] = [0xE6, 0x60, 0x58, 0x38, 0x83, 0x1B, 0x7C, 0x2D];

fn task() -> AppTask {
    AppTask::new("0.1.0", UID, None)
}

fn text(bytes: &[u8]) -> String {
    String::from_utf8(bytes.to_vec()).unwrap()
}

fn next_response(links: &mut Links) -> Option<String> {
    links.take_response().map(|r| text(r.bytes()))
}

#[test]
fn lines_name_commands_letter_for_letter() {
    assert_eq!(Command::parse(b"help"), Command::Help);
    assert_eq!(Command::parse(b"info"), Command::Info);
    assert_eq!(Command::parse(b"temp"), Command::Temp);
    assert_eq!(Command::parse(b"uptime"), Command::Uptime);
    assert_eq!(Command::parse(b"bootsel"), Command::Bootsel);
    for line in [&b""[..], b"Help", b"help ", b" help", b"hel", b"helps", b"\x1b[A", b"reboot"] {
        assert_eq!(Command::parse(line), Command::Unknown);
    }
}

#[test]
fn help_lists_the_commands() {
    let (mut app, mut links) = (task(), Links::new());
    assert_eq!(app.action(), AppAction::AwaitLine);
    assert_eq!(app.step(&mut links, AppEvent::Line(b"help")), AppAction::AwaitLine);
    assert_eq!(
        next_response(&mut links).as_deref(),
        Some("Comandos: help, info, temp, uptime, bootsel")
    );
    assert_eq!(next_response(&mut links), None);
}

#[test]
fn unknown_lines_are_answered_too() {
    let (mut app, mut links) = (task(), Links::new());
    assert_eq!(app.step(&mut links, AppEvent::Line(b"xyz")), AppAction::AwaitLine);
    assert_eq!(
        next_response(&mut links).as_deref(),
        Some("Comando desconocido. Escribe 'help'.")
    );
}

#[test]
fn info_reports_name_version_flash_id_and_reset_reason() {
    let head = "Pico USB Console v0.1.0\r\nFlash UID: E6605838831B7C2D\r\nUltimo reset: ";
    let cases = [
        (None, "power-on o soft-reset (el RP2040 no distingue estos casos)"),
        (Some(ResetReason::Forced), "forced (watchdog trigger_reset)"),
        (Some(ResetReason::TimedOut), "watchdog timeout"),
    ];
    for (reason, words) in cases {
        let (mut app, mut links) = (AppTask::new("0.1.0", UID, reason), Links::new());
        assert_eq!(app.step(&mut links, AppEvent::Line(b"info")), AppAction::AwaitLine);
        assert_eq!(next_response(&mut links), Some(format!("{}{}", head, words)));
    }
}

#[test]
fn info_is_complete_up_to_its_capacity() {
    let version = "9".repeat(79);
    let response = info_response(&version, &UID, None);
    assert_eq!(response.bytes().len(), 200);
    assert!(text(response.bytes()).ends_with("distingue estos casos)"));
}

#[test]
fn a_piece_that_does_not_fit_ends_info() {
    let version = "9".repeat(80);
    let response = info_response(&version, &UID, None);
    assert_eq!(
        text(response.bytes()),
        format!("Pico USB Console v{}\r\nFlash UID: E6605838831B7C2D\r\nUltimo reset: ", version)
    );
    let version = "9".repeat(200);
    let response = info_response(&version, &UID, None);
    assert_eq!(text(response.bytes()), "Pico USB Console v");
}

#[test]
fn temp_reads_the_sensor_and_reports() {
    let (mut app, mut links) = (task(), Links::new());
    assert_eq!(app.step(&mut links, AppEvent::Line(b"temp")), AppAction::ReadTemperature);
    assert_eq!(next_response(&mut links), None);
    let event = AppEvent::Temperature { raw: 876, tenths: 271 };
    assert_eq!(app.step(&mut links, event), AppAction::AwaitLine);
    assert_eq!(
        next_response(&mut links).as_deref(),
        Some("Temperatura interna: 27.1 C (raw=876)")
    );
}

#[test]
fn temp_reports_a_failed_reading() {
    let (mut app, mut links) = (task(), Links::new());
    app.step(&mut links, AppEvent::Line(b"temp"));
    assert_eq!(app.step(&mut links, AppEvent::AdcFailed), AppAction::AwaitLine);
    assert_eq!(next_response(&mut links).as_deref(), Some("Error leyendo el ADC"));
}

#[test]
fn temperatures_read_like_floats_with_one_decimal() {
    for tenths in i16::MIN..=i16::MAX {
        let celsius = (tenths as f32) / 10.0;
        let expected = format!("Temperatura interna: {:.1} C (raw={})", celsius, 65535u16);
        assert_eq!(temperature_response(65535, tenths).bytes(), expected.as_bytes());
    }
}

#[test]
fn raw_readings_are_decimal() {
    for raw in [0u16, 1, 9, 10, 99, 100, 4095, 65535] {
        let expected = format!("Temperatura interna: 0.0 C (raw={})", raw);
        assert_eq!(temperature_response(raw, 0).bytes(), expected.as_bytes());
    }
}

#[test]
fn uptime_reads_the_clock_and_reports() {
    let (mut app, mut links) = (task(), Links::new());
    assert_eq!(app.step(&mut links, AppEvent::Line(b"uptime")), AppAction::ReadUptime);
    assert_eq!(next_response(&mut links), None);
    let event = AppEvent::Uptime { millis: 123456 };
    assert_eq!(app.step(&mut links, event), AppAction::AwaitLine);
    assert_eq!(next_response(&mut links).as_deref(), Some("Uptime: 123456 ms"));
}

#[test]
fn uptimes_are_decimal() {
    for millis in [0, 7, 10, 99, 100, 1_000_000_007, 10_000_000_000_000_000_000, u64::MAX] {
        let expected = format!("Uptime: {} ms", millis);
        assert_eq!(uptime_response(millis).bytes(), expected.as_bytes());
    }
}

#[test]
fn bootsel_answers_waits_and_reboots() {
    let (mut app, mut links) = (task(), Links::new());
    let action = app.step(&mut links, AppEvent::Line(b"bootsel"));
    assert_eq!(action, AppAction::Sleep { millis: 100 });
    assert_eq!(next_response(&mut links).as_deref(), Some("Reiniciando a BOOTSEL..."));
    let action = app.step(&mut links, AppEvent::Done);
    assert_eq!(action, AppAction::ResetToUsbBoot { gpio_mask: 0, disable_mask: 0 });
    assert_eq!(app.step(&mut links, AppEvent::Done), AppAction::AwaitLine);
    assert_eq!(next_response(&mut links), None);
}

#[test]
fn responses_beyond_the_queue_are_lost() {
    let (mut app, mut links) = (task(), Links::new());
    for line in [&b"help"[..], b"a", b"b", b"c", b"info"] {
        app.step(&mut links, AppEvent::Line(line));
    }
    assert_eq!(
        next_response(&mut links).as_deref(),
        Some("Comandos: help, info, temp, uptime, bootsel")
    );
    for _ in 0..3 {
        assert_eq!(
            next_response(&mut links).as_deref(),
            Some("Comando desconocido. Escribe 'help'.")
        );
    }
    assert_eq!(next_response(&mut links), None);
}

#[test]
fn events_that_answer_nothing_change_nothing() {
    let (mut app, mut links) = (task(), Links::new());
    assert_eq!(app.step(&mut links, AppEvent::Done), AppAction::AwaitLine);
    assert_eq!(app.step(&mut links, AppEvent::Uptime { millis: 1 }), AppAction::AwaitLine);
    app.step(&mut links, AppEvent::Line(b"temp"));
    assert_eq!(app.step(&mut links, AppEvent::Line(b"help")), AppAction::ReadTemperature);
    assert_eq!(next_response(&mut links), None);
}

#[test]
fn queued_responses_come_out_in_order_and_can_be_discarded() {
    let mut links = Links::new();
    assert!(links.submit_response(uptime_response(1)));
    assert!(links.submit_response(uptime_response(2)));
    assert_eq!(next_response(&mut links).as_deref(), Some("Uptime: 1 ms"));
    assert!(links.submit_response(uptime_response(3)));
    links.discard_pending();
    assert_eq!(next_response(&mut links), None);
    for n in 0..4 {
        assert!(links.submit_response(uptime_response(n)));
    }
    assert!(!links.submit_response(uptime_response(4)));
    for n in 0..4 {
        assert_eq!(next_response(&mut links), Some(format!("Uptime: {} ms", n)));
    }
    assert!(links.take_line().is_none());
}
