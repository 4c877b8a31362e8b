use pico_usb_console::commands::{AppEvent, AppTask};
use pico_usb_console::links::Links;
use pico_usb_console::serial::{Action, Event, SerialTask};
use pico_usb_console::text::BANNER;

/// A small generator of reproducible numbers.
struct Numbers(u64);

impl Numbers {
    fn below(&mut self, n: u64) -> u64 {
        self.0 = self.0.wrapping_mul(6364136223846793005).wrapping_add(1442695040888963407);
        (self.0 >> 33) % n
    }
}

/// What typing does to a line, told independently of the library.
fn type_into(line: &mut Vec<u8>, done: &mut Vec<Vec<u8>>, data: &[u8]) {
    for &b in data {
        match b {
            b'\r' | b'\n' => {
                if !line.is_empty() {
                    done.push(std::mem::take(line));
                }
            }
            0x08 | 0x7F => {
                line.pop();
            }
            _ => {
                if line.len() < 64 {
                    line.push(b);
                }
            }
        }
    }
}

/// Brings a new console to its first read.
fn open_console(panic_msg: Option<&'static str>) -> (SerialTask, Links) {
    let (mut task, mut links) = (SerialTask::new(panic_msg), Links::new());
    let mut action = task.action();
    for micros in 0..100 {
        let event = match action {
            Action::WaitConnection | Action::Write => Event::Done,
            Action::ReadPort => Event::Port { dtr: true, baud: 115_200 },
            Action::ReadClock => Event::Clock { micros },
            _ => Event::TimedOut,
        };
        let drained = action == Action::ReadPort && micros > 1;
        action = task.step(&mut links, event);
        if drained {
            assert_eq!(action, Action::Read { timeout_millis: 50 });
            return (task, links);
        }
    }
    panic!("the session never opened");
}

#[test]
fn commands_get_what_is_typed_and_the_host_what_is_answered() {
    let alphabet = b"helpinfo \x1b[A\x08\x7f\r\nxyz";
    for seed in 0..50 {
        let mut numbers = Numbers(seed);
        let (mut task, mut links) = open_console(None);
        let mut app = AppTask::new("0.1.0", [0x5a; 8], None);
        let (mut line, mut typed) = (Vec::new(), Vec::new());
        let (mut taken, mut answers, mut written) = (Vec::new(), Vec::new(), Vec::new());
        for _ in 0..200 {
            let mut data = Vec::new();
            for _ in 0..1 + numbers.below(8) {
                data.push(alphabet[numbers.below(alphabet.len() as u64) as usize]);
            }
            type_into(&mut line, &mut typed, &data);

            let mut action = task.step(&mut links, Event::Packet(&data));
            assert_eq!(task.packet(), data.as_slice());
            action = match action {
                Action::Write => task.step(&mut links, Event::Done),
                other => panic!("{:?}", other),
            };
            while action != (Action::Read { timeout_millis: 50 }) {
                // The commands run whenever the port has to wait.
                if let Some(line) = links.take_line() {
                    assert!(!line.bytes().is_empty() && line.bytes().len() <= 64);
                    app.step(&mut links, AppEvent::Line(line.bytes()));
                    answers.push(match line.bytes() {
                        b"help" => "Comandos: help, info, temp, uptime, bootsel\r\n".to_string(),
                        b"info" => "Pico USB Console v0.1.0\r\nFlash UID: 5A5A5A5A5A5A5A5A\r\n\
                            Ultimo reset: power-on o soft-reset \
                            (el RP2040 no distingue estos casos)\r\n"
                            .to_string(),
                        _ => "Comando desconocido. Escribe 'help'.\r\n".to_string(),
                    });
                    taken.push(line.bytes().to_vec());
                }
                action = match action {
                    Action::Write => {
                        assert!(!task.packet().is_empty() && task.packet().len() <= 64);
                        if task.packet() != b" \x08" {
                            written.extend_from_slice(task.packet());
                        }
                        task.step(&mut links, Event::Done)
                    }
                    Action::ReadPort => {
                        task.step(&mut links, Event::Port { dtr: true, baud: 9600 })
                    }
                    other => panic!("{:?}", other),
                };
            }
        }
        while let Some(line) = links.take_line() {
            taken.push(line.bytes().to_vec());
        }
        assert!(!typed.is_empty());
        // Taken lines are typed lines in order; none is made up.
        let mut rest = typed.iter();
        assert!(taken.iter().all(|line| rest.any(|t| t == line)));
        // Without a line lost to a full queue they are all of them.
        if taken.len() == typed.len() {
            assert_eq!(taken, typed);
        }
        // What was written is what was answered, up to what is still queued.
        let answered: String = answers.concat();
        assert!(answered.as_bytes().starts_with(&written));
    }
}

#[test]
fn the_report_waits_for_the_first_session() {
    let (mut task, mut links) = (SerialTask::new(Some("boom")), Links::new());
    assert_eq!(task.step(&mut links, Event::Done), Action::ReadPort);
    for _ in 0..1000 {
        let action = task.step(&mut links, Event::Port { dtr: false, baud: 9600 });
        assert_eq!(action, Action::Sleep { millis: 20 });
        assert_eq!(task.step(&mut links, Event::Done), Action::ReadPort);
    }
    let mut action = task.step(&mut links, Event::Port { dtr: true, baud: 9600 });
    let mut packets = Vec::new();
    while action == Action::Write {
        packets.push(task.packet().to_vec());
        action = task.step(&mut links, Event::Done);
    }
    assert_eq!(packets[6], b"boom");
    assert!(packets.iter().all(|p| p.len() <= 64));
    assert_eq!(packets.last().unwrap(), BANNER.as_bytes());
}
