# pico_usb_console

A USB-CDC console for the Raspberry Pi Pico (RP2040), written in Verus: a line editor
with backspace, a handful of commands, a report of the panic that ended the previous
boot, and two ways to reboot into BOOTSEL without touching the board.

`src/` is the logic. It never touches hardware: it names an action, the firmware carries
the action out and reports what came of it. Verus proves all of it but the calls into
other crates: the 17 small functions marked `external_body` that call `heapless`,
`embassy-sync` and `core::str::from_utf8` are trusted to do what their contracts say,
which is what the sources and documentation of those crates say of them.

| Module | What it holds |
|---|---|
| `line` | the line under construction, and what each typed byte does to it |
| `response`, `decimal`, `hex`, `text` | the texts of the console and how they are built |
| `packets` | how texts are cut into packets |
| `links` | the queues between the port and the commands |
| `serial` | the serial side: sessions, greeting, drain, echo, input, replies |
| `commands` | the commands and what they answer |
| `picotool` | the reset requests of `picotool -f` |
| `session`, `console`, `typing`, `answering` | what the console promises as a whole |

`app/` is the firmware. `app/board.rs` is compiled for the board only; it needs
`embassy-rp` with the features `rp2040`, `time-driver`, `critical-section-impl` and
`binary-info`, and `embassy-executor` with `platform-cortex-m` and `executor-thread`,
next to what `Cargo.toml` names.
