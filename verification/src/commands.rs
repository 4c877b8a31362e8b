//! The built-in commands: how a line is understood and what it is answered.
//!
//! `AppTask` works like the serial side: it names an `AppAction`, the firmware carries
//! it out and reports an `AppEvent`, and `AppTask::step` answers with the next action.

use vstd::prelude::*;
use vstd::string::is_ascii_spec_bytes;

use crate::decimal::{decimal, law_decimal_reads_back, law_tenths_read_back};
use crate::decimal::{lemma_decimal_len, reads_as, reads_as_tenths, with_tenths};
use crate::hex::{hex_encode_upper, hex_upper, law_hex_digits_are_upper_case, lemma_hex_is_ascii};
use crate::links::{enqueue, Links, LinksState};
use crate::response::{law_what_fits_is_written, law_writing_stops_at_the_first_misfit};
use crate::response::{law_written_fits, texts, total_len, written, Response};
use crate::response::RESPONSE_CAPACITY;
use crate::text::{lemma_ascii_is_utf8, str_from_utf8, utf8, PRODUCT_NAME};

verus! {

/// How long the console waits between the answer to `bootsel` and the reboot, in
/// milliseconds.
pub const BOOTSEL_DELAY_MILLIS: u64 = 100;

pub const HELP_TEXT: &'static str = "Comandos: help, info, temp, uptime, bootsel";

pub const BOOTSEL_TEXT: &'static str = "Reiniciando a BOOTSEL...";

pub const ADC_ERROR_TEXT: &'static str = "Error leyendo el ADC";

pub const UNKNOWN_TEXT: &'static str = "Comando desconocido. Escribe 'help'.";

pub const FORCED_TEXT: &'static str = "forced (watchdog trigger_reset)";

pub const TIMED_OUT_TEXT: &'static str = "watchdog timeout";

pub const NO_REASON_TEXT: &'static str =
    "power-on o soft-reset (el RP2040 no distingue estos casos)";

/// What the watchdog recorded about the last reset.
#[derive(Clone, Copy, Debug, PartialEq, Eq, Structural)]
pub enum ResetReason {
    Forced,
    TimedOut,
}

/// What a line asks for.
#[derive(Clone, Copy, Debug, PartialEq, Eq, Structural)]
pub enum Command {
    Help,
    Info,
    Temp,
    Uptime,
    Bootsel,
    Unknown,
}

/// The command that a line names, letter for letter.
pub open spec fn command_of(line: Seq<u8>) -> Command {
    if line == utf8("help") {
        Command::Help
    } else if line == utf8("info") {
        Command::Info
    } else if line == utf8("temp") {
        Command::Temp
    } else if line == utf8("uptime") {
        Command::Uptime
    } else if line == utf8("bootsel") {
        Command::Bootsel
    } else {
        Command::Unknown
    }
}

/// The words for a reset reason. Without one the watchdog had no part in the reset, and
/// nothing tells a power-on from a reset by software.
pub open spec fn reason_text(reason: Option<ResetReason>) -> Seq<u8> {
    match reason {
        Some(ResetReason::Forced) => utf8(FORCED_TEXT),
        Some(ResetReason::TimedOut) => utf8(TIMED_OUT_TEXT),
        None => utf8(NO_REASON_TEXT),
    }
}

/// What `info` reports, in the pieces in which it is written.
pub open spec fn info_pieces(
    version: Seq<u8>,
    uid: Seq<u8>,
    reason: Option<ResetReason>,
) -> Seq<Seq<u8>> {
    seq![
        utf8(PRODUCT_NAME),
        utf8(" v"),
        version,
        utf8("\r\nFlash UID: "),
        hex_upper(uid),
        utf8("\r\nUltimo reset: "),
        reason_text(reason),
    ]
}

/// What `temp` reports.
pub open spec fn temperature_text(raw: u16, tenths: i16) -> Seq<u8> {
    utf8("Temperatura interna: ") + with_tenths(tenths as int) + utf8(" C (raw=") + decimal(
        raw as nat,
    ) + utf8(")")
}

/// What `uptime` reports.
pub open spec fn uptime_text(millis: u64) -> Seq<u8> {
    utf8("Uptime: ") + decimal(millis as nat) + utf8(" ms")
}

fn same_bytes(a: &[u8], b: &[u8]) -> (same: bool)
    ensures
        same == (a@ == b@),
{
    if a.len() != b.len() {
        return false;
    }
    let n: usize = a.len();
    let mut i: usize = 0;
    while i < n
        invariant
            i <= n == a@.len() == b@.len(),
            forall|k: int| 0 <= k < i ==> a@[k] == b@[k],
        decreases n - i,
    {
        if a[i] != b[i] {
            return false;
        }
        i += 1;
    }
    assert(a@ =~= b@);
    true
}

impl Command {
    /// The command that a line names.
    pub fn parse(line: &[u8]) -> (command: Command)
        ensures
            command == command_of(line@),
            command is Help <==> line@ == utf8("help"),
            command is Info <==> line@ == utf8("info"),
            command is Temp <==> line@ == utf8("temp"),
            command is Uptime <==> line@ == utf8("uptime"),
            command is Bootsel <==> line@ == utf8("bootsel"),
    {
        proof {
            lemma_command_names();
        }
        if same_bytes(line, "help".as_bytes()) {
            Command::Help
        } else if same_bytes(line, "info".as_bytes()) {
            Command::Info
        } else if same_bytes(line, "temp".as_bytes()) {
            Command::Temp
        } else if same_bytes(line, "uptime".as_bytes()) {
            Command::Uptime
        } else if same_bytes(line, "bootsel".as_bytes()) {
            Command::Bootsel
        } else {
            Command::Unknown
        }
    }
}

/// The names of the commands, letter for letter. No two of them are the same.
proof fn lemma_command_names()
    ensures
        utf8("help") == seq!['h' as u8, 'e' as u8, 'l' as u8, 'p' as u8],
        utf8("info") == seq!['i' as u8, 'n' as u8, 'f' as u8, 'o' as u8],
        utf8("temp") == seq!['t' as u8, 'e' as u8, 'm' as u8, 'p' as u8],
        utf8("uptime") == seq!['u' as u8, 'p' as u8, 't' as u8, 'i' as u8, 'm' as u8, 'e' as u8],
        utf8("bootsel") == seq![
            'b' as u8,
            'o' as u8,
            'o' as u8,
            't' as u8,
            's' as u8,
            'e' as u8,
            'l' as u8,
        ],
        utf8("help")[0] != utf8("info")[0],
        utf8("help")[0] != utf8("temp")[0],
        utf8("info")[0] != utf8("temp")[0],
        utf8("help").len() == 4,
        utf8("info").len() == 4,
        utf8("temp").len() == 4,
        utf8("uptime").len() == 6,
        utf8("bootsel").len() == 7,
{
    reveal_strlit("help");
    reveal_strlit("info");
    reveal_strlit("temp");
    reveal_strlit("uptime");
    reveal_strlit("bootsel");
    is_ascii_spec_bytes("help");
    is_ascii_spec_bytes("info");
    is_ascii_spec_bytes("temp");
    is_ascii_spec_bytes("uptime");
    is_ascii_spec_bytes("bootsel");
}

/// Each command is named by its own letters in lower case and by nothing else, neither by
/// a part of them nor by more than them, and every other line names none.
pub proof fn law_commands_are_named_letter_for_letter(line: Seq<u8>)
    ensures
        command_of(line) is Help <==> line == seq!['h' as u8, 'e' as u8, 'l' as u8, 'p' as u8],
        command_of(line) is Info <==> line == seq!['i' as u8, 'n' as u8, 'f' as u8, 'o' as u8],
        command_of(line) is Temp <==> line == seq!['t' as u8, 'e' as u8, 'm' as u8, 'p' as u8],
        command_of(line) is Uptime <==> line == seq![
            'u' as u8,
            'p' as u8,
            't' as u8,
            'i' as u8,
            'm' as u8,
            'e' as u8,
        ],
        command_of(line) is Bootsel <==> line == seq![
            'b' as u8,
            'o' as u8,
            'o' as u8,
            't' as u8,
            's' as u8,
            'e' as u8,
            'l' as u8,
        ],
{
    lemma_command_names();
}

/// The fixed texts are as long as they are, and fit into a response.
pub proof fn lemma_fixed_texts_fit()
    ensures
        utf8(HELP_TEXT).len() <= RESPONSE_CAPACITY,
        utf8(BOOTSEL_TEXT).len() <= RESPONSE_CAPACITY,
        utf8(ADC_ERROR_TEXT).len() <= RESPONSE_CAPACITY,
        utf8(UNKNOWN_TEXT).len() <= RESPONSE_CAPACITY,
        utf8("Temperatura interna: ").len() == 21,
        utf8(" C (raw=").len() == 8,
        utf8(")").len() == 1,
        utf8("Uptime: ").len() == 8,
        utf8(" ms").len() == 3,
        utf8(".") == seq!['.' as u8],
        utf8("-") == seq!['-' as u8],
{
    reveal_strlit("Comandos: help, info, temp, uptime, bootsel");
    reveal_strlit("Reiniciando a BOOTSEL...");
    reveal_strlit("Error leyendo el ADC");
    reveal_strlit("Comando desconocido. Escribe 'help'.");
    reveal_strlit("Temperatura interna: ");
    reveal_strlit(" C (raw=");
    reveal_strlit(")");
    reveal_strlit("Uptime: ");
    reveal_strlit(" ms");
    reveal_strlit(".");
    reveal_strlit("-");
    is_ascii_spec_bytes(HELP_TEXT);
    is_ascii_spec_bytes(BOOTSEL_TEXT);
    is_ascii_spec_bytes(ADC_ERROR_TEXT);
    is_ascii_spec_bytes(UNKNOWN_TEXT);
    is_ascii_spec_bytes("Temperatura interna: ");
    is_ascii_spec_bytes(" C (raw=");
    is_ascii_spec_bytes(")");
    is_ascii_spec_bytes("Uptime: ");
    is_ascii_spec_bytes(" ms");
    is_ascii_spec_bytes(".");
    is_ascii_spec_bytes("-");
    assert(utf8(".") =~= seq!['.' as u8]);
    assert(utf8("-") =~= seq!['-' as u8]);
}

/// What `temp` reports fits into a response.
pub proof fn lemma_temperature_text_fits(raw: u16, tenths: i16)
    ensures
        temperature_text(raw, tenths).len() <= RESPONSE_CAPACITY,
{
    let size: nat = if tenths < 0 {
        (-tenths) as nat
    } else {
        tenths as nat
    };
    lemma_fixed_texts_fit();
    lemma_decimal_len(size / 10);
    lemma_decimal_len(size % 10);
    lemma_decimal_len(raw as nat);
}

/// What `temp` reports reads back as what was measured: between the words stands the
/// temperature, with a minus sign below zero and no sign otherwise and with one decimal
/// place, and in the brackets the raw reading. Neither of the two touches the other.
pub proof fn law_temperature_reads_back(raw: u16, tenths: i16) -> (shown: (Seq<u8>, Seq<u8>))
    ensures
        temperature_text(raw, tenths) == utf8("Temperatura interna: ") + shown.0 + utf8(" C (raw=")
            + shown.1 + utf8(")"),
        reads_as_tenths(shown.0, tenths as int),
        reads_as(shown.1, raw as int),
{
    law_tenths_read_back(tenths as int);
    law_decimal_reads_back(raw as nat);
    (with_tenths(tenths as int), decimal(raw as nat))
}

/// What `uptime` reports reads back as the time since boot, in milliseconds.
pub proof fn law_uptime_reads_back(millis: u64) -> (shown: Seq<u8>)
    ensures
        uptime_text(millis) == utf8("Uptime: ") + shown + utf8(" ms"),
        reads_as(shown, millis as int),
{
    law_decimal_reads_back(millis as nat);
    decimal(millis as nat)
}

/// What `uptime` reports fits into a response.
pub proof fn lemma_uptime_text_fits(millis: u64)
    ensures
        uptime_text(millis).len() <= RESPONSE_CAPACITY,
{
    lemma_fixed_texts_fit();
    lemma_decimal_len(millis as nat);
}

/// What `info` reports fits into a response, where the version is not too long.
pub proof fn lemma_info_pieces_len(version: Seq<u8>, uid: Seq<u8>, reason: Option<ResetReason>)
    requires
        version.len() <= 79,
        uid.len() == 8,
    ensures
        total_len(info_pieces(version, uid, reason)) <= RESPONSE_CAPACITY,
{
    reveal_strlit("Pico USB Console");
    reveal_strlit(" v");
    reveal_strlit("\r\nFlash UID: ");
    reveal_strlit("\r\nUltimo reset: ");
    reveal_strlit("forced (watchdog trigger_reset)");
    reveal_strlit("watchdog timeout");
    reveal_strlit("power-on o soft-reset (el RP2040 no distingue estos casos)");
    is_ascii_spec_bytes(PRODUCT_NAME);
    is_ascii_spec_bytes(" v");
    is_ascii_spec_bytes("\r\nFlash UID: ");
    is_ascii_spec_bytes("\r\nUltimo reset: ");
    is_ascii_spec_bytes(FORCED_TEXT);
    is_ascii_spec_bytes(TIMED_OUT_TEXT);
    is_ascii_spec_bytes(NO_REASON_TEXT);
    let pieces = info_pieces(version, uid, reason);
    reveal_with_fuel(total_len, 8);
    assert(pieces.drop_first()[0] == pieces[1]);
    assert(pieces.drop_first().drop_first()[0] == pieces[2]);
    assert(pieces.drop_first().drop_first().drop_first()[0] == pieces[3]);
}

/// `info` is written in seven pieces: the product, its version, the flash ID in upper-case
/// hexadecimal and the words for the last reset, each behind what introduces it.
pub proof fn law_info_pieces_in_order(version: Seq<u8>, uid: Seq<u8>, reason: Option<ResetReason>)
    ensures
        ({
            let pieces = info_pieces(version, uid, reason);
            &&& pieces.len() == 7
            &&& pieces[0] == utf8("Pico USB Console")
            &&& pieces[1] == utf8(" v")
            &&& pieces[2] == version
            &&& pieces[3] == utf8("\r\nFlash UID: ")
            &&& pieces[4].len() == 2 * uid.len()
            &&& forall|i: int|
                0 <= i < uid.len() ==> pieces[4][2 * i] == "0123456789ABCDEF"@[#[trigger] uid[i] as int
                    / 16] as u8 && pieces[4][2 * i + 1] == "0123456789ABCDEF"@[uid[i] as int
                    % 16] as u8
            &&& pieces[5] == utf8("\r\nUltimo reset: ")
            &&& pieces[6] == match reason {
                Some(ResetReason::Forced) => utf8("forced (watchdog trigger_reset)"),
                Some(ResetReason::TimedOut) => utf8("watchdog timeout"),
                None => utf8("power-on o soft-reset (el RP2040 no distingue estos casos)"),
            }
        }),
{
    law_hex_digits_are_upper_case(uid);
}

fn fixed(text: &str) -> (response: Response)
    requires
        utf8(text).len() <= RESPONSE_CAPACITY,
    ensures
        response@ == utf8(text),
{
    let mut response = Response::new();
    response.push_str(text);
    assert(Seq::<u8>::empty() + utf8(text) =~= utf8(text));
    response
}

/// The answer to `info`.
pub fn info_response(version: &str, uid: &[u8; 8], reason: Option<ResetReason>) -> (response:
    Response)
    ensures
        response@ == written(Seq::empty(), info_pieces(utf8(version), uid@, reason)),
        response@.len() <= 200,
{
    let mut hex: [u8; 16] = [0u8; 16];
    hex_encode_upper(uid, &mut hex);
    proof {
        assert(hex@ =~= hex_upper(uid@));
        lemma_hex_is_ascii(uid@);
        lemma_ascii_is_utf8(hex@);
    }
    let hex_str: &str = str_from_utf8(&hex).unwrap_or("????????????????");
    let reason_str: &str = match reason {
        Some(ResetReason::Forced) => FORCED_TEXT,
        Some(ResetReason::TimedOut) => TIMED_OUT_TEXT,
        None => NO_REASON_TEXT,
    };
    let pieces: [&str; 7] = [
        PRODUCT_NAME,
        " v",
        version,
        "\r\nFlash UID: ",
        hex_str,
        "\r\nUltimo reset: ",
        reason_str,
    ];
    let mut response = Response::new();
    response.push_all(&pieces);
    assert(texts(pieces@) =~= info_pieces(utf8(version), uid@, reason));
    proof {
        law_written_fits(Seq::empty(), texts(pieces@));
    }
    response
}

/// The answer to `temp`, from the raw reading of the sensor and the temperature in
/// tenths of a degree Celsius.
pub fn temperature_response(raw: u16, tenths: i16) -> (response: Response)
    ensures
        response@ == temperature_text(raw, tenths),
{
    let negative: bool = tenths < 0;
    let size: u64 = if negative {
        (-(tenths as i64)) as u64
    } else {
        tenths as u64
    };
    proof {
        lemma_fixed_texts_fit();
        lemma_decimal_len((size / 10) as nat);
        lemma_decimal_len((size % 10) as nat);
        lemma_decimal_len(raw as nat);
    }
    let mut response = Response::new();
    response.push_str("Temperatura interna: ");
    if negative {
        response.push_str("-");
    }
    response.push_decimal(size / 10);
    response.push_str(".");
    response.push_decimal(size % 10);
    response.push_str(" C (raw=");
    response.push_decimal(raw as u64);
    response.push_str(")");
    assert(response@ =~= temperature_text(raw, tenths));
    response
}

/// The answer to `uptime`.
pub fn uptime_response(millis: u64) -> (response: Response)
    ensures
        response@ == uptime_text(millis),
{
    proof {
        lemma_fixed_texts_fit();
        lemma_decimal_len(millis as nat);
    }
    let mut response = Response::new();
    response.push_str("Uptime: ");
    response.push_decimal(millis);
    response.push_str(" ms");
    assert(response@ =~= uptime_text(millis));
    response
}

/// What the firmware is to do next for the commands.
#[derive(Clone, Copy, Debug, PartialEq, Eq, Structural)]
pub enum AppAction {
    /// Wait for a line; report `Line`.
    AwaitLine,
    /// Read the temperature sensor; report `Temperature` or `AdcFailed`.
    ReadTemperature,
    /// Read the clock; report `Uptime`.
    ReadUptime,
    /// Let time pass; report `Done`.
    Sleep { millis: u64 },
    /// Call the boot ROM's reset into USB boot; report `Done` should it return.
    ResetToUsbBoot { gpio_mask: u32, disable_mask: u32 },
}

/// What happened when the firmware carried out an action for the commands.
#[derive(Clone, Copy, Debug)]
pub enum AppEvent<'a> {
    /// A line was taken from the queue.
    Line(&'a [u8]),
    /// The sensor's raw reading, and the temperature in tenths of a degree Celsius.
    Temperature { raw: u16, tenths: i16 },
    /// The sensor could not be read.
    AdcFailed,
    /// The time since boot, in milliseconds.
    Uptime { millis: u64 },
    /// The action is done.
    Done,
}

/// An event, with a line as a sequence of bytes.
pub enum AppEventState {
    Line { line: Seq<u8> },
    Temperature { raw: u16, tenths: i16 },
    AdcFailed,
    Uptime { millis: u64 },
    Done,
}

impl<'a> View for AppEvent<'a> {
    type V = AppEventState;

    open spec fn view(&self) -> AppEventState {
        match *self {
            AppEvent::Line(line) => AppEventState::Line { line: line@ },
            AppEvent::Temperature { raw, tenths } => AppEventState::Temperature { raw, tenths },
            AppEvent::AdcFailed => AppEventState::AdcFailed,
            AppEvent::Uptime { millis } => AppEventState::Uptime { millis },
            AppEvent::Done => AppEventState::Done,
        }
    }
}

/// What the commands are doing, each time up to the event that they wait for.
#[derive(Clone, Copy, Debug, PartialEq, Eq, Structural)]
pub enum AppStage {
    /// Waiting for a line.
    Idle,
    /// Reading the temperature sensor.
    ReadingTemperature,
    /// Reading the clock.
    ReadingUptime,
    /// About to reboot.
    RebootDelay,
    /// Rebooting.
    Rebooting,
}

/// The commands, and what they know of the board.
pub struct AppState {
    pub version: Seq<u8>,
    pub uid: Seq<u8>,
    pub reason: Option<ResetReason>,
    pub stage: AppStage,
}

impl AppState {
    pub open spec fn at(self, stage: AppStage) -> AppState {
        AppState { stage, ..self }
    }

    /// What the commands ask of the firmware.
    pub open spec fn action(self) -> AppAction {
        match self.stage {
            AppStage::Idle => AppAction::AwaitLine,
            AppStage::ReadingTemperature => AppAction::ReadTemperature,
            AppStage::ReadingUptime => AppAction::ReadUptime,
            AppStage::RebootDelay => AppAction::Sleep { millis: BOOTSEL_DELAY_MILLIS },
            AppStage::Rebooting => AppAction::ResetToUsbBoot { gpio_mask: 0, disable_mask: 0 },
        }
    }

    /// What `info` answers on this board.
    pub open spec fn info_text(self) -> Seq<u8> {
        written(Seq::empty(), info_pieces(self.version, self.uid, self.reason))
    }
}

/// A response is passed on to the port; it is lost where the queue is full.
pub open spec fn respond(links: LinksState, text: Seq<u8>) -> LinksState {
    LinksState { responses: enqueue(links.responses, text), ..links }
}

/// What the commands do after each event. An event that does not answer their action
/// leaves them as they are.
pub open spec fn app_transition(state: AppState, links: LinksState, event: AppEventState) -> (
    AppState,
    LinksState,
) {
    match (state.stage, event) {
        (AppStage::Idle, AppEventState::Line { line }) => match command_of(line) {
            Command::Help => (state, respond(links, utf8(HELP_TEXT))),
            Command::Info => (state, respond(links, state.info_text())),
            Command::Temp => (state.at(AppStage::ReadingTemperature), links),
            Command::Uptime => (state.at(AppStage::ReadingUptime), links),
            Command::Bootsel => (
                state.at(AppStage::RebootDelay),
                respond(links, utf8(BOOTSEL_TEXT)),
            ),
            Command::Unknown => (state, respond(links, utf8(UNKNOWN_TEXT))),
        },
        (AppStage::ReadingTemperature, AppEventState::Temperature { raw, tenths }) => (
            state.at(AppStage::Idle),
            respond(links, temperature_text(raw, tenths)),
        ),
        (AppStage::ReadingTemperature, AppEventState::AdcFailed) => (
            state.at(AppStage::Idle),
            respond(links, utf8(ADC_ERROR_TEXT)),
        ),
        (AppStage::ReadingUptime, AppEventState::Uptime { millis }) => (
            state.at(AppStage::Idle),
            respond(links, uptime_text(millis)),
        ),
        (AppStage::RebootDelay, AppEventState::Done) => (state.at(AppStage::Rebooting), links),
        (AppStage::Rebooting, AppEventState::Done) => (state.at(AppStage::Idle), links),
        _ => (state, links),
    }
}

/// The commands of the console.
pub struct AppTask {
    version: &'static str,
    uid: [u8; 8],
    reason: Option<ResetReason>,
    stage: AppStage,
}

impl View for AppTask {
    type V = AppState;

    closed spec fn view(&self) -> AppState {
        AppState {
            version: utf8(self.version),
            uid: self.uid@,
            reason: self.reason,
            stage: self.stage,
        }
    }
}

impl AppTask {
    /// The commands at boot, with what `info` reports: the firmware's version, the flash
    /// ID and the reason of the last reset.
    pub fn new(version: &'static str, uid: [u8; 8], reason: Option<ResetReason>) -> (task: AppTask)
        ensures
            task@ == (AppState {
                version: utf8(version),
                uid: uid@,
                reason,
                stage: AppStage::Idle,
            }),
    {
        AppTask { version, uid, reason, stage: AppStage::Idle }
    }

    /// What the firmware is to do next.
    pub fn action(&self) -> (action: AppAction)
        ensures
            action == self@.action(),
    {
        match self.stage {
            AppStage::Idle => AppAction::AwaitLine,
            AppStage::ReadingTemperature => AppAction::ReadTemperature,
            AppStage::ReadingUptime => AppAction::ReadUptime,
            AppStage::RebootDelay => AppAction::Sleep { millis: BOOTSEL_DELAY_MILLIS },
            AppStage::Rebooting => AppAction::ResetToUsbBoot { gpio_mask: 0, disable_mask: 0 },
        }
    }

    fn run(&mut self, links: &mut Links, line: &[u8])
        requires
            old(self).stage == AppStage::Idle,
        ensures
            (final(self)@, final(links)@) == app_transition(
                old(self)@,
                old(links)@,
                AppEventState::Line { line: line@ },
            ),
    {
        proof {
            lemma_fixed_texts_fit();
        }
        match Command::parse(line) {
            Command::Help => {
                links.submit_response(fixed(HELP_TEXT));
            },
            Command::Info => {
                let response = info_response(self.version, &self.uid, self.reason);
                links.submit_response(response);
            },
            Command::Temp => {
                self.stage = AppStage::ReadingTemperature;
            },
            Command::Uptime => {
                self.stage = AppStage::ReadingUptime;
            },
            Command::Bootsel => {
                links.submit_response(fixed(BOOTSEL_TEXT));
                self.stage = AppStage::RebootDelay;
            },
            Command::Unknown => {
                links.submit_response(fixed(UNKNOWN_TEXT));
            },
        }
    }

    /// Takes the event that the last action came to, and returns the next action.
    pub fn step(&mut self, links: &mut Links, event: AppEvent<'_>) -> (action: AppAction)
        ensures
            (final(self)@, final(links)@) == app_transition(old(self)@, old(links)@, event@),
            action == final(self)@.action(),
    {
        match (self.stage, event) {
            (AppStage::Idle, AppEvent::Line(line)) => {
                self.run(links, line);
            },
            (AppStage::ReadingTemperature, AppEvent::Temperature { raw, tenths }) => {
                links.submit_response(temperature_response(raw, tenths));
                self.stage = AppStage::Idle;
            },
            (AppStage::ReadingTemperature, AppEvent::AdcFailed) => {
                proof {
                    lemma_fixed_texts_fit();
                }
                links.submit_response(fixed(ADC_ERROR_TEXT));
                self.stage = AppStage::Idle;
            },
            (AppStage::ReadingUptime, AppEvent::Uptime { millis }) => {
                links.submit_response(uptime_response(millis));
                self.stage = AppStage::Idle;
            },
            (AppStage::RebootDelay, AppEvent::Done) => {
                self.stage = AppStage::Rebooting;
            },
            (AppStage::Rebooting, AppEvent::Done) => {
                self.stage = AppStage::Idle;
            },
            _ => {},
        }
        self.action()
    }
}

/// What a line is answered without reading anything first; `None` where the answer is a
/// reading.
pub open spec fn direct_answer(app: AppState, line: Seq<u8>) -> Option<Seq<u8>> {
    match command_of(line) {
        Command::Help => Some(utf8(HELP_TEXT)),
        Command::Info => Some(app.info_text()),
        Command::Temp => None,
        Command::Uptime => None,
        Command::Bootsel => Some(utf8(BOOTSEL_TEXT)),
        Command::Unknown => Some(utf8(UNKNOWN_TEXT)),
    }
}

/// What a line is answered, given what came of the reading that it asks for, where it
/// asks for one; `None` where it is not that reading.
pub open spec fn answer_of(app: AppState, line: Seq<u8>, reading: AppEventState) -> Option<
    Seq<u8>,
> {
    match (command_of(line), reading) {
        (Command::Temp, AppEventState::Temperature { raw, tenths }) => Some(
            temperature_text(raw, tenths),
        ),
        (Command::Temp, AppEventState::AdcFailed) => Some(utf8(ADC_ERROR_TEXT)),
        (Command::Uptime, AppEventState::Uptime { millis }) => Some(uptime_text(millis)),
        _ => direct_answer(app, line),
    }
}

/// Each line that the commands take leads to one response, at once or with the reading
/// that it asks for, and they are then ready for the next line; `bootsel` reboots before.
pub proof fn law_every_line_gets_one_response(
    app: AppState,
    links: LinksState,
    line: Seq<u8>,
    raw: u16,
    tenths: i16,
    millis: u64,
)
    requires
        app.stage == AppStage::Idle,
    ensures
        ({
            let (next, after) = app_transition(app, links, AppEventState::Line { line });
            match command_of(line) {
                Command::Temp => after == links && app_transition(
                    next,
                    after,
                    AppEventState::Temperature { raw, tenths },
                ) == (app, respond(links, temperature_text(raw, tenths))) && app_transition(
                    next,
                    after,
                    AppEventState::AdcFailed,
                ) == (app, respond(links, utf8(ADC_ERROR_TEXT))),
                Command::Uptime => after == links && app_transition(
                    next,
                    after,
                    AppEventState::Uptime { millis },
                ) == (app, respond(links, uptime_text(millis))),
                Command::Bootsel => after == respond(links, utf8(BOOTSEL_TEXT)) && next.action()
                    == AppAction::Sleep { millis: BOOTSEL_DELAY_MILLIS } && app_transition(
                    next,
                    after,
                    AppEventState::Done,
                ).0.action() == AppAction::ResetToUsbBoot { gpio_mask: 0, disable_mask: 0 },
                _ => direct_answer(app, line) matches Some(answer) && (next, after) == (
                    app,
                    respond(links, answer),
                ),
            }
        }),
{
}

/// A line is answered according to the command that it names and nothing else: with fixed
/// words, with what `info` reports, or after a reading. The answer takes the place behind
/// the responses that are waiting, where fewer than four are, and no other place; lines
/// that are waiting stay as they are.
pub proof fn law_line_is_answered_by_its_command(app: AppState, links: LinksState, line: Seq<u8>)
    requires
        app.stage is Idle,
    ensures
        ({
            let (next, after) = app_transition(app, links, AppEventState::Line { line });
            let queue = links.responses;
            let room = queue.len() < 4;
            &&& after.lines == links.lines
            &&& after.responses == match command_of(line) {
                Command::Help => if room {
                    queue.push(utf8("Comandos: help, info, temp, uptime, bootsel"))
                } else {
                    queue
                },
                Command::Info => if room {
                    queue.push(app.info_text())
                } else {
                    queue
                },
                Command::Temp => queue,
                Command::Uptime => queue,
                Command::Bootsel => if room {
                    queue.push(utf8("Reiniciando a BOOTSEL..."))
                } else {
                    queue
                },
                Command::Unknown => if room {
                    queue.push(utf8("Comando desconocido. Escribe 'help'."))
                } else {
                    queue
                },
            }
            &&& next == (AppState {
                stage: match command_of(line) {
                    Command::Temp => AppStage::ReadingTemperature,
                    Command::Uptime => AppStage::ReadingUptime,
                    Command::Bootsel => AppStage::RebootDelay,
                    _ => AppStage::Idle,
                },
                ..app
            })
        }),
{
}

/// A reading of the sensor is answered with what it reads back as, and a failed one with
/// words that say so; either way the commands are then ready for the next line.
pub proof fn law_temperature_is_answered(
    app: AppState,
    links: LinksState,
    raw: u16,
    tenths: i16,
) -> (shown: (Seq<u8>, Seq<u8>))
    requires
        app.stage is ReadingTemperature,
    ensures
        reads_as_tenths(shown.0, tenths as int),
        reads_as(shown.1, raw as int),
        app_transition(app, links, AppEventState::Temperature { raw, tenths }) == (
            (AppState { stage: AppStage::Idle, ..app }),
            (LinksState {
                responses: if links.responses.len() < 4 {
                    links.responses.push(
                        utf8("Temperatura interna: ") + shown.0 + utf8(" C (raw=") + shown.1 + utf8(
                            ")",
                        ),
                    )
                } else {
                    links.responses
                },
                ..links
            }),
        ),
        app_transition(app, links, AppEventState::AdcFailed) == (
            (AppState { stage: AppStage::Idle, ..app }),
            (LinksState {
                responses: if links.responses.len() < 4 {
                    links.responses.push(utf8("Error leyendo el ADC"))
                } else {
                    links.responses
                },
                ..links
            }),
        ),
{
    law_temperature_reads_back(raw, tenths)
}

/// A reading of the clock is answered with what it reads back as, and the commands are
/// then ready for the next line.
pub proof fn law_uptime_is_answered(app: AppState, links: LinksState, millis: u64) -> (shown: Seq<
    u8,
>)
    requires
        app.stage is ReadingUptime,
    ensures
        reads_as(shown, millis as int),
        app_transition(app, links, AppEventState::Uptime { millis }) == (
            (AppState { stage: AppStage::Idle, ..app }),
            (LinksState {
                responses: if links.responses.len() < 4 {
                    links.responses.push(utf8("Uptime: ") + shown + utf8(" ms"))
                } else {
                    links.responses
                },
                ..links
            }),
        ),
{
    law_uptime_reads_back(millis)
}

/// `bootsel` waits for 100 ms and then resets into USB boot with every interface on.
/// Should the reset return, the commands take the next line. Nothing of this touches the
/// queues.
pub proof fn law_bootsel_waits_and_reboots(app: AppState, links: LinksState)
    requires
        app.stage is RebootDelay,
    ensures
        app.action() == (AppAction::Sleep { millis: 100 }),
        app_transition(app, links, AppEventState::Done) == (
            (AppState { stage: AppStage::Rebooting, ..app }),
            links,
        ),
        (AppState { stage: AppStage::Rebooting, ..app }).action() == (AppAction::ResetToUsbBoot {
            gpio_mask: 0,
            disable_mask: 0,
        }),
        app_transition(
            (AppState { stage: AppStage::Rebooting, ..app }),
            links,
            AppEventState::Done,
        ) == ((AppState { stage: AppStage::Idle, ..app }), links),
{
}

/// The commands wait for a line unless a reading or a reboot is due, and ask for the
/// reading that is due.
pub proof fn law_commands_ask_for_what_is_due(app: AppState)
    ensures
        app.action() is AwaitLine <==> app.stage is Idle,
        app.action() is ReadTemperature <==> app.stage is ReadingTemperature,
        app.action() is ReadUptime <==> app.stage is ReadingUptime,
        app.action() is Sleep <==> app.stage is RebootDelay,
        app.action() is ResetToUsbBoot <==> app.stage is Rebooting,
{
}

/// An event that does not answer what the commands asked for changes nothing.
pub proof fn law_commands_ignore_other_events(
    app: AppState,
    links: LinksState,
    event: AppEventState,
)
    requires
        match app.action() {
            AppAction::AwaitLine => !(event is Line),
            AppAction::ReadTemperature => !(event is Temperature) && !(event is AdcFailed),
            AppAction::ReadUptime => !(event is Uptime),
            AppAction::Sleep { .. } => !(event is Done),
            AppAction::ResetToUsbBoot { .. } => !(event is Done),
        },
    ensures
        app_transition(app, links, event) == (app, links),
{
}

/// The commands take every event as the firmware reports it.
pub proof fn law_commands_see_events_as_they_are<'a>(event: AppEvent<'a>)
    ensures
        match event {
            AppEvent::Line(line) => event@ == (AppEventState::Line { line: line@ }),
            AppEvent::Temperature { raw, tenths } => event@ == (AppEventState::Temperature {
                raw,
                tenths,
            }),
            AppEvent::AdcFailed => event@ is AdcFailed,
            AppEvent::Uptime { millis } => event@ == (AppEventState::Uptime { millis }),
            AppEvent::Done => event@ is Done,
        },
{
}

/// Of a version that leaves no room for the rest, `info` shows the pieces before the first
/// that does not fit into 200 bytes any more, whole and in order.
pub proof fn law_info_shows_whole_pieces(app: AppState) -> (n: int)
    ensures
        ({
            let pieces = info_pieces(app.version, app.uid, app.reason);
            &&& 0 <= n <= pieces.len()
            &&& app.info_text() == pieces.take(n).flatten()
            &&& app.info_text().len() <= 200
            &&& n < pieces.len() ==> app.info_text().len() + pieces[n].len() > 200
            &&& app.version.len() <= 79 && app.uid.len() == 8 ==> n == 7
        }),
{
    let pieces = info_pieces(app.version, app.uid, app.reason);
    let n = law_writing_stops_at_the_first_misfit(Seq::empty(), pieces);
    assert(Seq::<u8>::empty() + pieces.take(n).flatten() =~= pieces.take(n).flatten());
    if app.version.len() <= 79 && app.uid.len() == 8 && n < 7 {
        lemma_info_pieces_len(app.version, app.uid, app.reason);
        lemma_total_len_of_front(pieces, n + 1);
        lemma_total_len_of_last(pieces.take(n + 1));
        assert(pieces.take(n + 1).drop_last() =~= pieces.take(n));
        lemma_flatten_len(pieces.take(n));
    }
    n
}

proof fn lemma_flatten_len(pieces: Seq<Seq<u8>>)
    ensures
        pieces.flatten().len() == total_len(pieces),
    decreases pieces.len(),
{
    if pieces.len() > 0 {
        lemma_flatten_len(pieces.drop_first());
    }
}

proof fn lemma_total_len_of_front(pieces: Seq<Seq<u8>>, n: int)
    requires
        0 <= n <= pieces.len(),
    ensures
        total_len(pieces.take(n)) <= total_len(pieces),
    decreases n,
{
    if n > 0 {
        lemma_total_len_of_front(pieces.drop_first(), n - 1);
        assert(pieces.take(n).drop_first() =~= pieces.drop_first().take(n - 1));
    }
}

proof fn lemma_total_len_of_last(pieces: Seq<Seq<u8>>)
    requires
        pieces.len() > 0,
    ensures
        total_len(pieces) == total_len(pieces.drop_last()) + pieces.last().len(),
    decreases pieces.len(),
{
    if pieces.len() == 1 {
        reveal_with_fuel(total_len, 2);
        assert(pieces.drop_first() =~= Seq::empty());
        assert(pieces.drop_last() =~= Seq::empty());
    } else {
        lemma_total_len_of_last(pieces.drop_first());
        assert(pieces.drop_first().drop_last() =~= pieces.drop_last().drop_first());
    }
}

/// `info` is complete for every version of up to 79 bytes: nothing of it is left out for
/// want of room.
pub proof fn law_info_is_complete(version: Seq<u8>, uid: Seq<u8>, reason: Option<ResetReason>)
    requires
        version.len() <= 79,
        uid.len() == 8,
    ensures
        written(Seq::empty(), info_pieces(version, uid, reason)) == info_pieces(
            version,
            uid,
            reason,
        ).flatten(),
{
    let pieces = info_pieces(version, uid, reason);
    lemma_info_pieces_len(version, uid, reason);
    law_what_fits_is_written(Seq::empty(), pieces);
    assert(Seq::<u8>::empty() + pieces.flatten() =~= pieces.flatten());
}

} // verus!
