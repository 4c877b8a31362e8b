//! The logic of a USB-CDC console for the Raspberry Pi Pico (RP2040): the line
//! editor, the console session, the built-in commands, and the reset requests that
//! `picotool` sends. All of it is verified, on trusted contracts for the calls into
//! `heapless`, `embassy-sync` and `core`; reading and writing the USB port, the clock, the
//! ADC and the boot ROM belong to the firmware around it.

pub mod answering;
pub mod commands;
pub mod console;
pub mod decimal;
pub mod hex;
pub mod line;
pub mod links;
pub mod packets;
pub mod picotool;
pub mod response;
pub mod serial;
pub mod session;
pub mod text;
pub mod typing;
