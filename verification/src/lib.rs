//! Verified core of a BatMUD terminal client: command rendering, line parsing,
//! combat tracking and session bookkeeping.

pub mod text;
pub mod keyed;
pub mod template;
pub mod abilities;
pub mod combat_damage;
pub mod combat_scan;
pub mod command;
pub mod config;
pub mod dispatch;
pub mod generic_commands;
pub mod input_state;
pub mod output_buffer;
pub mod scrollback;
pub mod session;
pub mod scan_grammar;
pub mod combat_awareness;
pub mod ansi;
pub mod telnet_buffer;
pub mod dialogs;
pub mod automation;
pub mod logs;
pub mod submit;
