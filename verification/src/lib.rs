//! Host-independent core of the EDM machine firmware: the line protocol and
//! G-code parsers, p-state output, settings, safety status, and the
//! decisions of the motion, pulser and pump controllers.

pub mod bytes;
pub mod canceler;
pub mod command;
pub mod commands;
pub mod coords;
pub mod decimal;
pub mod dispatch;
pub mod gcode;
pub mod hvec;
pub mod interactive;
pub mod linecomm;
pub mod motion;
pub mod motor;
pub mod outbox;
pub mod path_buffer;
pub mod pstate;
pub mod pulser;
pub mod pump;
pub mod rx;
pub mod settings;
pub mod signal;
pub mod signals;
pub mod step_gen;
pub mod tmc2209;
pub mod words;
