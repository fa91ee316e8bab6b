//! The decisions of a program that starts a software synthesizer when a digital
//! piano is played, and puts the computer to sleep when the playing is over.

pub mod app;
pub mod connection;
pub mod error;
pub mod laws;
pub mod media;
pub mod midi_in;
pub mod midi_out;
pub mod process;
pub mod program;
pub mod protocol;
pub mod text;
pub mod volume;
