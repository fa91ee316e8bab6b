//! What holds of the program as a whole.

pub mod ending;
pub mod gesture;
pub mod order;
pub mod ports;
pub mod sleep;
pub mod start;
pub mod ticks;
pub mod views;
pub mod volumes;
pub mod words;
