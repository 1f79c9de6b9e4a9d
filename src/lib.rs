//! Renders the time of day as Morse-code pulses on a single LED.

pub mod device;
pub mod encoder;
pub mod error;
pub mod parser;
pub mod schedule;
pub mod timing;

pub use device::LedState;
pub use encoder::{encode, Format, Symbol};
pub use error::Error;
pub use parser::parse_trigger;
pub use schedule::{approximate_pause_repeats, Action, Runner};
pub use timing::{DutyCycle, Timing};
