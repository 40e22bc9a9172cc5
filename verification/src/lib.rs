//! Verified core of PiPulse, a system-status display for the Raspberry Pi.
//!
//! The library holds every decision the display makes: which page is shown,
//! how the raw system readings become percentages and text, which colours the
//! rows take, and how the network history is kept. Reading the hardware and
//! drawing pixels is left to the program around it.

pub mod ui;
pub mod text;
pub mod icons;
pub mod input;
pub mod history;
pub mod metrics;
pub mod parse;
