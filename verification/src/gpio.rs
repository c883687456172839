//! The GPIO peripheral: what a pin's configuration register holds, and the
//! typestates that stand for a configured pin.

pub mod mode;
pub mod pin_cnf;
