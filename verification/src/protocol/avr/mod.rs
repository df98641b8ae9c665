//! Denon AVR protocol primitives, independent of transport mechanisms.
pub mod command;
pub mod response;
pub mod quick_select_eq;
pub mod x3800h;
