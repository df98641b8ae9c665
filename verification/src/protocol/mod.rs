//! Protocol framing and parsing.
//!
//! Transport-independent protocol implementations that remain usable without
//! a network connection or async runtime.
pub mod app_command;
pub mod avr;
pub mod heos;
pub mod http_information;
pub mod quick_select_name;
pub mod source_catalog;
