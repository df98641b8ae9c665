//! Denon/Marantz AVR and HEOS IP control library.
pub mod app_command_http;
pub mod application;
pub mod avr;
pub mod bytes;
pub mod capabilities;
pub mod cli;
pub mod config;
pub mod controller;
pub mod core_profile;
pub mod discovery;
pub mod operation;
pub mod desktop;
pub mod display;
pub mod domain;
pub mod protocol;
pub mod repository;
pub mod response;
pub mod session;
pub mod state;
pub mod status;
pub mod table;
pub mod text;
pub mod xml;
