//! Core logic of a terminal manager for systemd units: unit-list parsing,
//! selection and navigation, fuzzy ranking, key handling, colour themes,
//! configuration merging and the application state machine.

mod text;
pub mod systemd;
pub mod units;
pub mod filter;
pub mod config;
pub mod input;
pub mod theme;
pub mod app;
pub mod view;
