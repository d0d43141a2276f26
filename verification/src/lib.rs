//! Koyomi: calendar date math, recurrence expansion, event queries,
//! reminders and keyboard-driven calendar navigation.

pub mod datetime;
pub mod text;
pub mod calendar;
pub mod recurrence;
pub mod events;
pub mod input;
pub mod editor;
pub mod reminder;
pub mod config;
pub mod platform;
pub mod scripting;
pub mod seqs;
pub mod session;
pub mod cli;
pub mod display;
