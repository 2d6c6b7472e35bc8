//! TaskFlow core: the verified logic of a task manager that syncs with
//! Google Tasks.
//!
//! Calendar arithmetic, natural-language quick add, recurrence, reminder
//! lines in task notes (a reminder time stays local), the two-way sync
//! decisions, the Google Tasks API requests, token bookkeeping, the
//! database row format, the reminder service, the layout of the desktop
//! app's views and its state machine. Everything that touches the disk, the
//! network, the clock or the screen lives outside this crate and hands plain
//! values in.
pub mod calendar;
pub mod text;
pub mod parser;
pub mod models;
pub mod recurrence;
pub mod notes;
pub mod google;
pub mod sync;
pub mod token;
pub mod db;
pub mod order;
pub mod ui;
pub mod app_state;
pub mod reminders;
pub mod oauth;
pub mod layout;
