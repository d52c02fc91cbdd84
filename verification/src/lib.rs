//! ScreenBlocker's core logic: the focus/break cycle engine, break-history
//! aggregation for the dashboard, meeting detection decisions, the prompt
//! banks and the integer side of the tray countdown icon.

pub mod commands;
pub mod meeting;
pub mod messages;
pub mod store;
pub mod timer;
pub mod tray_icon;
