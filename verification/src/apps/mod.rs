//! The small desktop applications.

pub mod minesweeper;
pub mod snake;
pub mod cdplayer;
pub mod calendar;
pub mod calculator;
pub mod sysinfo;
pub mod notepad;
pub mod paint;
