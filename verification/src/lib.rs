//! Verified core of a desktop system monitor: theme configuration, history
//! ring buffers, process-table filtering and ordering, sensor matching and the
//! small decisions that sit between the operating system and the screen.
pub mod config;
pub mod ring;
pub mod text;
pub mod order;
pub mod process;
pub mod collector;
pub mod gpu;
pub mod panels;
pub mod logger;
