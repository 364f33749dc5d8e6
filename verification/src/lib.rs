//! Console client logic: command planning, output rendering, remote paths,
//! directory trees and capture sessions.

pub mod capture;
pub mod clock;
pub mod command;
pub mod discover;
pub mod drivemap;
pub mod error;
pub mod fetch;
pub mod harvest;
pub mod hexdump;
pub mod listing;
pub mod movie;
pub mod notify;
pub mod order;
pub mod parse;
pub mod paths;
pub mod records;
pub mod report;
pub mod screenshot;
pub mod segments;
pub mod size;
pub mod style;
pub mod table;
pub mod text;
pub mod transfer;
pub mod tree;
pub mod ui;
