//! A column-oriented table of styled text, the projection of directory
//! entries into such a table, and the decisions of a directory browser.

pub mod color_str;
pub mod config;
pub mod listing;
pub mod navigation;
pub mod ordered;
pub mod paint;
pub mod present;
pub mod projection;
pub mod rows;
pub mod table;
pub mod units;
pub mod utils;
