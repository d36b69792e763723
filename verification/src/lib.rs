use vstd::prelude::*;

pub mod action;
pub mod app;
pub mod calendar;
pub mod color;
pub mod column_menu;
pub mod command;
pub mod config;
pub mod completion;
pub mod context;
pub mod dependency_tags;
pub mod datetime;
pub mod event;
pub mod help;
pub mod history;
pub mod keyconfig;
pub mod keyevent;
pub mod keymap;
pub mod pane;
pub mod prompt;
pub mod report_keys;
pub mod scrollbar;
pub mod table;
pub mod task;
pub mod task_commands;
pub mod task_details;
pub mod task_report;
pub mod task_style;
pub mod text;
pub mod utils;

verus! {

} // verus!
