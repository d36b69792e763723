//! What a key does in the task report, by the key configuration.
use vstd::prelude::*;

use crate::event::KeyCode;
use crate::keyconfig::KeyConfig;

verus! {

/// What a key asks of the task report.
#[derive(Debug, Clone, Copy, PartialEq, Eq, Structural)]
pub enum ReportKey {
    Quit,
    Refresh,
    Down,
    Up,
    PageDown,
    PageUp,
    Top,
    Bottom,
    ToggleMark,
    ToggleMarkAll,
    Done,
    Delete,
    Undo,
    StartStop,
    QuickTag,
    Add,
    Log,
    Annotate,
    Modify,
    Shell,
    Filter,
    Jump,
    Help,
    ContextMenu,
    NextTab,
    /// Run shortcut 1 to 9 on the selected tasks.
    Shortcut(usize),
    /// The key is bound to nothing in the report.
    Nothing,
}

/// The command that `key` runs in the task report under the key
/// configuration `kc`: the first binding that matches, in the order of the
/// keys listed for the report (the arrow, page, home and end keys move as
/// their configured keys do, and Ctrl-c quits).
pub open spec fn report_command(kc: KeyConfig, key: KeyCode) -> ReportKey {
    if key == kc.quit || key == KeyCode::Ctrl('c') {
        ReportKey::Quit
    } else if key == kc.refresh {
        ReportKey::Refresh
    } else if key == kc.down || key == KeyCode::Down {
        ReportKey::Down
    } else if key == kc.up || key == KeyCode::Up {
        ReportKey::Up
    } else if key == kc.page_down || key == KeyCode::PageDown {
        ReportKey::PageDown
    } else if key == kc.page_up || key == KeyCode::PageUp {
        ReportKey::PageUp
    } else if key == kc.go_to_top || key == KeyCode::Home {
        ReportKey::Top
    } else if key == kc.go_to_bottom || key == KeyCode::End {
        ReportKey::Bottom
    } else if key == kc.select {
        ReportKey::ToggleMark
    } else if key == kc.select_all {
        ReportKey::ToggleMarkAll
    } else if key == kc.done {
        ReportKey::Done
    } else if key == kc.delete {
        ReportKey::Delete
    } else if key == kc.undo {
        ReportKey::Undo
    } else if key == kc.start_stop {
        ReportKey::StartStop
    } else if key == kc.quick_tag {
        ReportKey::QuickTag
    } else if key == kc.add {
        ReportKey::Add
    } else if key == kc.log {
        ReportKey::Log
    } else if key == kc.annotate {
        ReportKey::Annotate
    } else if key == kc.modify {
        ReportKey::Modify
    } else if key == kc.shell {
        ReportKey::Shell
    } else if key == kc.filter {
        ReportKey::Filter
    } else if key == kc.jump {
        ReportKey::Jump
    } else if key == kc.help {
        ReportKey::Help
    } else if key == kc.context_menu {
        ReportKey::ContextMenu
    } else if key == kc.next_tab {
        ReportKey::NextTab
    } else if key == kc.shortcut1 {
        ReportKey::Shortcut(1)
    } else if key == kc.shortcut2 {
        ReportKey::Shortcut(2)
    } else if key == kc.shortcut3 {
        ReportKey::Shortcut(3)
    } else if key == kc.shortcut4 {
        ReportKey::Shortcut(4)
    } else if key == kc.shortcut5 {
        ReportKey::Shortcut(5)
    } else if key == kc.shortcut6 {
        ReportKey::Shortcut(6)
    } else if key == kc.shortcut7 {
        ReportKey::Shortcut(7)
    } else if key == kc.shortcut8 {
        ReportKey::Shortcut(8)
    } else if key == kc.shortcut9 {
        ReportKey::Shortcut(9)
    } else {
        ReportKey::Nothing
    }
}

/// The command that `key` runs in the task report.
pub fn report_key_command(kc: &KeyConfig, key: KeyCode) -> (r: ReportKey)
    ensures
        r == report_command(*kc, key),
{
    let kc = *kc;
    if key == kc.quit || key == KeyCode::Ctrl('c') {
        ReportKey::Quit
    } else if key == kc.refresh {
        ReportKey::Refresh
    } else if key == kc.down || key == KeyCode::Down {
        ReportKey::Down
    } else if key == kc.up || key == KeyCode::Up {
        ReportKey::Up
    } else if key == kc.page_down || key == KeyCode::PageDown {
        ReportKey::PageDown
    } else if key == kc.page_up || key == KeyCode::PageUp {
        ReportKey::PageUp
    } else if key == kc.go_to_top || key == KeyCode::Home {
        ReportKey::Top
    } else if key == kc.go_to_bottom || key == KeyCode::End {
        ReportKey::Bottom
    } else if key == kc.select {
        ReportKey::ToggleMark
    } else if key == kc.select_all {
        ReportKey::ToggleMarkAll
    } else if key == kc.done {
        ReportKey::Done
    } else if key == kc.delete {
        ReportKey::Delete
    } else if key == kc.undo {
        ReportKey::Undo
    } else if key == kc.start_stop {
        ReportKey::StartStop
    } else if key == kc.quick_tag {
        ReportKey::QuickTag
    } else if key == kc.add {
        ReportKey::Add
    } else if key == kc.log {
        ReportKey::Log
    } else if key == kc.annotate {
        ReportKey::Annotate
    } else if key == kc.modify {
        ReportKey::Modify
    } else if key == kc.shell {
        ReportKey::Shell
    } else if key == kc.filter {
        ReportKey::Filter
    } else if key == kc.jump {
        ReportKey::Jump
    } else if key == kc.help {
        ReportKey::Help
    } else if key == kc.context_menu {
        ReportKey::ContextMenu
    } else if key == kc.next_tab {
        ReportKey::NextTab
    } else if key == kc.shortcut1 {
        ReportKey::Shortcut(1)
    } else if key == kc.shortcut2 {
        ReportKey::Shortcut(2)
    } else if key == kc.shortcut3 {
        ReportKey::Shortcut(3)
    } else if key == kc.shortcut4 {
        ReportKey::Shortcut(4)
    } else if key == kc.shortcut5 {
        ReportKey::Shortcut(5)
    } else if key == kc.shortcut6 {
        ReportKey::Shortcut(6)
    } else if key == kc.shortcut7 {
        ReportKey::Shortcut(7)
    } else if key == kc.shortcut8 {
        ReportKey::Shortcut(8)
    } else if key == kc.shortcut9 {
        ReportKey::Shortcut(9)
    } else {
        ReportKey::Nothing
    }
}

} // verus!
