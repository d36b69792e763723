use taskwarrior_tui::event::KeyCode;
use taskwarrior_tui::keyconfig::{parse_key_value, KeyConfig};
#[test]
fn test_defaults_when_config_absent() {
  let data = "";
  let kc = KeyConfig::new(data).unwrap();
  assert_eq!(kc.help, KeyCode::Char('?'));
  assert_eq!(kc.priority_h, KeyCode::Char('H'));
  assert_eq!(kc.priority_m, KeyCode::Char('M'));
  assert_eq!(kc.priority_l, KeyCode::Char('L'));
  assert_eq!(kc.priority_n, KeyCode::Char('N'));
  assert_eq!(kc.priority_up, KeyCode::Char('+'));
  assert_eq!(kc.priority_down, KeyCode::Char('-'));
}

#[test]
fn test_help_key_configurable() {
  let data = "uda.taskwarrior-tui.keyconfig.help h\n";
  let kc = KeyConfig::new(data).unwrap();
  assert_eq!(kc.help, KeyCode::Char('h'));
}

#[test]
fn test_priority_keys_configurable() {
  let data = "uda.taskwarrior-tui.keyconfig.priority-h P\n\
              uda.taskwarrior-tui.keyconfig.priority-m Q\n\
              uda.taskwarrior-tui.keyconfig.priority-l R\n\
              uda.taskwarrior-tui.keyconfig.priority-n S\n";
  let kc = KeyConfig::new(data).unwrap();
  assert_eq!(kc.priority_h, KeyCode::Char('P'));
  assert_eq!(kc.priority_m, KeyCode::Char('Q'));
  assert_eq!(kc.priority_l, KeyCode::Char('R'));
  assert_eq!(kc.priority_n, KeyCode::Char('S'));
}

#[test]
fn test_priority_up_down_configurable() {
  let data = "uda.taskwarrior-tui.keyconfig.priority-up <C-p>\n\
              uda.taskwarrior-tui.keyconfig.priority-down <C-n>\n";
  let kc = KeyConfig::new(data).unwrap();
  assert_eq!(kc.priority_up, KeyCode::Ctrl('p'));
  assert_eq!(kc.priority_down, KeyCode::Ctrl('n'));
}

#[test]
fn test_existing_keys_still_work() {
  let data = "uda.taskwarrior-tui.keyconfig.quit Q\n\
              uda.taskwarrior-tui.keyconfig.add n\n";
  let kc = KeyConfig::new(data).unwrap();
  assert_eq!(kc.quit, KeyCode::Char('Q'));
  assert_eq!(kc.add, KeyCode::Char('n'));
  // unset keys keep defaults
  assert_eq!(kc.refresh, KeyCode::Char('r'));
  assert_eq!(kc.down, KeyCode::Char('j'));
}

// ── Single character (backward compat) ──────────────────────────────

#[test]
fn test_parse_single_char() {
  assert_eq!(parse_key_value("q"), Some(KeyCode::Char('q')));
  assert_eq!(parse_key_value("Q"), Some(KeyCode::Char('Q')));
  assert_eq!(parse_key_value("/"), Some(KeyCode::Char('/')));
  assert_eq!(parse_key_value("?"), Some(KeyCode::Char('?')));
  assert_eq!(parse_key_value("!"), Some(KeyCode::Char('!')));
  assert_eq!(parse_key_value("1"), Some(KeyCode::Char('1')));
}

#[test]
fn test_parse_single_char_with_whitespace() {
  assert_eq!(parse_key_value("  q  "), Some(KeyCode::Char('q')));
  assert_eq!(parse_key_value(" / "), Some(KeyCode::Char('/')));
}

#[test]
fn test_parse_empty_and_multi_char_bare() {
  assert_eq!(parse_key_value(""), None);
  assert_eq!(parse_key_value("ab"), None);
  assert_eq!(parse_key_value("quit"), None);
}

// ── Ctrl modifier ──────────────────────────────────────────────────

#[test]
fn test_parse_ctrl_char() {
  assert_eq!(parse_key_value("<C-e>"), Some(KeyCode::Ctrl('e')));
  assert_eq!(parse_key_value("<C-r>"), Some(KeyCode::Ctrl('r')));
  assert_eq!(parse_key_value("<C-y>"), Some(KeyCode::Ctrl('y')));
  assert_eq!(parse_key_value("<C-a>"), Some(KeyCode::Ctrl('a')));
}

#[test]
fn test_parse_ctrl_case_insensitive() {
  // Modifier prefix case
  assert_eq!(parse_key_value("<c-e>"), Some(KeyCode::Ctrl('e')));
  assert_eq!(parse_key_value("<C-e>"), Some(KeyCode::Ctrl('e')));
  // Key char case — always lowercased
  assert_eq!(parse_key_value("<C-E>"), Some(KeyCode::Ctrl('e')));
  assert_eq!(parse_key_value("<c-E>"), Some(KeyCode::Ctrl('e')));
}

#[test]
fn test_parse_ctrl_special() {
  assert_eq!(parse_key_value("<C-Backspace>"), Some(KeyCode::CtrlBackspace));
  assert_eq!(parse_key_value("<C-BS>"), Some(KeyCode::CtrlBackspace));
  assert_eq!(parse_key_value("<c-backspace>"), Some(KeyCode::CtrlBackspace));
  assert_eq!(parse_key_value("<C-Delete>"), Some(KeyCode::CtrlDelete));
  assert_eq!(parse_key_value("<C-Del>"), Some(KeyCode::CtrlDelete));
  assert_eq!(parse_key_value("<c-del>"), Some(KeyCode::CtrlDelete));
}

// ── Alt modifier ──────────────────────────────────────────────────

#[test]
fn test_parse_alt_char() {
  assert_eq!(parse_key_value("<A-d>"), Some(KeyCode::Alt('d')));
  assert_eq!(parse_key_value("<A-f>"), Some(KeyCode::Alt('f')));
  assert_eq!(parse_key_value("<A-b>"), Some(KeyCode::Alt('b')));
}

#[test]
fn test_parse_meta_alias() {
  assert_eq!(parse_key_value("<M-f>"), Some(KeyCode::Alt('f')));
  assert_eq!(parse_key_value("<M-d>"), Some(KeyCode::Alt('d')));
  assert_eq!(parse_key_value("<m-f>"), Some(KeyCode::Alt('f')));
}

#[test]
fn test_parse_alt_case_insensitive() {
  assert_eq!(parse_key_value("<a-d>"), Some(KeyCode::Alt('d')));
  assert_eq!(parse_key_value("<A-D>"), Some(KeyCode::Alt('d')));
}

#[test]
fn test_parse_alt_special() {
  assert_eq!(parse_key_value("<A-Backspace>"), Some(KeyCode::AltBackspace));
  assert_eq!(parse_key_value("<A-BS>"), Some(KeyCode::AltBackspace));
  assert_eq!(parse_key_value("<M-Backspace>"), Some(KeyCode::AltBackspace));
  assert_eq!(parse_key_value("<A-Delete>"), Some(KeyCode::AltDelete));
  assert_eq!(parse_key_value("<A-Del>"), Some(KeyCode::AltDelete));
  assert_eq!(parse_key_value("<M-Del>"), Some(KeyCode::AltDelete));
}

// ── Shift modifier ────────────────────────────────────────────────

#[test]
fn test_parse_shift_tab() {
  assert_eq!(parse_key_value("<S-Tab>"), Some(KeyCode::BackTab));
  assert_eq!(parse_key_value("<s-tab>"), Some(KeyCode::BackTab));
}

#[test]
fn test_parse_shift_unsupported() {
  // Shift is only supported for Tab
  assert_eq!(parse_key_value("<S-a>"), None);
  assert_eq!(parse_key_value("<S-Enter>"), None);
}

// ── Named keys (no modifier) ──────────────────────────────────────

#[test]
fn test_parse_esc() {
  assert_eq!(parse_key_value("<Esc>"), Some(KeyCode::Esc));
  assert_eq!(parse_key_value("<Escape>"), Some(KeyCode::Esc));
  assert_eq!(parse_key_value("<esc>"), Some(KeyCode::Esc));
  assert_eq!(parse_key_value("<ESC>"), Some(KeyCode::Esc));
  assert_eq!(parse_key_value("<ESCAPE>"), Some(KeyCode::Esc));
}

#[test]
fn test_parse_enter() {
  assert_eq!(parse_key_value("<Enter>"), Some(KeyCode::Char('\n')));
  assert_eq!(parse_key_value("<CR>"), Some(KeyCode::Char('\n')));
  assert_eq!(parse_key_value("<Return>"), Some(KeyCode::Char('\n')));
  assert_eq!(parse_key_value("<enter>"), Some(KeyCode::Char('\n')));
  assert_eq!(parse_key_value("<cr>"), Some(KeyCode::Char('\n')));
}

#[test]
fn test_parse_tab() {
  assert_eq!(parse_key_value("<Tab>"), Some(KeyCode::Tab));
  assert_eq!(parse_key_value("<tab>"), Some(KeyCode::Tab));
}

#[test]
fn test_parse_backtab() {
  assert_eq!(parse_key_value("<BackTab>"), Some(KeyCode::BackTab));
  assert_eq!(parse_key_value("<backtab>"), Some(KeyCode::BackTab));
}

#[test]
fn test_parse_backspace() {
  assert_eq!(parse_key_value("<BS>"), Some(KeyCode::Backspace));
  assert_eq!(parse_key_value("<Backspace>"), Some(KeyCode::Backspace));
  assert_eq!(parse_key_value("<bs>"), Some(KeyCode::Backspace));
}

#[test]
fn test_parse_delete() {
  assert_eq!(parse_key_value("<Del>"), Some(KeyCode::Delete));
  assert_eq!(parse_key_value("<Delete>"), Some(KeyCode::Delete));
  assert_eq!(parse_key_value("<del>"), Some(KeyCode::Delete));
}

#[test]
fn test_parse_insert() {
  assert_eq!(parse_key_value("<Ins>"), Some(KeyCode::Insert));
  assert_eq!(parse_key_value("<Insert>"), Some(KeyCode::Insert));
  assert_eq!(parse_key_value("<ins>"), Some(KeyCode::Insert));
}

#[test]
fn test_parse_space() {
  assert_eq!(parse_key_value("<Space>"), Some(KeyCode::Char(' ')));
  assert_eq!(parse_key_value("<space>"), Some(KeyCode::Char(' ')));
}

// ── Arrow keys ────────────────────────────────────────────────────

#[test]
fn test_parse_arrows() {
  assert_eq!(parse_key_value("<Up>"), Some(KeyCode::Up));
  assert_eq!(parse_key_value("<Down>"), Some(KeyCode::Down));
  assert_eq!(parse_key_value("<Left>"), Some(KeyCode::Left));
  assert_eq!(parse_key_value("<Right>"), Some(KeyCode::Right));
  assert_eq!(parse_key_value("<up>"), Some(KeyCode::Up));
  assert_eq!(parse_key_value("<DOWN>"), Some(KeyCode::Down));
}

// ── Navigation keys ───────────────────────────────────────────────

#[test]
fn test_parse_page_keys() {
  assert_eq!(parse_key_value("<PageUp>"), Some(KeyCode::PageUp));
  assert_eq!(parse_key_value("<PgUp>"), Some(KeyCode::PageUp));
  assert_eq!(parse_key_value("<pageup>"), Some(KeyCode::PageUp));
  assert_eq!(parse_key_value("<PageDown>"), Some(KeyCode::PageDown));
  assert_eq!(parse_key_value("<PgDn>"), Some(KeyCode::PageDown));
  assert_eq!(parse_key_value("<pagedown>"), Some(KeyCode::PageDown));
  assert_eq!(parse_key_value("<pgdn>"), Some(KeyCode::PageDown));
}

#[test]
fn test_parse_home_end() {
  assert_eq!(parse_key_value("<Home>"), Some(KeyCode::Home));
  assert_eq!(parse_key_value("<End>"), Some(KeyCode::End));
  assert_eq!(parse_key_value("<home>"), Some(KeyCode::Home));
  assert_eq!(parse_key_value("<end>"), Some(KeyCode::End));
}

// ── Function keys ─────────────────────────────────────────────────

#[test]
fn test_parse_function_keys() {
  assert_eq!(parse_key_value("<F1>"), Some(KeyCode::F(1)));
  assert_eq!(parse_key_value("<F2>"), Some(KeyCode::F(2)));
  assert_eq!(parse_key_value("<F10>"), Some(KeyCode::F(10)));
  assert_eq!(parse_key_value("<F12>"), Some(KeyCode::F(12)));
  assert_eq!(parse_key_value("<f1>"), Some(KeyCode::F(1)));
  assert_eq!(parse_key_value("<f12>"), Some(KeyCode::F(12)));
}

#[test]
fn test_parse_function_keys_out_of_range() {
  assert_eq!(parse_key_value("<F0>"), None);
  assert_eq!(parse_key_value("<F13>"), None);
  assert_eq!(parse_key_value("<F99>"), None);
}

// ── Null ──────────────────────────────────────────────────────────

#[test]
fn test_parse_null() {
  assert_eq!(parse_key_value("<Null>"), Some(KeyCode::Null));
  assert_eq!(parse_key_value("<null>"), Some(KeyCode::Null));
}

// ── Invalid input ─────────────────────────────────────────────────

#[test]
fn test_parse_invalid_angle_bracket() {
  assert_eq!(parse_key_value("<>"), None);
  assert_eq!(parse_key_value("<FooBar>"), None);
  assert_eq!(parse_key_value("<C->"), None);
  assert_eq!(parse_key_value("<C-ab>"), None); // multi-char after Ctrl
  assert_eq!(parse_key_value("<X-a>"), None); // unknown modifier
}

#[test]
fn test_parse_malformed_brackets() {
  assert_eq!(parse_key_value("<C-e"), None); // missing closing >
  assert_eq!(parse_key_value("C-e>"), None); // missing opening <
  assert_eq!(parse_key_value("Esc"), None); // bare multi-char without brackets
}

// ── Integration: get_config with angle bracket values ─────────────

#[test]
fn test_get_config_angle_bracket_ctrl() {
  let data = "uda.taskwarrior-tui.keyconfig.quit <C-q>\n";
  let result = KeyConfig::get_config("uda.taskwarrior-tui.keyconfig.quit", data);
  assert_eq!(result, Some(KeyCode::Ctrl('q')));
}

#[test]
fn test_get_config_angle_bracket_esc() {
  let data = "uda.taskwarrior-tui.keyconfig.quit <Esc>\n";
  let result = KeyConfig::get_config("uda.taskwarrior-tui.keyconfig.quit", data);
  assert_eq!(result, Some(KeyCode::Esc));
}

#[test]
fn test_get_config_angle_bracket_f_key() {
  let data = "uda.taskwarrior-tui.keyconfig.help <F1>\n";
  let result = KeyConfig::get_config("uda.taskwarrior-tui.keyconfig.help", data);
  assert_eq!(result, Some(KeyCode::F(1)));
}

#[test]
fn test_get_config_angle_bracket_enter() {
  let data = "uda.taskwarrior-tui.keyconfig.done <Enter>\n";
  let result = KeyConfig::get_config("uda.taskwarrior-tui.keyconfig.done", data);
  assert_eq!(result, Some(KeyCode::Char('\n')));
}

#[test]
fn test_get_config_single_char_backward_compat() {
  let data = "uda.taskwarrior-tui.keyconfig.quit Q\n";
  let result = KeyConfig::get_config("uda.taskwarrior-tui.keyconfig.quit", data);
  assert_eq!(result, Some(KeyCode::Char('Q')));
}

#[test]
fn test_get_config_underscore_fallback_with_angle_bracket() {
  let data = "uda.taskwarrior_tui.keyconfig.page_down <PageDown>\n";
  let result = KeyConfig::get_config("uda.taskwarrior-tui.keyconfig.page-down", data);
  assert_eq!(result, Some(KeyCode::PageDown));
}

#[test]
fn test_get_config_absent() {
  let data = "uda.taskwarrior-tui.keyconfig.quit q\n";
  let result = KeyConfig::get_config("uda.taskwarrior-tui.keyconfig.help", data);
  assert_eq!(result, None);
}

// ── KeyConfig::new integration ────────────────────────────────────

#[test]
fn test_keyconfig_new_with_angle_brackets() {
  let data = "uda.taskwarrior-tui.keyconfig.quit <Esc>\n\
              uda.taskwarrior-tui.keyconfig.filter <C-f>\n\
              uda.taskwarrior-tui.keyconfig.add <F2>\n";
  let kc = KeyConfig::new(data).unwrap();
  assert_eq!(kc.quit, KeyCode::Esc);
  assert_eq!(kc.filter, KeyCode::Ctrl('f'));
  assert_eq!(kc.add, KeyCode::F(2));
  // Unset keys keep defaults
  assert_eq!(kc.down, KeyCode::Char('j'));
  assert_eq!(kc.refresh, KeyCode::Char('r'));
}

#[test]
fn test_keyconfig_new_defaults_unchanged() {
  let data = "";
  let kc = KeyConfig::new(data).unwrap();
  assert_eq!(kc.quit, KeyCode::Char('q'));
  assert_eq!(kc.help, KeyCode::Char('?'));
  assert_eq!(kc.filter, KeyCode::Char('/'));
  assert_eq!(kc.down, KeyCode::Char('j'));
  assert_eq!(kc.up, KeyCode::Char('k'));
  assert_eq!(kc.scroll_down, KeyCode::Ctrl('e'));
  assert_eq!(kc.scroll_up, KeyCode::Ctrl('y'));
  assert_eq!(kc.jump, KeyCode::Char(':'));
  assert_eq!(kc.reset_filter, KeyCode::Ctrl('r'));
}

#[test]
fn test_keyconfig_mixed_single_and_angle() {
  let data = "uda.taskwarrior-tui.keyconfig.quit Q\n\
              uda.taskwarrior-tui.keyconfig.add <C-a>\n";
  let kc = KeyConfig::new(data).unwrap();
  assert_eq!(kc.quit, KeyCode::Char('Q'));
  assert_eq!(kc.add, KeyCode::Ctrl('a'));
}

#[test]
fn test_keyconfig_scroll_down_configurable() {
  let data = "uda.taskwarrior-tui.keyconfig.scroll-down <C-d>\n";
  let kc = KeyConfig::new(data).unwrap();
  assert_eq!(kc.scroll_down, KeyCode::Ctrl('d'));
}

#[test]
fn test_keyconfig_scroll_up_configurable() {
  let data = "uda.taskwarrior-tui.keyconfig.scroll-up <C-u>\n";
  let kc = KeyConfig::new(data).unwrap();
  assert_eq!(kc.scroll_up, KeyCode::Ctrl('u'));
}

#[test]
fn test_keyconfig_jump_configurable() {
  let data = "uda.taskwarrior-tui.keyconfig.jump <C-j>\n";
  let kc = KeyConfig::new(data).unwrap();
  assert_eq!(kc.jump, KeyCode::Ctrl('j'));
}

#[test]
fn test_keyconfig_reset_filter_configurable() {
  let data = "uda.taskwarrior-tui.keyconfig.reset-filter <C-x>\n";
  let kc = KeyConfig::new(data).unwrap();
  assert_eq!(kc.reset_filter, KeyCode::Ctrl('x'));
}

#[test]
fn test_check_defaults_no_duplicates() {
  let kc = KeyConfig::new("").unwrap();
  assert!(kc.check().is_ok());
}

#[test]
fn test_check_detects_priority_shortcut_conflict() {
  // priority_h defaults to 'H', shortcut0 defaults to '0'
  // Setting priority-h to '0' should conflict with shortcut0
  let data = "uda.taskwarrior-tui.keyconfig.priority-h 0\n";
  let result = KeyConfig::new(data);
  assert!(result.is_err());
  let msg = result.unwrap_err().to_string();
  assert!(msg.contains("priority-h"), "Error should mention priority-h: {}", msg);
  assert!(msg.contains("shortcut0"), "Error should mention shortcut0: {}", msg);
}

#[test]
fn test_check_detects_nonadjacent_duplicates() {
  // Set shortcut9 (normally '9') to 'q' which conflicts with quit (normally 'q')
  // These are far apart in the check() vector, testing non-adjacent detection
  let data = "uda.taskwarrior-tui.keyconfig.shortcut9 q\n";
  let result = KeyConfig::new(data);
  assert!(result.is_err());
  let msg = result.unwrap_err().to_string();
  assert!(msg.contains("quit"), "Error should mention quit: {}", msg);
  assert!(msg.contains("shortcut9"), "Error should mention shortcut9: {}", msg);
}

// ── <Nop> support tests ──────────────────────────────────────────────

#[test]
fn test_parse_nop_angle_bracket() {
  assert_eq!(parse_key_value("<Nop>"), Some(KeyCode::Nop));
}

#[test]
fn test_parse_nop_case_insensitive() {
  assert_eq!(parse_key_value("<nop>"), Some(KeyCode::Nop));
  assert_eq!(parse_key_value("<NOP>"), Some(KeyCode::Nop));
  assert_eq!(parse_key_value("<NoP>"), Some(KeyCode::Nop));
}

#[test]
fn test_nop_config_parsing() {
  let data = "uda.taskwarrior-tui.keyconfig.shell <Nop>\n";
  let kc = KeyConfig::new(data).unwrap();
  assert_eq!(kc.shell, KeyCode::Nop);
}

#[test]
fn test_nop_multiple_no_duplicate_conflict() {
  // Setting multiple bindings to <Nop> should not trigger duplicate detection
  let data = "\
    uda.taskwarrior-tui.keyconfig.shell <Nop>\n\
    uda.taskwarrior-tui.keyconfig.log <Nop>\n\
    uda.taskwarrior-tui.keyconfig.annotate <Nop>\n";
  let kc = KeyConfig::new(data).unwrap();
  assert_eq!(kc.shell, KeyCode::Nop);
  assert_eq!(kc.log, KeyCode::Nop);
  assert_eq!(kc.annotate, KeyCode::Nop);
  assert!(kc.check().is_ok());
}

#[test]
fn test_nop_does_not_match_real_input() {
  // Nop should not equal any key that can come from actual keyboard input
  assert_ne!(KeyCode::Nop, KeyCode::Null);
  assert_ne!(KeyCode::Nop, KeyCode::Char(' '));
  assert_ne!(KeyCode::Nop, KeyCode::Esc);
  assert_ne!(KeyCode::Nop, KeyCode::Tab);
}
