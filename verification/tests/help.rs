use taskwarrior_tui::event::KeyCode;
use taskwarrior_tui::help::{keycode_for, keycode_to_string, render_help, Help, HELP_TEMPLATE};
use taskwarrior_tui::keyconfig::{parse_angle_bracket, parse_key_value, KeyConfig};

#[test]
fn test_keycode_to_string_nop() {
  assert_eq!(keycode_to_string(KeyCode::Nop), "<Nop>");
}

#[test]
fn test_render_help_shows_nop_binding() {
  let mut kc = KeyConfig::default();
  kc.shell = KeyCode::Nop;
  let text = render_help(&kc, HELP_TEMPLATE);
  assert!(text.contains("<Nop>"), "Help text should show <Nop> for disabled binding");
}

#[test]
fn keycode_to_string_names_keys() {
  assert_eq!(keycode_to_string(KeyCode::Char('a')), "a");
  assert_eq!(keycode_to_string(KeyCode::Ctrl('e')), "<C-e>");
  assert_eq!(keycode_to_string(KeyCode::F(5)), "<F5>");
}

#[test]
fn keycode_for_reads_the_binding() {
  let kc = KeyConfig::default();
  assert_eq!(keycode_for("quit", &kc), kc.quit);
  assert_eq!(keycode_for("help", &kc), kc.help);
}

#[test]
fn render_help_substitutes_placeholders() {
  let kc = KeyConfig::default();
  let text = render_help(&kc, "{{quit}} quit");
  assert!(text.contains("quit"));
  assert!(!text.contains("{{"));
}

#[test]
fn help_new_starts_at_top() {
  let kc = KeyConfig::default();
  let h = Help::new(&kc);
  assert_eq!(h.scroll, 0);
  assert!(!h.text.is_empty());
}

#[test]
fn render_help_copies_an_unclosed_token_once() {
  let kc = KeyConfig::default();
  assert_eq!(render_help(&kc, "ab {{quit"), "ab {{quit");
  assert_eq!(render_help(&kc, "{{quit}} x {{help"), format!("{} x {{{{help", keycode_to_string(KeyCode::Char('q'))));
}

#[test]
fn shown_keys_read_back() {
  let keys = vec![
    KeyCode::Char('q'),
    KeyCode::Char('<'),
    KeyCode::Char(' '),
    KeyCode::Char('\n'),
    KeyCode::Ctrl('e'),
    KeyCode::Alt('-'),
    KeyCode::Esc,
    KeyCode::Tab,
    KeyCode::BackTab,
    KeyCode::Backspace,
    KeyCode::Delete,
    KeyCode::Insert,
    KeyCode::PageUp,
    KeyCode::PageDown,
    KeyCode::F(1),
    KeyCode::F(12),
    KeyCode::CtrlBackspace,
    KeyCode::AltDelete,
    KeyCode::Null,
    KeyCode::Nop,
  ];
  for k in keys {
    assert_eq!(parse_key_value(&keycode_to_string(k)), Some(k));
  }
}

#[test]
fn key_names_ignore_case() {
  assert_eq!(parse_key_value("<ESC>"), Some(KeyCode::Esc));
  assert_eq!(parse_key_value("<esc>"), parse_key_value("<EsC>"));
  assert_eq!(parse_key_value("<PageDown>"), parse_key_value("<pagedown>"));
  assert_eq!(parse_angle_bracket("C-A"), Some(KeyCode::Ctrl('a')));
  assert_eq!(parse_angle_bracket("A-x"), Some(KeyCode::Alt('x')));
  assert_eq!(parse_angle_bracket("M-x"), parse_angle_bracket("A-x"));
  assert_eq!(parse_angle_bracket("m-BS"), Some(KeyCode::AltBackspace));
}
