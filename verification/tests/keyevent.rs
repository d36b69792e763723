use taskwarrior_tui::keyevent::{
  key_event_to_string, parse_key_event, parse_key_sequence, KeyCode, KeyEvent, KeyModifiers,
};

fn mods(shift: bool, control: bool, alt: bool) -> KeyModifiers {
  KeyModifiers { shift, control, alt }
}

fn none() -> KeyModifiers {
  KeyModifiers::empty()
}

fn control() -> KeyModifiers {
  mods(false, true, false)
}

fn alt() -> KeyModifiers {
  mods(false, false, true)
}

fn shift() -> KeyModifiers {
  mods(true, false, false)
}

#[test]
fn test_single_key_sequence() {
  let result = parse_key_sequence("a");
  assert_eq!(result.unwrap(), vec![KeyEvent::new(KeyCode::Char('a'), none())]);

  let result = parse_key_sequence("<a><b>");
  assert_eq!(
    result.unwrap(),
    vec![KeyEvent::new(KeyCode::Char('a'), none()), KeyEvent::new(KeyCode::Char('b'), none())]
  );

  let result = parse_key_sequence("<Ctrl-a><Alt-b>");
  assert_eq!(
    result.unwrap(),
    vec![KeyEvent::new(KeyCode::Char('a'), control()), KeyEvent::new(KeyCode::Char('b'), alt())]
  );
  let result = parse_key_sequence("<Ctrl-a>");
  assert_eq!(result.unwrap(), vec![KeyEvent::new(KeyCode::Char('a'), control()),]);
  let result = parse_key_sequence("<Ctrl-Alt-a>");
  assert_eq!(result.unwrap(), vec![KeyEvent::new(KeyCode::Char('a'), mods(false, true, true)),]);
  assert!(parse_key_sequence("Ctrl-a>").is_err());
  assert!(parse_key_sequence("<Ctrl-a").is_err());
}

#[test]
fn test_simple_keys() {
  assert_eq!(parse_key_event("a").unwrap(), KeyEvent::new(KeyCode::Char('a'), none()));

  assert_eq!(parse_key_event("enter").unwrap(), KeyEvent::new(KeyCode::Enter, none()));

  assert_eq!(parse_key_event("esc").unwrap(), KeyEvent::new(KeyCode::Esc, none()));
}

#[test]
fn test_with_modifiers() {
  assert_eq!(parse_key_event("ctrl-a").unwrap(), KeyEvent::new(KeyCode::Char('a'), control()));

  assert_eq!(parse_key_event("alt-enter").unwrap(), KeyEvent::new(KeyCode::Enter, alt()));

  assert_eq!(parse_key_event("shift-esc").unwrap(), KeyEvent::new(KeyCode::Esc, shift()));
}

#[test]
fn test_multiple_modifiers() {
  assert_eq!(parse_key_event("ctrl-alt-a").unwrap(), KeyEvent::new(KeyCode::Char('a'), mods(false, true, true)));

  assert_eq!(parse_key_event("ctrl-shift-enter").unwrap(), KeyEvent::new(KeyCode::Enter, mods(true, true, false)));
}

#[test]
fn test_invalid_keys() {
  assert!(parse_key_event("invalid-key").is_err());
  assert!(parse_key_event("ctrl-invalid-key").is_err());
}

#[test]
fn test_case_insensitivity() {
  assert_eq!(parse_key_event("CTRL-a").unwrap(), KeyEvent::new(KeyCode::Char('a'), control()));

  assert_eq!(parse_key_event("AlT-eNtEr").unwrap(), KeyEvent::new(KeyCode::Enter, alt()));
}

#[test]
fn key_event_text_names_modifiers_in_order() {
  let e = KeyEvent::new(KeyCode::Char('a'), mods(true, true, true));
  assert_eq!(key_event_to_string(e), "<ctrl-alt-shift-a>");
  assert_eq!(key_event_to_string(KeyEvent::new(KeyCode::Char(' '), none())), "<space>");
  assert_eq!(key_event_to_string(KeyEvent::new(KeyCode::F(11), alt())), "<alt-f11>");
}

#[test]
fn written_keys_read_back() {
  for e in [
    KeyEvent::new(KeyCode::Char('x'), control()),
    KeyEvent::new(KeyCode::F(12), none()),
    KeyEvent::new(KeyCode::BackTab, shift()),
    KeyEvent::new(KeyCode::PageDown, mods(false, true, true)),
    KeyEvent::new(KeyCode::Char(' '), none()),
  ] {
    assert_eq!(parse_key_sequence(&key_event_to_string(e)).unwrap(), vec![e]);
  }
}

#[test]
fn shift_makes_letters_upper_case_and_backtab_adds_shift() {
  assert_eq!(parse_key_event("shift-a").unwrap(), KeyEvent::new(KeyCode::Char('A'), shift()));
  assert_eq!(parse_key_event("backtab").unwrap(), KeyEvent::new(KeyCode::BackTab, shift()));
  assert_eq!(parse_key_event("é").unwrap_err(), "Unable to parse é");
  assert_eq!(parse_key_sequence("<a>>").unwrap_err(), "Unable to parse `<a>>`");
}

#[test]
fn written_key_runs_read_back_in_order() {
  let events = vec![
    KeyEvent::new(KeyCode::Char('g'), none()),
    KeyEvent::new(KeyCode::F(5), control()),
    KeyEvent::new(KeyCode::PageDown, mods(false, true, true)),
    KeyEvent::new(KeyCode::Enter, shift()),
  ];
  let mut text = String::new();
  for e in events.iter() {
    text.push_str(&key_event_to_string(*e));
  }
  assert_eq!(text, "<g><ctrl-f5><ctrl-alt-pagedown><shift-enter>");
  assert_eq!(parse_key_sequence(&text).unwrap(), events);
}
