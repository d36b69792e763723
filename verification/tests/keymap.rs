use taskwarrior_tui::action::Action;
use taskwarrior_tui::keyevent::{KeyCode, KeyEvent, KeyModifiers};
use taskwarrior_tui::keymap::KeyMap;

fn key(c: char, control: bool, alt: bool) -> KeyEvent {
  KeyEvent::new(KeyCode::Char(c), KeyModifiers { shift: false, control, alt })
}

#[test]
fn test_no_conflict() {
  let keymap = KeyMap(vec![(vec![key('a', false, false)], Action::Quit), (vec![key('b', false, false)], Action::Quit)]);

  assert!(keymap.validate().is_ok());
}

#[test]
fn test_conflict_prefix() {
  let keymap = KeyMap(vec![
    (vec![key('a', false, false)], Action::Quit),
    (vec![key('a', false, false), key('b', false, false)], Action::Quit),
  ]);

  assert!(keymap.validate().is_err());
}

#[test]
fn test_no_conflict_different_modifiers() {
  let keymap = KeyMap(vec![(vec![key('a', true, false)], Action::Quit), (vec![key('a', false, true)], Action::Quit)]);

  assert!(keymap.validate().is_ok());
}

#[test]
fn test_no_conflict_multiple_keys() {
  let keymap = KeyMap(vec![
    (vec![key('a', false, false), key('b', false, false)], Action::Quit),
    (vec![key('b', false, false), key('a', false, false)], Action::Quit),
  ]);

  assert!(keymap.validate().is_ok());
}

#[test]
fn test_conflict_three_keys() {
  let keymap = KeyMap(vec![
    (vec![key('a', false, false), key('b', false, false), key('c', false, false)], Action::Quit),
    (vec![key('a', false, false), key('b', false, false)], Action::Quit),
  ]);

  assert!(keymap.validate().is_err());
}

#[test]
fn conflict_message_names_both_sequences() {
  let keymap = KeyMap(vec![
    (vec![key('a', false, false), key('b', false, false)], Action::Quit),
    (vec![key('a', false, false)], Action::Help),
  ]);
  assert_eq!(keymap.validate().unwrap_err(), "Conflict detected: Sequence <a> is a prefix of sequence <a><b>");
}

#[test]
fn entries_bind_key_sequences() {
  let km = KeyMap::from_entries(&vec![
    ("<ctrl-a>".to_string(), Action::Quit),
    ("<b><c>".to_string(), Action::Help),
    ("<Ctrl-A>".to_string(), Action::Quit),
  ])
  .unwrap();
  assert_eq!(km.0.len(), 2);
  assert_eq!(km.0[0].0, vec![key('a', true, false)]);
  assert_eq!(km.0[1].0, vec![key('b', false, false), key('c', false, false)]);
  assert_eq!(km.0[1].1, Action::Help);
}

#[test]
fn entries_with_two_actions_for_one_sequence_are_refused() {
  let r = KeyMap::from_entries(&vec![("<x>".to_string(), Action::Quit), ("x".to_string(), Action::Help)]);
  assert_eq!(r.err().unwrap(), "Found a `x` bound to two different actions");
  let r = KeyMap::from_entries(&vec![("<nope>".to_string(), Action::Quit)]);
  assert_eq!(r.err().unwrap(), "Unable to parse nope");
}

#[test]
fn keymap_gives_the_bound_action() {
  let keymap = KeyMap(vec![
    (vec![key('g', false, false), key('g', false, false)], Action::MoveTop),
    (vec![key('j', false, false)], Action::MoveDown),
    (vec![key('j', true, false)], Action::MoveUp),
  ]);
  assert!(matches!(keymap.get(&vec![key('j', false, false)]), Some(Action::MoveDown)));
  assert!(matches!(keymap.get(&vec![key('j', true, false)]), Some(Action::MoveUp)));
  assert!(matches!(keymap.get(&vec![key('g', false, false), key('g', false, false)]), Some(Action::MoveTop)));
  assert!(keymap.get(&vec![key('g', false, false)]).is_none());
  assert!(keymap.get(&vec![]).is_none());
}

#[test]
fn keymap_conflicts_are_proper_prefixes() {
  let a = key('a', false, false);
  let b = key('b', false, false);
  let c = key('c', false, false);
  assert!(KeyMap(vec![(vec![a], Action::Quit), (vec![a], Action::Help)]).validate().is_ok());
  assert!(KeyMap(vec![(vec![a, b], Action::Quit), (vec![b, a], Action::Quit)]).validate().is_ok());
  assert!(KeyMap(vec![(vec![a, b, c], Action::Quit), (vec![a, b], Action::Quit)]).validate().is_err());
}

#[test]
fn insert_replaces_a_binding_and_returns_the_old_one() {
  let a = key('a', false, false);
  let b = key('b', false, false);
  let mut keymap = KeyMap(vec![]);
  assert!(keymap.insert(vec![a], Action::Quit).is_none());
  assert!(keymap.insert(vec![a, b], Action::Help).is_none());
  assert!(matches!(keymap.insert(vec![a], Action::Refresh), Some(Action::Quit)));
  assert_eq!(keymap.0.len(), 2);
  assert!(matches!(keymap.get(&vec![a]), Some(Action::Refresh)));
  assert!(matches!(keymap.get(&vec![a, b]), Some(Action::Help)));
  assert!(keymap.validate().is_err());
}
