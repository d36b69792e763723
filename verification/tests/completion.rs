use taskwarrior_tui::completion::{get_start_word_under_cursor, CompletionList};

#[test]
fn start_of_word_under_cursor() {
  assert_eq!(get_start_word_under_cursor("add project:wo", 14), 4);
  assert_eq!(get_start_word_under_cursor("(due:to", 7), 1);
  assert_eq!(get_start_word_under_cursor("word", 4), 0);
  assert_eq!(get_start_word_under_cursor("a é", 4), 2);
  assert_eq!(get_start_word_under_cursor("abc ", 4), 4);
}

#[test]
fn completion_list_filters_by_context_and_prefix() {
  let mut c = CompletionList::with_items(vec![
    ("project".to_string(), "work".to_string()),
    ("project".to_string(), "home".to_string()),
    ("project".to_string(), "work".to_string()),
    ("+".to_string(), "+urgent".to_string()),
  ]);
  assert_eq!(c.helper.candidates.len(), 3);
  c.input("project:wo".to_string(), "".to_string());
  assert_eq!(c.helper.context, "project");
  assert_eq!(c.current, "wo");
  assert_eq!(c.pos, 2);
  assert_eq!(c.len(), 1);
  let first = c.get(0).unwrap();
  assert_eq!(first.0, "work");
  assert_eq!(first.3, "wo");
  assert_eq!(first.4, "rk");
  c.input("x+ur".to_string(), "".to_string());
  assert_eq!(c.current, "+ur");
  assert_eq!(c.helper.context, "+");
  assert_eq!(c.len(), 1);
}

#[test]
fn completion_list_selection_wraps() {
  let mut c = CompletionList::with_items(vec![
    ("attribute".to_string(), "due".to_string()),
    ("attribute".to_string(), "description".to_string()),
  ]);
  c.input("d".to_string(), "".to_string());
  assert_eq!(c.len(), 2);
  c.next();
  assert_eq!(c.state.selected, Some(0));
  c.next();
  assert_eq!(c.state.selected, Some(1));
  c.next();
  assert_eq!(c.state.selected, Some(0));
  c.previous();
  assert_eq!(c.state.selected, Some(1));
  assert_eq!(c.selected().unwrap().1 .0, "description");
  c.unselect();
  assert_eq!(c.selected(), None);
  c.clear();
  assert!(c.is_empty());
}

#[test]
fn completion_skips_candidates_already_in_input() {
  let mut c = CompletionList::with_items(vec![("attribute".to_string(), "due".to_string())]);
  c.input("d".to_string(), "task due".to_string());
  assert!(c.is_empty());
  assert_eq!(c.max_width(), None);
  c.input("d".to_string(), "".to_string());
  assert_eq!(c.max_width(), Some(7));
}
