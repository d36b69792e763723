use taskwarrior_tui::history::{HistoryContext, SearchDirection};

fn history(lines: &[&str]) -> HistoryContext {
  let mut h = HistoryContext::new();
  for l in lines {
    h.add(l);
  }
  h
}

#[test]
fn history_empty_gives_nothing() {
  let mut h = HistoryContext::new();
  assert_eq!(h.history_len(), 0);
  assert_eq!(h.history_index(), None);
  assert_eq!(h.history_search("", SearchDirection::Reverse), None);
  assert_eq!(h.history_search("a", SearchDirection::Forward), None);
  assert_eq!(h.history_index(), None);
}

#[test]
fn history_steps_back_and_forth_with_nothing_typed() {
  let mut h = history(&["a", "b", "c"]);
  assert_eq!(h.history_search("", SearchDirection::Forward), None);
  assert_eq!(h.history_search("", SearchDirection::Reverse), Some("c".to_string()));
  assert_eq!(h.history_index(), Some(2));
  assert_eq!(h.history_search("", SearchDirection::Reverse), Some("b".to_string()));
  assert_eq!(h.history_search("", SearchDirection::Reverse), Some("a".to_string()));
  assert_eq!(h.history_index(), Some(0));
  assert_eq!(h.history_search("", SearchDirection::Reverse), None);
  assert_eq!(h.history_index(), Some(0));
  assert_eq!(h.history_search("", SearchDirection::Forward), Some("b".to_string()));
  assert_eq!(h.history_search("", SearchDirection::Forward), Some("c".to_string()));
  assert_eq!(h.history_search("", SearchDirection::Forward), None);
  assert_eq!(h.history_index(), Some(2));
}

#[test]
fn history_finds_entries_by_prefix() {
  let mut h = history(&["task add x", "list", "task done"]);
  assert_eq!(h.history_search("task", SearchDirection::Reverse), Some("task done".to_string()));
  assert_eq!(h.history_index(), Some(2));
  assert_eq!(h.history_search("task", SearchDirection::Reverse), Some("task add x".to_string()));
  assert_eq!(h.history_index(), Some(0));
  assert_eq!(h.history_search("task", SearchDirection::Reverse), None);
  assert_eq!(h.history_search("task", SearchDirection::Forward), Some("task done".to_string()));
}

#[test]
fn history_no_match_leaves_the_search_at_the_newest_entry() {
  let mut h = history(&["one", "two"]);
  assert_eq!(h.history_search("zzz", SearchDirection::Reverse), None);
  assert_eq!(h.history_index(), Some(1));
}

#[test]
fn history_refuses_empty_and_repeated_lines() {
  let mut h = history(&["a", "a", "", "b", "a"]);
  assert_eq!(h.history_len(), 3);
  assert_eq!(h.history_search("", SearchDirection::Reverse), Some("a".to_string()));
  assert_eq!(h.history_search("", SearchDirection::Reverse), Some("b".to_string()));
  h.add("b");
  assert_eq!(h.history_len(), 4);
  assert_eq!(h.history_index(), None);
}

#[test]
fn history_refused_line_keeps_the_search() {
  let mut h = history(&["a", "b"]);
  h.history_search("", SearchDirection::Reverse);
  h.history_search("", SearchDirection::Reverse);
  assert_eq!(h.history_index(), Some(0));
  h.add("b");
  assert_eq!(h.history_index(), Some(0));
  h.reset();
  assert_eq!(h.history_index(), None);
}

#[test]
fn history_keeps_at_most_one_hundred_entries() {
  let mut h = HistoryContext::new();
  for i in 0..105 {
    h.add(&format!("line {}", i));
  }
  assert_eq!(h.history_len(), 100);
  let mut oldest = None;
  for _ in 0..100 {
    oldest = h.history_search("", SearchDirection::Reverse);
  }
  assert_eq!(oldest, Some("line 5".to_string()));
}

#[test]
fn history_taken_line_is_recalled_first() {
  let mut h = history(&["x", "y"]);
  h.add("z");
  assert_eq!(h.history_search("", SearchDirection::Reverse), Some("z".to_string()));
}
