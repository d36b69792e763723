use taskwarrior_tui::column_menu::ColumnMenu;

fn menu_with(columns: &[&str]) -> ColumnMenu {
  let mut m = ColumnMenu::new();
  let cols: Vec<String> = columns.iter().map(|s| s.to_string()).collect();
  let labels = cols.clone();
  m.sync("next", &cols, &labels);
  m
}

#[test]
fn toggle_hides_and_restores() {
  let mut m = menu_with(&["id", "urgency", "description"]);
  m.selection = 1;
  m.toggle_current("next");
  assert!(m.hidden_for("next").contains("urgency"));
  m.toggle_current("next");
  assert!(m.hidden_for("next").is_empty());
}

#[test]
fn hidden_state_is_per_report() {
  let mut m = menu_with(&["id", "urgency"]);
  m.selection = 1;
  m.toggle_current("next");
  assert!(m.hidden_for("list").is_empty());
}

#[test]
fn reset_shows_all() {
  let mut m = menu_with(&["id", "urgency"]);
  m.toggle_current("next");
  m.reset("next");
  assert!(m.hidden_for("next").is_empty());
  assert!(m.items.iter().all(|i| i.visible));
}

#[test]
fn selection_wraps() {
  let mut m = menu_with(&["a", "b"]);
  m.previous();
  assert_eq!(m.selection, 1);
  m.next();
  assert_eq!(m.selection, 0);
}

#[test]
fn sync_uses_labels_and_falls_back_to_column_names() {
  let mut m = ColumnMenu::new();
  let cols: Vec<String> = vec!["id".to_string(), "due".to_string()];
  let labels: Vec<String> = vec!["ID".to_string()];
  m.sync("next", &cols, &labels);
  assert_eq!(m.items.len(), 2);
  assert_eq!(m.items[0].label, "ID");
  assert_eq!(m.items[1].label, "due");
  assert!(m.items.iter().all(|i| i.visible));
}

#[test]
fn toggle_reports_change_and_sync_keeps_hidden_columns() {
  let mut m = menu_with(&["id", "urgency"]);
  assert!(m.toggle_current("next").is_some());
  assert!(m.hidden_for("next").contains("id"));
  let cols: Vec<String> = vec!["id".to_string(), "urgency".to_string()];
  m.sync("next", &cols, &cols);
  assert!(!m.items[0].visible);
  assert!(m.items[1].visible);
}

#[test]
fn toggle_on_empty_menu_changes_nothing() {
  let mut m = ColumnMenu::new();
  assert!(m.toggle_current("next").is_none());
  assert!(m.hidden_for("next").is_empty());
  m.next();
  m.previous();
  assert_eq!(m.selection, 0);
}

#[test]
fn sync_clamps_selection() {
  let mut m = menu_with(&["a", "b", "c"]);
  m.selection = 2;
  let cols: Vec<String> = vec!["a".to_string()];
  m.sync("next", &cols, &cols);
  assert_eq!(m.selection, 0);
}

#[test]
fn saved_text_loads_back() {
  let mut m = menu_with(&["id", "urgency", "due"]);
  m.selection = 2;
  m.toggle_current("next");
  m.selection = 0;
  m.toggle_current("next");
  let cols: Vec<String> = vec!["project".to_string()];
  m.sync("list", &cols, &cols);
  m.selection = 0;
  m.toggle_current("list");
  let text = m.saved_text();
  assert_eq!(text, "list\tproject\nnext\tdue,id\n");
  let back = ColumnMenu::from_saved(&text);
  assert!(back.hidden_for("next").contains("id"));
  assert!(back.hidden_for("next").contains("due"));
  assert!(!back.hidden_for("next").contains("urgency"));
  assert!(back.hidden_for("list").contains("project"));
}

#[test]
fn saved_text_of_nothing_hidden_is_a_line_feed() {
  let m = ColumnMenu::new();
  assert_eq!(m.saved_text(), "\n");
  assert!(ColumnMenu::from_saved("\n").hidden_for("next").is_empty());
}

#[test]
fn from_saved_skips_lines_without_columns_and_keeps_last() {
  let m = ColumnMenu::from_saved("a\t\nb\tx,,y\nc\nb\tz\nd\t,\n");
  assert!(m.hidden_for("a").is_empty());
  assert!(m.hidden_for("b").contains("z"));
  assert!(!m.hidden_for("b").contains("x"));
  assert!(m.hidden_for("c").is_empty());
  assert!(m.hidden_for("d").is_empty());
}

#[test]
fn toggling_gives_the_text_to_store() {
  let mut m = menu_with(&["id", "urgency", "description"]);
  m.selection = 1;
  assert_eq!(m.toggle_current("next"), Some("next\turgency\n".to_string()));
  assert_eq!(m.toggle_current("next"), Some("\n".to_string()));
  m.selection = 7;
  assert_eq!(m.toggle_current("next"), None);
  m.selection = 0;
  m.toggle_current("next");
  assert_eq!(m.reset("next"), "\n");
}
