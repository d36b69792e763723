use taskwarrior_tui::table::{ListState, TableMode, TaskwarriorTuiTableState};

#[test]
fn table_state_marks_and_modes() {
  let mut t = TaskwarriorTuiTableState::new();
  assert_eq!(t.mode(), TableMode::SingleSelection);
  assert_eq!(t.current_selection(), None);
  t.select(Some(3));
  assert_eq!(t.current_selection(), Some(3));
  t.mark(Some(2));
  t.mark(Some(2));
  t.mark(None);
  t.mark(Some(5));
  assert_eq!(t.marked(), &vec![2, 5]);
  t.unmark(Some(2));
  assert_eq!(t.marked(), &vec![5]);
  t.multiple_selection();
  assert_eq!(t.mode(), TableMode::MultipleSelection);
  t.clear();
  assert!(t.marked().is_empty());
  t.single_selection();
  assert_eq!(t.mode(), TableMode::SingleSelection);
}

#[test]
fn list_state_select() {
  let mut l = ListState::new();
  assert_eq!(l.selected(), None);
  l.select(Some(2));
  assert_eq!(l.selected(), Some(2));
  l.select(None);
  assert_eq!(l.offset, 0);
}

#[test]
fn table_state_marks_stay_unique() {
  let mut t = TaskwarriorTuiTableState::new();
  assert!(t.is_wf());
  t.mark(Some(1));
  t.mark(Some(1));
  t.mark(Some(3));
  assert!(t.is_wf());
  assert_eq!(t.marked(), &vec![1, 3]);
}
