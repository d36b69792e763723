use taskwarrior_tui::context::Context;
use taskwarrior_tui::pane::context::{ContextDetails, ContextsState};

fn names(rows: &[ContextDetails]) -> Vec<&str> {
  rows.iter().map(|r| r.name.as_str()).collect()
}

#[test]
fn parse_taskwarrior_3_output_keeps_first_context() {
  let data = [
    "",
    "\x1b[4mName   \x1b[0m \x1b[4mType \x1b[0m \x1b[4mDefinition   \x1b[0m \x1b[4mActive\x1b[0m",
    "agent  read  project:agent no",
    "       write project:agent no",
    "comms  read  +comms        yes",
    "       write +comms        no",
    "",
    "Use 'task context none' to unset the current context.",
  ]
  .join("\n");
  let rows = ContextsState::parse(&data);
  assert_eq!(names(&rows), ["agent", "comms"]);
  assert_eq!(rows[0].definition, "project:agent");
  assert_eq!(rows[1].active, "yes");
}

#[test]
fn parse_taskwarrior_2_output_skips_separator() {
  let data = [
    "",
    "Name   Type  Definition    Active",
    "-----  ----- ------------- ------",
    "agent  read  project:agent no",
    "       write project:agent no",
  ]
  .join("\n");
  let rows = ContextsState::parse(&data);
  assert_eq!(names(&rows), ["agent"]);
}

#[test]
fn parse_joins_continuation_lines_into_definition() {
  let data = [
    "Name  Type Definition      Active",
    "work  read project:work or no",
    "           +urgent",
  ]
  .join("\n");
  let rows = ContextsState::parse(&data);
  assert_eq!(names(&rows), ["work"]);
  assert_eq!(rows[0].definition, "project:work or +urgent");
  assert_eq!(rows[0].type_, "read");
  assert_eq!(rows[0].active, "no");
}

#[test]
fn update_data_adds_none_row_active_when_no_other_is() {
  let mut s = ContextsState::new();
  s.update_data("Name Type Definition Active\nagent read project:agent no\n");
  assert_eq!(names(&s.rows), ["none", "agent"]);
  assert_eq!(s.rows[0].active, "yes");
  assert_eq!(s.rows[0].type_, "read");
  s.update_data("Name Type Definition Active\nagent read project:agent yes\n");
  assert_eq!(s.rows[0].active, "no");
  assert_eq!(s.len(), 2);
}

#[test]
fn filtered_indices_keeps_read_rows_matching_search() {
  let mut s = ContextsState::new();
  s.rows = vec![
    ContextDetails::new("none".into(), "".into(), "yes".into(), "read".into()),
    ContextDetails::new("Work".into(), "project:work".into(), "no".into(), "read".into()),
    ContextDetails::new("home".into(), "project:home".into(), "no".into(), "write".into()),
  ];
  assert_eq!(s.filtered_indices(), vec![0, 1]);
  s.search = "WORK".to_string();
  assert_eq!(s.filtered_indices(), vec![1]);
  s.search = "home".to_string();
  assert_eq!(s.filtered_indices(), Vec::<usize>::new());
}

#[test]
fn contexts_simplified_view_orders_cells() {
  let mut s = ContextsState::new();
  s.rows = vec![ContextDetails::new("a".into(), "def".into(), "no".into(), "read".into())];
  let (rows, headers) = s.simplified_view();
  assert_eq!(rows, vec![vec!["a".to_string(), "read".to_string(), "def".to_string(), "no".to_string()]]);
  assert_eq!(headers, vec!["Name", "Remaining", "Avg age", "Complete"]);
}

#[test]
fn context_new_keeps_fields() {
  let c = Context::new("a".into(), "b".into(), "c".into());
  assert_eq!((c.name.as_str(), c.description.as_str(), c.active.as_str()), ("a", "b", "c"));
}
