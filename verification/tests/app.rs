use taskwarrior_tui::history::{HistoryContext, SearchDirection};
use taskwarrior_tui::app::{get_offset_hour_minute, Mode, TaskwarriorTui, TextInput};
use taskwarrior_tui::completion::CompletionList;
use taskwarrior_tui::color::Style;
use taskwarrior_tui::config::Config;
use taskwarrior_tui::pane::context::{ContextDetails, ContextsState};
use taskwarrior_tui::pane::project::{focus_on_next_project, focus_on_previous_project, update_task_filter_by_selection, ProjectsState};
use taskwarrior_tui::table::{TableMode, TaskwarriorTuiTableState};
use taskwarrior_tui::task::{TaskDate, TaskRecord, TaskStatus};
use taskwarrior_tui::task_report::TaskReportTable;

fn date(seconds: i64) -> TaskDate {
  TaskDate { seconds, local_date: String::new() }
}

fn task(id: u64, uuid: u128) -> TaskRecord {
  TaskRecord {
    id: Some(id),
    uuid,
    description: format!("task {}", id),
    status: TaskStatus::Pending,
    entry: date(0),
    due: None,
    until: None,
    start: None,
    end: None,
    wait: None,
    scheduled: None,
    project: None,
    priority: None,
    tags: None,
    depends: None,
    recur: None,
    parent: None,
    mask: None,
    annotations: None,
    urgency: None,
    udas: vec![],
  }
}

fn input(value: &str) -> TextInput {
  TextInput { value: value.to_string(), cursor: value.len() }
}

fn tui(tasks: Vec<TaskRecord>, looping: bool) -> TaskwarriorTui {
  let data = [
    "data.location /tmp/taskwarrior-tui-tests",
    "rule.precedence.color keyword.,tag.,project.",
    "uda.priority.values H,M,L",
    if looping { "uda.taskwarrior-tui.task-report.looping true" } else { "uda.taskwarrior-tui.task-report.looping false" },
  ]
  .join("\n");
  TaskwarriorTui {
    task_table_state: TaskwarriorTuiTableState::new(),
    command: input(""),
    filter: input(""),
    modify: input(""),
    tasks: tasks.clone(),
    all_tasks: tasks,
    marked: vec![],
    current_selection: 0,
    current_selection_uuid: None,
    current_selection_id: None,
    task_report_table: TaskReportTable {
      labels: vec![],
      columns: vec![],
      tasks: vec![],
      virtual_tags: vec!["PENDING".to_string()],
      description_width: 0,
    },
    mode: Mode::TaskReport,
    config: Config::new(&data, "next", 80).unwrap(),
    task_report_height: 2,
    completion_list: CompletionList::new(),
    contexts: ContextsState::new(),
    projects: ProjectsState::new(),
    filter_history: HistoryContext::new(),
    command_history: HistoryContext::new(),
    task_details: vec![],
    utc_offset: 0,
  }
}

fn five() -> Vec<TaskRecord> {
  (1..=5).map(|i| task(i, 100 + i as u128)).collect()
}

#[test]
fn cursor_moves_and_loops() {
  let mut app = tui(five(), true);
  app.task_report_previous();
  assert_eq!(app.current_selection, 4);
  app.task_report_next();
  assert_eq!(app.current_selection, 0);
  app.task_report_next_page();
  assert_eq!(app.current_selection, 2);
  app.task_report_bottom();
  app.task_report_next_page();
  assert_eq!(app.current_selection, 0);
  app.task_report_previous_page();
  assert_eq!(app.current_selection, 4);
  app.task_report_previous_page();
  assert_eq!(app.current_selection, 2);
  app.task_report_top();
  assert_eq!(app.current_selection, 0);
}

#[test]
fn cursor_stops_at_the_ends_without_looping() {
  let mut app = tui(five(), false);
  app.task_report_previous();
  assert_eq!(app.current_selection, 0);
  app.task_report_bottom();
  app.task_report_next();
  assert_eq!(app.current_selection, 4);
  app.current_selection = 9;
  app.current_selection_id = Some(3);
  app.cursor_fix();
  assert_eq!(app.current_selection, 4);
  assert_eq!(app.current_selection_id, None);
}

#[test]
fn cursor_keys_do_nothing_without_tasks() {
  let mut app = tui(vec![], true);
  app.current_selection_id = Some(1);
  app.task_report_next();
  app.task_report_bottom();
  assert_eq!(app.current_selection, 0);
  assert_eq!(app.current_selection_id, Some(1));
  assert!(app.task_current().is_none());
}

#[test]
fn selection_follows_the_remembered_task() {
  let mut app = tui(five(), true);
  app.current_selection_id = Some(4);
  app.selection_fix();
  assert_eq!(app.current_selection, 3);
  assert_eq!(app.current_selection_id, None);
  app.current_selection_uuid = Some(102);
  app.selection_fix();
  assert_eq!(app.current_selection, 1);
  assert_eq!(app.task_current().unwrap().uuid, 102);
}

#[test]
fn marks_toggle_and_follow_the_list() {
  let mut app = tui(five(), true);
  app.current_selection = 1;
  app.toggle_mark();
  app.current_selection = 3;
  app.toggle_mark();
  assert_eq!(app.marked, vec![102, 104]);
  app.toggle_mark();
  assert_eq!(app.marked, vec![102]);
  app.marked.push(999);
  app.task_table_state.multiple_selection();
  app.update_task_table_state();
  assert_eq!(app.marked, vec![102]);
  assert_eq!(app.task_table_state.mode(), TableMode::MultipleSelection);
  assert_eq!(app.selected_task_uuids(), vec![102]);
  app.toggle_mark_all();
  let mut m = app.marked.clone();
  m.sort();
  assert_eq!(m, vec![101, 103, 104, 105]);
  app.marked.clear();
  app.update_task_table_state();
  assert_eq!(app.task_table_state.mode(), TableMode::SingleSelection);
  app.current_selection = 2;
  assert_eq!(app.selected_task_uuids(), vec![103]);
}

#[test]
fn jump_goes_to_the_task_with_the_id() {
  let mut app = tui(five(), true);
  app.command = input("4");
  assert!(app.task_report_jump().is_ok());
  assert_eq!(app.current_selection, 3);
  app.command = input("42");
  assert_eq!(app.task_report_jump().unwrap_err(), "Cannot locate task id 42 in report");
  app.command = input("");
  assert_eq!(app.task_report_jump().unwrap_err(), "cannot parse integer from empty string");
  app.command = input("4x");
  assert_eq!(app.task_report_jump().unwrap_err(), "invalid digit found in string");
  app.command = input("99999999999999999999999");
  assert_eq!(app.task_report_jump().unwrap_err(), "number too large to fit in target type");
}

#[test]
fn contexts_cycle() {
  let mut app = tui(five(), true);
  app.contexts.rows = vec![
    ContextDetails::new("none".to_string(), String::new(), "yes".to_string(), String::new()),
    ContextDetails::new("work".to_string(), "+work".to_string(), "no".to_string(), String::new()),
  ];
  app.context_next();
  assert_eq!(app.contexts.table_state.current_selection(), Some(0));
  app.context_previous();
  assert_eq!(app.contexts.table_state.current_selection(), Some(1));
  app.context_next();
  assert_eq!(app.contexts.table_state.current_selection(), Some(0));
}

#[test]
fn escape_quotes_text() {
  assert_eq!(TaskwarriorTui::escape("say \"hi\""), "\"say \\\"hi\\\"\"");
  assert_eq!(TaskwarriorTui::escape(""), "\"\"");
}

#[test]
fn offsets_are_written_in_hours_and_minutes() {
  assert_eq!(get_offset_hour_minute(19800), ("+", 5, 30));
  assert_eq!(get_offset_hour_minute(-7200), ("-", 2, 0));
  assert_eq!(get_offset_hour_minute(3600), ("+", 0, 0));
}

#[test]
fn widths_fit_the_terminal() {
  let app = tui(vec![], true);
  let headers = vec!["ID".to_string(), "Description".to_string()];
  let rows = vec![vec!["12".to_string(), "a task".to_string()]];
  let w = app.calculate_widths(&rows, &headers, 20);
  assert_eq!(w, vec![4, 13]);
  let headers = vec!["ID".to_string(), "Project".to_string()];
  let rows = vec![vec!["1".to_string(), "home".to_string()]];
  assert_eq!(app.calculate_widths(&rows, &headers, 40), vec![4, 7]);
}

#[test]
fn completion_offers_attributes_tags_projects_and_dates() {
  let mut a = task(1, 1);
  a.tags = Some(vec!["work".to_string(), "PENDING".to_string()]);
  a.project = Some("big project".to_string());
  a.due = Some(date(86400));
  let mut b = task(2, 2);
  b.tags = Some(vec!["work".to_string()]);
  b.project = Some("home".to_string());
  let mut app = tui(vec![a, b], true);
  app.mode = Mode::TaskFilter;
  app.update_completion_list();
  let c = &app.completion_list.helper.candidates;
  let has = |k: &str, v: &str| c.iter().any(|(x, y)| x == k && y == v);
  assert!(has("attribute", "project:"));
  assert!(has("modifier", ".noword:"));
  assert!(has("priority", "M"));
  assert!(has("tag", "tag:work"));
  assert!(has("+", "+work"));
  assert!(!has("+", "+PENDING"));
  assert!(has("project", "\"big project\""));
  assert!(has("project", "home"));
  assert!(has("due", "'1970-01-02T00:00:00+00:00'"));
  assert!(has("status", "recurring"));
  assert_eq!(c.iter().filter(|(x, y)| x == "tag" && y == "tag:work").count(), 1);
  app.mode = Mode::TaskReport;
  app.update_completion_list();
  assert!(app.completion_list.helper.candidates.is_empty());
}

#[test]
fn completion_input_is_the_word_under_the_cursor() {
  let mut app = tui(five(), true);
  app.mode = Mode::TaskAdd;
  app.command = input("buy milk pro");
  app.update_input_for_completion();
  assert_eq!(app.completion_list.current, "pro");
}

#[test]
fn widths_that_cannot_shrink_are_refused() {
  let app = tui(vec![], true);
  let headers = vec!["ID".to_string(), "Project".to_string()];
  let rows: Vec<Vec<String>> = vec![];
  assert_eq!(app.try_calculate_widths(&rows, &headers, 40), Some(vec![4, 7]));
  assert_eq!(app.try_calculate_widths(&rows, &headers, 2), Some(vec![1, 1]));
}

#[test]
fn project_pattern_names_the_marked_projects() {
  assert_eq!(ProjectsState::pattern_by_marked(&vec![]), "");
  assert_eq!(ProjectsState::pattern_by_marked(&vec!["home".to_string()]), "'(project:home)'");
  assert_eq!(
    ProjectsState::pattern_by_marked(&vec!["home".to_string(), "(none)".to_string()]),
    "'(project:home or project: )'"
  );
}

#[test]
fn project_pane_cursor_marks_and_filter() {
  let mut app = tui(vec![], true);
  app.projects.list = vec!["home".to_string(), "work".to_string()];
  focus_on_previous_project(&mut app);
  assert_eq!(app.projects.current_selection, 0);
  focus_on_next_project(&mut app);
  assert_eq!(app.projects.current_selection, 1);
  focus_on_next_project(&mut app);
  assert_eq!(app.projects.current_selection, 1);
  app.filter = input("status:pending ");
  update_task_filter_by_selection(&mut app).unwrap();
  assert_eq!(app.filter.value, "status:pending '(project:work)'");
  assert_eq!(app.filter.cursor, app.filter.value.len());
  focus_on_previous_project(&mut app);
  update_task_filter_by_selection(&mut app).unwrap();
  assert_eq!(app.filter.value, "status:pending '(project:work or project:home)'");
  update_task_filter_by_selection(&mut app).unwrap();
  assert_eq!(app.filter.value, "status:pending '(project:work)'");
  app.projects.update_table_state();
  assert_eq!(app.projects.table_state.mode(), TableMode::MultipleSelection);
  assert_eq!(app.projects.table_state.marked(), &vec![1]);
  assert_eq!(app.filter_history.history_len(), 3);
  assert_eq!(
    app.filter_history.history_search("", SearchDirection::Reverse),
    Some("status:pending '(project:work or project:home)'".to_string())
  );
}

#[test]
fn project_summary_last_line() {
  let p = ProjectsState::new();
  assert!(p.last_line("  3 projects "));
  assert!(p.last_line("1 project"));
  assert!(!p.last_line("3 tasks"));
  assert!(!p.last_line("x3 projects"));
  assert!(!p.last_line("3 projects more"));
  assert_eq!(p.simplified_view().1, vec!["Name", "Remaining", "Avg age", "Complete"]);
}

fn styled_tui(rules: &str) -> TaskwarriorTui {
  let mut app = tui(vec![], true);
  let data = [
    "data.location /tmp/taskwarrior-tui-tests",
    rules,
    "uda.priority.values H,M,L",
    "color.tag.work red",
    "color.project.home blue",
    "color.active on green",
    "color.uda.priority.H yellow",
  ]
  .join("\n");
  app.config = Config::new(&data, "next", 80).unwrap();
  app
}

#[test]
fn style_for_task_first_rule_wins() {
  let app = styled_tui("rule.precedence.color tag.,project.");
  let mut t = task(1, 1);
  t.tags = Some(vec!["work".to_string()]);
  t.project = Some("home".to_string());
  let c = &app.config.color;
  let expected = Style::new().patch(c.get("color.project.home").unwrap()).patch(c.get("color.tag.work").unwrap());
  assert_eq!(app.style_for_task(&t), expected);
  assert_eq!(app.style_for_task(&t).fg, c.get("color.tag.work").unwrap().fg);
  let app = styled_tui("rule.precedence.color project.,tag.");
  assert_eq!(app.style_for_task(&t).fg, c.get("color.project.home").unwrap().fg);
}

#[test]
fn style_for_task_virtual_tags_and_priority() {
  let app = styled_tui("rule.precedence.color active,tag.,uda.");
  let mut t = task(1, 1);
  t.tags = Some(vec!["ACTIVE".to_string()]);
  t.priority = Some("H".to_string());
  let c = &app.config.color;
  let expected = Style::new().patch(c.get("color.uda.priority.H").unwrap()).patch(c.get("color.active").unwrap());
  assert_eq!(app.style_for_task(&t), expected);
  assert_eq!(app.style_for_task(&task(2, 2)), Style::new());
}

#[test]
fn style_for_project_uses_the_project_rule() {
  let app = styled_tui("rule.precedence.color tag.,project.");
  let c = &app.config.color;
  assert_eq!(app.style_for_project(&["home".to_string()]), Style::new().patch(c.get("color.project.home").unwrap()));
  assert_eq!(app.style_for_project(&["other".to_string()]), Style::new());
  let app = styled_tui("rule.precedence.color tag.");
  assert_eq!(app.style_for_project(&["home".to_string()]), Style::new());
}

#[test]
fn dates_with_styles_for_the_calendar() {
  let mut app = styled_tui("rule.precedence.color project.");
  let mut a = task(1, 1);
  a.due = Some(date(2 * 86400 + 3600));
  a.project = Some("home".to_string());
  let b = task(2, 2);
  let mut c = task(3, 3);
  c.due = Some(date(86400 - 60));
  app.tasks = vec![a, b, c];
  let home = Style::new().patch(app.config.color.get("color.project.home").unwrap());
  assert_eq!(app.get_dates_with_styles(0), vec![((1970, 1, 3), home), ((1970, 1, 1), Style::new())]);
  assert_eq!(app.get_dates_with_styles(120)[1], ((1970, 1, 2), Style::new()));
  assert_eq!(app.get_dates_with_styles(-7200)[0], ((1970, 1, 2), home));
}

#[test]
fn task_details_rows_around_the_cursor() {
  let mut app = tui(five(), true);
  app.config.uda_task_detail_prefetch = 1;
  app.current_selection = 2;
  assert_eq!(app.task_details_rows(), vec![1, 2, 3]);
  app.config.uda_task_detail_prefetch = 2;
  app.current_selection = 0;
  assert_eq!(app.task_details_rows(), vec![0, 1, 2]);
  app.current_selection = 4;
  assert_eq!(app.task_details_rows(), vec![2, 3, 4]);
  app.config.uda_task_detail_prefetch = 0;
  assert_eq!(app.task_details_rows(), vec![4]);
}

#[test]
fn task_details_update_prunes_and_asks_for_missing() {
  let mut app = tui(five(), true);
  app.config.uda_task_detail_prefetch = 1;
  app.current_selection = 2;
  app.store_task_details(102, "two".to_string());
  app.store_task_details(103, "three".to_string());
  app.store_task_details(999, "gone".to_string());
  let wanted = app.update_task_details();
  assert_eq!(wanted, vec![103, 104]);
  assert_eq!(app.task_details_of(999), None);
  assert_eq!(app.task_details_of(102), Some(&"two".to_string()));
  app.store_task_details(102, "again".to_string());
  assert_eq!(app.task_details_of(102), Some(&"again".to_string()));
  assert_eq!(app.task_details.len(), 2);
  let mut empty = tui(vec![], true);
  assert!(empty.update_task_details().is_empty());
}

#[test]
fn shown_task_ids_follow_the_selection_mode() {
  let mut a = task(4, 40);
  a.id = None;
  let mut app = tui(vec![task(7, 70), a, task(9, 90)], false);
  app.current_selection = 2;
  assert_eq!(app.shown_task_ids(), vec!["9".to_string()]);
  app.current_selection = 1;
  assert_eq!(app.shown_task_ids(), vec!["0".to_string()]);
  app.task_table_state.multiple_selection();
  app.marked = vec![90, 555, 70];
  assert_eq!(app.shown_task_ids(), vec!["9".to_string(), "7".to_string()]);
  let empty = tui(vec![], false);
  assert_eq!(empty.shown_task_ids(), vec!["0".to_string()]);
}
