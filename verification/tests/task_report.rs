use taskwarrior_tui::task::{TaskDate, TaskRecord, TaskStatus, UdaValue};
use taskwarrior_tui::task_report::{get_string_attribute, report_settings_are_ok, settings_are_ok, vague_format_date_time, TaskReportTable};

fn date(seconds: i64) -> TaskDate {
  TaskDate { seconds, local_date: "2024-01-02".to_string() }
}

fn task(id: u64, uuid: u128) -> TaskRecord {
  TaskRecord {
    id: Some(id),
    uuid,
    description: "Write the report".to_string(),
    status: TaskStatus::Pending,
    entry: date(0),
    due: None,
    until: None,
    start: None,
    end: None,
    wait: None,
    scheduled: None,
    project: Some("work".to_string()),
    priority: None,
    tags: Some(vec!["home".to_string(), "PENDING".to_string()]),
    depends: None,
    recur: None,
    parent: None,
    mask: None,
    annotations: Some(2),
    urgency: None,
    udas: vec![("estimate".to_string(), UdaValue::U64(3))],
  }
}

#[test]
fn vague_formats() {
  assert_eq!(vague_format_date_time(0, 59, false), "59s");
  assert_eq!(vague_format_date_time(0, 125, true), "2min5s");
  assert_eq!(vague_format_date_time(125, 0, false), "-2min");
  assert_eq!(vague_format_date_time(0, 3 * 86400 + 7200, true), "3d2h");
  assert_eq!(vague_format_date_time(0, 20 * 86400, false), "2w");
  assert_eq!(vague_format_date_time(0, 100 * 86400, true), "3mo1w");
  assert_eq!(vague_format_date_time(0, 400 * 86400, true), "1y1mo");
}

#[test]
fn string_attributes() {
  let mut t = task(7, 1);
  let mut dep = task(9, 2);
  dep.id = Some(9);
  t.depends = Some(vec![2, 3]);
  let tasks = vec![t.clone(), dep];
  let vt: Vec<String> = vec!["PENDING".to_string()];
  let now = 1000;
  let s = |a: &str| get_string_attribute(a, &tasks[0], &tasks, &vt, 100, false, now);
  assert_eq!(s("id"), "7");
  assert_eq!(s("status"), "Pending");
  assert_eq!(s("status.short"), "P");
  assert_eq!(s("project"), "work");
  assert_eq!(s("priority"), "");
  assert_eq!(s("depends"), "9");
  assert_eq!(s("depends.count"), "2");
  assert_eq!(s("tags"), "home");
  assert_eq!(s("tags.count"), "1");
  assert_eq!(s("description.count"), "Write the report [2]");
  assert_eq!(s("entry.age"), "16min");
  assert_eq!(s("entry"), "2024-01-02");
  assert_eq!(s("urgency"), "0.00");
  assert_eq!(s("estimate"), "3");
  assert_eq!(s("nothing"), "");
  assert_eq!(get_string_attribute("description.truncated", &tasks[0], &tasks, &vt, 5, false, now), "Write\u{2026}");
  assert_eq!(get_string_attribute("description.truncated_count", &tasks[0], &tasks, &vt, 8, false, now), "Write\u{2026}[2]");
}

#[test]
fn table_headers_and_simplify() {
  let data = "report.next.columns id,description,project\nreport.other.columns x\n";
  let mut t = TaskReportTable::new(data, "", "next");
  assert_eq!(t.columns, vec!["id", "description", "project"]);
  assert_eq!(t.labels, vec!["ID", "Description", "Project"]);
  assert_eq!(t.description_width, 100);
  let labelled = TaskReportTable::new(data, "report.next.labels ID,Desc,Proj\n", "next");
  assert_eq!(labelled.labels, vec!["ID", "Desc", "Proj"]);
  let mut a = task(1, 1);
  a.project = None;
  let tasks = vec![a];
  t.generate_table(&tasks, 0);
  assert_eq!(t.tasks, vec![vec!["1".to_string(), "Write the report".to_string(), "".to_string()]]);
  let (rows, headers) = t.simplify_table();
  assert_eq!(rows, vec![vec!["1".to_string(), "Write the report".to_string()]]);
  assert_eq!(headers, vec!["ID", "Description"]);
  assert_eq!(t.get_string_attribute("until", &tasks[0], &tasks, 0), "");
}

#[test]
fn report_settings_check() {
  assert!(report_settings_are_ok("report.next.columns id,description", "report.next.labels ID,Description", "next"));
  assert!(!report_settings_are_ok("report.next.columns", "report.next.labels ID", "next"));
  assert!(!report_settings_are_ok("report.next.columns id", "report.next.labels", "next"));
  assert!(settings_are_ok("other line", "report.next.columns"));
}
