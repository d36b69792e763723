use taskwarrior_tui::task::{
  get_date_state, scan_dependencies, update_tags, Clock, DateState, TaskDate, TaskRecord, TaskStatus, TaskwarriorTuiTask,
};

fn date(seconds: i64) -> TaskDate {
  TaskDate { seconds, local_date: String::new() }
}

fn task(id: u64, uuid: u128, status: TaskStatus) -> TaskRecord {
  TaskRecord {
    id: Some(id),
    uuid,
    description: format!("task {}", id),
    status,
    entry: date(0),
    due: None,
    until: None,
    start: None,
    end: None,
    wait: None,
    scheduled: None,
    project: None,
    priority: None,
    tags: None,
    depends: None,
    recur: None,
    parent: None,
    mask: None,
    annotations: None,
    urgency: None,
    udas: vec![],
  }
}

fn tags(t: &TaskRecord) -> Vec<String> {
  t.tags.clone().unwrap_or_default()
}

#[test]
fn add_and_remove_tags() {
  let mut t = task(1, 1, TaskStatus::Pending);
  t.add_tag("a".to_string());
  t.add_tag("b".to_string());
  t.add_tag("a".to_string());
  assert_eq!(tags(&t), vec!["a", "b", "a"]);
  t.remove_tag("a");
  assert_eq!(tags(&t), vec!["b", "a"]);
  t.remove_tag("zzz");
  assert_eq!(tags(&t), vec!["b", "a"]);
  let mut u = task(2, 2, TaskStatus::Pending);
  u.remove_tag("a");
  assert_eq!(u.tags, None);
}

#[test]
fn dependency_scan_marks_blocked_and_blocking() {
  let mut a = task(1, 10, TaskStatus::Pending);
  a.depends = Some(vec![20, 99]);
  let b = task(2, 20, TaskStatus::Pending);
  let mut c = task(3, 30, TaskStatus::Pending);
  c.depends = Some(vec![40]);
  let d = task(4, 40, TaskStatus::Completed);
  let lists = scan_dependencies(&vec![a, b, c, d]);
  assert_eq!(lists[0], Some(vec!["BLOCKED".to_string()]));
  assert_eq!(lists[1], Some(vec!["BLOCKING".to_string(), "UNBLOCKED".to_string()]));
  assert_eq!(lists[2], Some(vec!["UNBLOCKED".to_string()]));
  assert_eq!(lists[3], Some(vec!["UNBLOCKED".to_string()]));
}

#[test]
fn update_tags_adds_virtual_tags() {
  let day = 86400;
  let now = 100 * day + 12 * 3600;
  let clock = Clock { now, now_nanos: 0, offset: 0 };
  let mut t = task(1, 1, TaskStatus::Pending);
  t.tags = Some(vec!["home".to_string()]);
  t.project = Some("p".to_string());
  t.due = Some(date(now + 3600));
  let mut o = task(2, 2, TaskStatus::Pending);
  o.due = Some(date(now - 3600));
  let vt: Vec<String> = vec!["UNBLOCKED".to_string(), "PENDING".to_string()];
  let mut tasks = vec![t, o];
  update_tags(&mut tasks, &vt, &clock);
  let t0 = tags(&tasks[0]);
  assert_eq!(&t0[..4], &["home", "UNBLOCKED", "PENDING", "TAGGED"]);
  assert!(t0.contains(&"PROJECT".to_string()));
  assert!(t0.contains(&"DUE".to_string()));
  assert!(t0.contains(&"TODAY".to_string()));
  assert!(t0.contains(&"DUETODAY".to_string()));
  assert!(t0.contains(&"MONTH".to_string()));
  assert!(t0.contains(&"YEAR".to_string()));
  assert!(!t0.contains(&"OVERDUE".to_string()));
  let t1 = tags(&tasks[1]);
  assert!(!t1.contains(&"TAGGED".to_string()));
  assert!(t1.contains(&"OVERDUE".to_string()));
  assert_eq!(tasks[0].description, "task 1");
}

#[test]
fn date_state_relative_to_now() {
  let day = 86400;
  let now = 100 * day + 12 * 3600;
  let clock = Clock { now, now_nanos: 0, offset: 0 };
  assert_eq!(get_date_state(now - day, &clock), DateState::BeforeToday);
  assert_eq!(get_date_state(now - 60, &clock), DateState::EarlierToday);
  assert_eq!(get_date_state(now + 60, &clock), DateState::LaterToday);
  assert_eq!(get_date_state(now + 2 * day, &clock), DateState::AfterToday);
  assert_eq!(get_date_state(now + 30 * day, &clock), DateState::NotDue);
  let shifted = Clock { now, now_nanos: 0, offset: 13 * 3600 };
  assert_eq!(get_date_state(now + 12 * 3600, &shifted), DateState::LaterToday);
  assert_eq!(get_date_state(now + 24 * 3600, &shifted), DateState::AfterToday);
}

#[test]
fn update_tags_marks_waiting_on_open_tasks_only() {
  let clock = Clock { now: 1_000_000, now_nanos: 0, offset: 0 };
  // a waits on b (open) twice and on c (completed); d waits on a; e depends on itself
  let mut a = task(1, 10, TaskStatus::Pending);
  a.depends = Some(vec![20, 30, 20]);
  let b = task(2, 20, TaskStatus::Waiting);
  let c = task(3, 30, TaskStatus::Completed);
  let mut d = task(4, 40, TaskStatus::Deleted);
  d.depends = Some(vec![10]);
  let mut e = task(5, 50, TaskStatus::Pending);
  e.depends = Some(vec![50]);
  let mut tasks = vec![a, b, c, d, e];
  update_tags(&mut tasks, &vec![], &clock);
  let has = |i: usize, t: &str| tags(&tasks[i]).contains(&t.to_string());
  assert!(has(0, "BLOCKED") && !has(0, "UNBLOCKED") && !has(0, "BLOCKING") && has(0, "PENDING"));
  assert!(has(1, "BLOCKING") && has(1, "UNBLOCKED") && !has(1, "BLOCKED") && !has(1, "PENDING"));
  assert!(!has(2, "BLOCKING") && has(2, "UNBLOCKED") && !has(2, "BLOCKED"));
  assert!(has(3, "UNBLOCKED") && !has(3, "BLOCKED") && !has(3, "BLOCKING"));
  assert!(has(4, "BLOCKED") && has(4, "BLOCKING") && !has(4, "UNBLOCKED") && has(4, "PENDING"));
}
