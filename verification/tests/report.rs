use taskwarrior_tui::pane::report::{ReportDetails, ReportsState};

#[test]
fn update_data_lists_reports_with_columns_sorted() {
  let data = [
    "report.next.columns          id,description",
    "report.next.description      Most urgent tasks",
    "report.all.description       All tasks",
    "report.all.columns           id,status",
    "report.all.description       Second description",
    "report.burndown.description  no columns here",
    "report.list.columns          id",
    "report.list.description",
    "color.due                    red",
  ]
  .join("\n");
  let mut s = ReportsState::new();
  s.update_data("next", &data);
  let names: Vec<&str> = s.rows.iter().map(|r| r.name.as_str()).collect();
  assert_eq!(names, ["all", "list", "next"]);
  assert_eq!(s.rows[0].description, "All tasks");
  assert_eq!(s.rows[1].description, "");
  assert_eq!(s.rows[2].description, "Most urgent tasks");
  assert_eq!(s.rows[2].active, "yes");
  assert_eq!(s.rows[0].active, "no");
  assert_eq!(s.len(), 3);
  assert!(!s.is_empty());
}

#[test]
fn reports_filtered_indices_search_name_and_description() {
  let mut s = ReportsState::new();
  assert!(s.is_empty());
  s.rows = vec![
    ReportDetails::new("next".into(), "Most urgent".into(), "yes".into()),
    ReportDetails::new("all".into(), "Every task".into(), "no".into()),
  ];
  assert_eq!(s.filtered_indices(), vec![0, 1]);
  s.search = "URGENT".into();
  assert_eq!(s.filtered_indices(), vec![0]);
  s.search = "all".into();
  assert_eq!(s.filtered_indices(), vec![1]);
}
