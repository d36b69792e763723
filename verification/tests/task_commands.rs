use taskwarrior_tui::task_commands::{
  annotate_args, bulk_verb_args, export_args, modify_args, quick_tag_arg, shortcut_args, shortcut_line, single_uuid,
  start_stop_verb, subprocess_args, task_added_id, task_undone_uuid, verb_args, version_supported, virtual_tags_from_info,
};

const U: u128 = 0x936da01f9abd4d9d80c702af85c822a8;
const T: &str = "936da01f-9abd-4d9d-80c7-02af85c822a8";

fn bulk(verb: &str, rest: &[&str]) -> Vec<String> {
  let mut v: Vec<String> = ["rc.bulk=0", "rc.confirmation=off", "rc.dependency.confirmation=off", "rc.recurrence.confirmation=off", T, verb]
    .iter()
    .map(|s| s.to_string())
    .collect();
  v.extend(rest.iter().map(|s| s.to_string()));
  v
}

#[test]
fn modify_and_annotate_name_the_tasks() {
  assert_eq!(modify_args(&vec![U], "+work due:tomorrow").unwrap(), bulk("modify", &["+work", "due:tomorrow"]));
  assert_eq!(annotate_args(&vec![U], "'called them'").unwrap(), bulk("annotate", &["called them"]));
  assert_eq!(modify_args(&vec![U], "'unbalanced").unwrap_err(), "Cannot shlex split `'unbalanced`");
  assert_eq!(bulk_verb_args(&vec![U], "done"), bulk("done", &[]));
}

#[test]
fn add_and_log_split_the_line() {
  assert_eq!(verb_args("add", "buy \"milk and eggs\"").unwrap(), vec!["add", "buy", "milk and eggs"]);
  assert!(verb_args("log", "\"oops").is_none());
}

#[test]
fn shell_commands() {
  assert_eq!(subprocess_args("").unwrap_err(), "Shell command empty: ");
  assert_eq!(subprocess_args("ls -l").unwrap(), vec!["ls", "-l"]);
  assert_eq!(subprocess_args("'x").unwrap_err(), "Cannot run subprocess. Unable to shlex split `'x`");
  let shortcuts = vec![String::new(), "sync".to_string()];
  assert_eq!(shortcut_line(&shortcuts, 0, &vec![U]).unwrap_err(), "Trying to run empty shortcut.");
  assert_eq!(shortcut_line(&shortcuts, 1, &vec![U, U]).unwrap(), format!("sync {} {}", T, T));
  assert_eq!(shortcut_line(&shortcuts, 1, &vec![]).unwrap(), "sync ");
  assert_eq!(shortcut_args("~/bin/x.sh a").unwrap(), vec!["~/bin/x.sh", "a"]);
  assert!(shortcut_args("  ").is_none());
}

#[test]
fn tags_and_verbs() {
  assert_eq!(quick_tag_arg(&vec!["next".to_string()], "next"), "-next");
  assert_eq!(quick_tag_arg(&vec!["work".to_string()], "next"), "+next");
  assert_eq!(start_stop_verb("PENDING ACTIVE"), "stop");
  assert_eq!(start_stop_verb("PENDING"), "start");
  assert_eq!(single_uuid(&vec![U]), Some(U));
  assert_eq!(single_uuid(&vec![U, 1]), None);
}

#[test]
fn command_output_is_read_back() {
  assert_eq!(task_added_id(true, "Created task 12.\n"), Some(12));
  assert_eq!(task_added_id(false, "Created task 12.\n"), None);
  assert_eq!(task_added_id(true, "Created task 12."), None);
  assert_eq!(task_undone_uuid(&format!("Task {} 'x' reverted.", T)), Some(U));
  assert_eq!(task_undone_uuid("nothing"), None);
}

#[test]
fn export_arguments() {
  let base = ["rc.json.array=on", "rc.confirmation=off", "rc.json.depends.array=on", "rc.color=off", "rc._forcecolor=off"];
  let mut want: Vec<String> = base.iter().map(|s| s.to_string()).collect();
  want.push("rc.report.next.filter=status:pending".to_string());
  want.push("project:home".to_string());
  want.push("export".to_string());
  want.push("next".to_string());
  assert_eq!(export_args("next", " status:pending ", "project:home", true), want);
  let mut old: Vec<String> = base.iter().map(|s| s.to_string()).collect();
  old.push("rc.report.next.filter=".to_string());
  old.push("'\\(project:home\\)'".to_string());
  old.push("export".to_string());
  assert_eq!(export_args("next", "", "project:home", false), old);
}

#[test]
fn virtual_tags_read_from_task_info() {
  let u: u128 = 0x0123456789abcdef0123456789abcdef;
  let out = "Name          Value\nID            1\nVirtual tags  PENDING READY UNBLOCKED\nUrgency       0";
  assert_eq!(virtual_tags_from_info(u, out), Ok("  PENDING READY UNBLOCKED".to_string()));
  assert_eq!(virtual_tags_from_info(u, "Virtual PENDING"), Ok(" PENDING".to_string()));
  assert_eq!(
    virtual_tags_from_info(u, "ID 1\nUrgency 0"),
    Err("Cannot find any tags for `task 01234567-89ab-cdef-0123-456789abcdef`. Check documentation for more information".to_string())
  );
}

#[test]
fn taskwarrior_version_check() {
  assert_eq!(version_supported("2.6.2\n"), Ok(true));
  assert_eq!(version_supported("2.6.0"), Ok(true));
  assert_eq!(version_supported("3.1.0"), Ok(true));
  assert_eq!(version_supported("2.5.3"), Ok(false));
  assert_eq!(version_supported(""), Err("Unable to get version string".to_string()));
}
