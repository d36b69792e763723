use taskwarrior_tui::app::Mode;
use taskwarrior_tui::event::KeyCode;
use taskwarrior_tui::keyconfig::KeyConfig;
use taskwarrior_tui::prompt::{command_label, initial_command, prompt_text};

fn ids(v: &[&str]) -> Vec<String> {
  v.iter().map(|s| s.to_string()).collect()
}

#[test]
fn labels_name_one_task_or_several() {
  assert_eq!(command_label(Mode::TaskModify, &ids(&["3"])).unwrap(), "Modify Task 3");
  assert_eq!(command_label(Mode::TaskModify, &ids(&["3", "7"])).unwrap(), "Modify Tasks 3,7");
  assert_eq!(command_label(Mode::TaskAnnotate, &ids(&["12"])).unwrap(), "Annotate Task 12");
  assert_eq!(command_label(Mode::TaskDonePrompt, &ids(&["1", "2", "4"])).unwrap(), "Done Tasks 1,2,4?");
  assert_eq!(command_label(Mode::TaskDeletePrompt, &ids(&["0"])).unwrap(), "Delete Task 0?");
}

#[test]
fn labels_of_the_other_modes() {
  let none = ids(&[]);
  assert_eq!(command_label(Mode::TaskReport, &none).unwrap(), "Filter Tasks");
  assert_eq!(command_label(Mode::TaskFilter, &none).unwrap(), "Filter Tasks");
  assert_eq!(command_label(Mode::TaskHelpPopup, &none).unwrap(), "Filter Tasks");
  assert_eq!(command_label(Mode::TaskContextMenu, &none).unwrap(), "Filter Tasks");
  assert_eq!(command_label(Mode::TaskJump, &none).unwrap(), "Jump to Task");
  assert_eq!(command_label(Mode::TaskLog, &none).unwrap(), "Log Task");
  assert_eq!(command_label(Mode::TaskSubprocess, &none).unwrap(), "Shell Command");
  assert_eq!(command_label(Mode::TaskAdd, &none).unwrap(), "Add Task");
  assert_eq!(command_label(Mode::TaskError, &none).unwrap(), "Error");
  assert_eq!(command_label(Mode::TaskUndoPrompt, &none).unwrap(), "Run `task undo`?");
  assert_eq!(command_label(Mode::Calendar, &none), None);
  assert_eq!(command_label(Mode::Projects, &none), None);
}

#[test]
fn prompts_name_the_confirming_and_quitting_keys() {
  let mut kc = KeyConfig::default();
  assert_eq!(prompt_text(Mode::TaskDonePrompt, &kc).unwrap(), "Press <d> to confirm or <q> to abort.");
  assert_eq!(prompt_text(Mode::TaskDeletePrompt, &kc).unwrap(), "Press <x> to confirm or <q> to abort.");
  assert_eq!(prompt_text(Mode::TaskUndoPrompt, &kc).unwrap(), "Press <u> to confirm or <q> to abort.");
  kc.done = KeyCode::F(2);
  kc.quit = KeyCode::Esc;
  assert_eq!(prompt_text(Mode::TaskDonePrompt, &kc).unwrap(), "Press <Enter> to confirm or <Esc> to abort.");
  assert_eq!(prompt_text(Mode::TaskReport, &kc), None);
}

#[test]
fn empty_prompts_start_with_double_quotes_when_asked() {
  assert_eq!(initial_command(Mode::TaskAdd, true, false, false, ""), "\"\"");
  assert_eq!(initial_command(Mode::TaskAdd, false, true, true, ""), "");
  assert_eq!(initial_command(Mode::TaskAnnotate, false, true, false, ""), "\"\"");
  assert_eq!(initial_command(Mode::TaskLog, false, false, true, ""), "\"\"");
  assert_eq!(initial_command(Mode::TaskLog, true, true, true, "x"), "x");
  assert_eq!(initial_command(Mode::TaskModify, true, true, true, ""), "");
}
