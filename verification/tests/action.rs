use taskwarrior_tui::action::{Action, ActionError, TaskCommand};

#[test]
fn plain_action_names() {
  assert_eq!(Action::from_name("Tick"), Ok(Action::Tick));
  assert_eq!(Action::from_name("MoveDown"), Ok(Action::MoveDown));
  assert_eq!(Action::from_name("ShowTaskReport"), Ok(Action::ShowTaskReport));
}

#[test]
fn actions_with_arguments() {
  assert_eq!(Action::from_name("Error(boom)"), Ok(Action::Error("boom".to_string())));
  assert_eq!(Action::from_name("Resize(80, 24)"), Ok(Action::Resize(80, 24)));
  assert_eq!(Action::from_name("ExecuteShortcut(3)"), Ok(Action::ExecuteShortcut(3)));
  assert_eq!(Action::from_name("ExecuteTask(Annotate)"), Ok(Action::ExecuteTask(TaskCommand::Annotate)));
}

#[test]
fn action_errors() {
  assert_eq!(Action::from_name("Resize(80)"), Err(ActionError::InvalidResize("Resize(80)".to_string())));
  assert_eq!(Action::from_name("Resize(x, 24)"), Err(ActionError::InvalidNumber("x".to_string())));
  assert_eq!(Action::from_name("Resize(80, 70000)"), Err(ActionError::InvalidNumber("70000".to_string())));
  assert_eq!(Action::from_name("ExecuteShortcut(-1)"), Err(ActionError::InvalidNumber("-1".to_string())));
  assert_eq!(Action::from_name("ExecuteTask(Fly)"), Err(ActionError::UnknownTask("ExecuteTask(Fly)".to_string())));
  assert_eq!(Action::from_name("Jump"), Err(ActionError::UnknownAction("Jump".to_string())));
  assert_eq!(ActionError::UnknownAction("Jump".to_string()).to_string(), "Unknown Action variant: Jump");
}
