use taskwarrior_tui::event::KeyCode;
use taskwarrior_tui::keyconfig::KeyConfig;
use taskwarrior_tui::report_keys::{report_key_command, ReportKey};

#[test]
fn report_keys_follow_the_key_configuration() {
  let kc = KeyConfig::default();
  assert_eq!(report_key_command(&kc, KeyCode::Char('q')), ReportKey::Quit);
  assert_eq!(report_key_command(&kc, KeyCode::Ctrl('c')), ReportKey::Quit);
  assert_eq!(report_key_command(&kc, KeyCode::Char('j')), ReportKey::Down);
  assert_eq!(report_key_command(&kc, KeyCode::Down), ReportKey::Down);
  assert_eq!(report_key_command(&kc, KeyCode::Char('d')), ReportKey::Done);
  assert_eq!(report_key_command(&kc, KeyCode::Char('a')), ReportKey::Add);
  assert_eq!(report_key_command(&kc, KeyCode::Char('/')), ReportKey::Filter);
  assert_eq!(report_key_command(&kc, KeyCode::F(12)), ReportKey::Nothing);
  let mut custom = kc;
  custom.done = KeyCode::Char('D');
  assert_eq!(report_key_command(&custom, KeyCode::Char('D')), ReportKey::Done);
  assert_eq!(report_key_command(&custom, KeyCode::Char('d')), ReportKey::Nothing);
}
