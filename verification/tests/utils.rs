use taskwarrior_tui::utils::{display_control_chars, display_width, try_display_width, Changeset};

#[test]
fn test_display_control_chars() {
  assert_eq!("hello^Jworld^M", display_control_chars("hello\nworld\r"));
  assert_eq!(14, display_width("hello\nworld\r"));
}

#[test]
fn control_chars_shown_with_caret() {
  assert_eq!(display_control_chars("a\tb"), "a^Ib");
  assert_eq!(display_control_chars("\u{7f}"), "^?");
  assert_eq!(display_control_chars("plain"), "plain");
}

#[test]
fn width_counts_wide_characters() {
  assert_eq!(display_width("日本"), 4);
  assert_eq!(try_display_width("abc"), Some(3));
}

#[test]
fn changeset_defaults() {
  let _c = Changeset::default();
}

#[test]
fn truncation_keeps_whole_clusters_that_fit() {
  assert_eq!(taskwarrior_tui::utils::truncate_to_width("hello world", 5), "hello");
  assert_eq!(taskwarrior_tui::utils::truncate_to_width("日本語", 3), "日");
  assert_eq!(taskwarrior_tui::utils::truncate_to_width("日本語", 1), "");
  assert_eq!(taskwarrior_tui::utils::truncate_to_width("short", 40), "short");
}

#[test]
fn truncation_of_a_ligature_does_not_panic() {
  // lam and alef join into one column, though each cluster is counted alone
  assert_eq!(taskwarrior_tui::utils::truncate_to_width("\u{644}\u{627}", 5), "\u{644}\u{627}");
  assert_eq!(taskwarrior_tui::utils::truncate_to_width("ab\u{644}\u{627}", 3), "ab\u{644}");
}
