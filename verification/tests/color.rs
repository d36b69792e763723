use taskwarrior_tui::color::{get_color, get_tcolor, Color, Style, TColor, TColorConfig, BOLD, ITALIC};

#[test]
fn test_colors() {
  let data = "color.due.today              red on white\ncolor.active                 black on white\n";
  let tc = TColorConfig::from_show(data);
  println!("{:?}", tc.due_today);
}

#[test]
fn get_color_reads_indexed_cube_and_names() {
  assert_eq!(get_color("color3"), Color::Indexed(3));
  assert_eq!(get_color("color12"), Color::Indexed(1));
  assert_eq!(get_color("rgb123"), Color::Indexed(16 + 36 + 12 + 3));
  assert_eq!(get_color("white"), Color::White);
  assert_eq!(get_color("black"), Color::Black);
  assert_eq!(get_color("red"), Color::Indexed(15));
}

#[test]
fn get_tcolor_reads_foreground_and_background() {
  assert_eq!(get_tcolor("color1 on color2"), TColor { fg: Color::Indexed(1), bg: Color::Indexed(2) });
  assert_eq!(get_tcolor("on rgb001"), TColor { fg: Color::Indexed(0), bg: Color::Indexed(17) });
  assert_eq!(get_tcolor("white"), TColor { fg: Color::White, bg: Color::Indexed(15) });
}

#[test]
fn from_show_uses_last_setting_and_defaults() {
  let data = "color.due             color1\ncolor.due             color2 on color3\ncolor.due.today   white\n";
  let tc = TColorConfig::from_show(data);
  assert_eq!(tc.due, TColor { fg: Color::Indexed(2), bg: Color::Indexed(3) });
  assert_eq!(tc.due_today, TColor { fg: Color::White, bg: Color::Indexed(15) });
  assert_eq!(tc.overdue, TColor::default());
  assert!(tc.enabled);
}

#[test]
fn from_show_ignores_attributes_it_does_not_look_up() {
  let data = "color.active color4\ncolor.tag color4\ncolor.history.add color4\n";
  let tc = TColorConfig::from_show(data);
  assert_eq!(tc.active, TColor::default());
  assert_eq!(tc.tag, TColor::default());
  assert_eq!(tc.history_add, TColor::default());
}

#[test]
fn style_patch_lays_one_style_over_another() {
  let a = Style { fg: Some(Color::Red), bg: None, add_modifier: BOLD, sub_modifier: 0 };
  let b = Style { fg: None, bg: Some(Color::Blue), add_modifier: ITALIC, sub_modifier: BOLD };
  let p = a.patch(b);
  assert_eq!(p, Style { fg: Some(Color::Red), bg: Some(Color::Blue), add_modifier: ITALIC, sub_modifier: BOLD });
  let q = b.patch(a);
  assert_eq!(q, Style { fg: Some(Color::Red), bg: Some(Color::Blue), add_modifier: BOLD | ITALIC, sub_modifier: 0 });
  assert_eq!(Style::new().patch(a), a);
}

#[test]
fn style_patch_is_associative_and_plain_is_neutral() {
  let a = Style { fg: Some(Color::Red), bg: None, add_modifier: BOLD, sub_modifier: ITALIC };
  let b = Style { fg: None, bg: Some(Color::Blue), add_modifier: ITALIC, sub_modifier: BOLD };
  let c = Style { fg: Some(Color::Green), bg: None, add_modifier: 8, sub_modifier: 4 };
  assert_eq!(a.patch(b).patch(c), a.patch(b.patch(c)));
  assert_eq!(a.patch(Style::new()), a);
  assert_eq!(Style::new().patch(c), c);
}
