use taskwarrior_tui::color::{Color, Style, BOLD, CROSSED_OUT, ITALIC, REVERSED, UNDERLINED};
use taskwarrior_tui::config::{config_is_readable, ColorTable, Config, TaskWarriorBool};

#[test]
fn test_config_collects_keyword_colors() {
  let data = [
    "data.location /tmp/taskwarrior-tui-tests",
    "rule.precedence.color keyword.,tag.,project.",
    "uda.priority.values H,M,L,",
    "report.next.filter status:pending",
    "color.keyword.fixme red on blue",
    "color.keyword.todo underline yellow",
    "color.active green",
  ]
  .join("\n");

  let config = Config::new(&data, "next", 80).unwrap();

  assert_eq!(config.color_keywords.len(), 2);
  assert!(config.color_keywords.contains(&("fixme".to_string(), Config::get_tcolor("red on blue"))));
  assert!(
    config
      .color_keywords
      .contains(&("todo".to_string(), Config::get_tcolor("underline yellow")))
  );
}

#[test]
fn test_config_collects_uda_colors_with_spaces_in_key() {
  let data = [
    "data.location /tmp/taskwarrior-tui-tests",
    "rule.precedence.color uda.,tag.,project.",
    "uda.priority.values H,M,L,",
    "report.next.filter status:pending",
    "color.uda.jirastatus.In Review  black on bright cyan",
    "color.uda.jirastatus.To Do  bright white",
  ]
  .join("\n");

  let config = Config::new(&data, "next", 80).unwrap();

  assert_eq!(
    config.color.get("color.uda.jirastatus.In Review"),
    Some(Config::get_tcolor("black on bright cyan"))
  );
  assert_eq!(config.color.get("color.uda.jirastatus.To Do"), Some(Config::get_tcolor("bright white")));
}

#[test]
fn test_named_colors_and_backgrounds() {
  // --- Basic named colors ---
  let c = Config::get_tcolor("red");
  assert_eq!(c.fg.unwrap(), Color::Indexed(1));
  assert!(c.bg.is_none());

  let c = Config::get_tcolor("blue");
  assert_eq!(c.fg.unwrap(), Color::Indexed(4));
  assert!(c.bg.is_none());

  let c = Config::get_tcolor("white");
  assert_eq!(c.fg.unwrap(), Color::Indexed(7));
  assert!(c.bg.is_none());

  let c = Config::get_tcolor("green");
  assert_eq!(c.fg.unwrap(), Color::Indexed(2));
  assert!(c.bg.is_none());

  let c = Config::get_tcolor("yellow");
  assert_eq!(c.fg.unwrap(), Color::Indexed(3));
  assert!(c.bg.is_none());

  let c = Config::get_tcolor("magenta");
  assert_eq!(c.fg.unwrap(), Color::Indexed(5));
  assert!(c.bg.is_none());

  let c = Config::get_tcolor("cyan");
  assert_eq!(c.fg.unwrap(), Color::Indexed(6));
  assert!(c.bg.is_none());

  let c = Config::get_tcolor("black");
  assert_eq!(c.fg.unwrap(), Color::Indexed(0));
  assert!(c.bg.is_none());

  // --- Foreground + background (named) ---
  let c = Config::get_tcolor("red on blue");
  assert_eq!(c.fg.unwrap(), Color::Indexed(1));
  assert_eq!(c.bg.unwrap(), Color::Indexed(4));

  let c = Config::get_tcolor("white on red");
  assert_eq!(c.fg.unwrap(), Color::Indexed(7));
  assert_eq!(c.bg.unwrap(), Color::Indexed(1));

  let c = Config::get_tcolor("white on green");
  assert_eq!(c.fg.unwrap(), Color::Indexed(7));
  assert_eq!(c.bg.unwrap(), Color::Indexed(2));

  let c = Config::get_tcolor("black on white");
  assert_eq!(c.fg.unwrap(), Color::Indexed(0));
  assert_eq!(c.bg.unwrap(), Color::Indexed(7));

  let c = Config::get_tcolor("black on red");
  assert_eq!(c.fg.unwrap(), Color::Indexed(0));
  assert_eq!(c.bg.unwrap(), Color::Indexed(1));

  let c = Config::get_tcolor("black on yellow");
  assert_eq!(c.fg.unwrap(), Color::Indexed(0));
  assert_eq!(c.bg.unwrap(), Color::Indexed(3));

  let c = Config::get_tcolor("black on green");
  assert_eq!(c.fg.unwrap(), Color::Indexed(0));
  assert_eq!(c.bg.unwrap(), Color::Indexed(2));

  let c = Config::get_tcolor("white on black");
  assert_eq!(c.fg.unwrap(), Color::Indexed(7));
  assert_eq!(c.bg.unwrap(), Color::Indexed(0));

  // --- Background-only ---
  let c = Config::get_tcolor("on green");
  assert!(c.fg.is_none());
  assert_eq!(c.bg.unwrap(), Color::Indexed(2));

  let c = Config::get_tcolor("on red");
  assert!(c.fg.is_none());
  assert_eq!(c.bg.unwrap(), Color::Indexed(1));

  let c = Config::get_tcolor("on yellow");
  assert!(c.fg.is_none());
  assert_eq!(c.bg.unwrap(), Color::Indexed(3));

  // --- bright backgrounds (high-intensity, indices 8-15) ---
  let c = Config::get_tcolor("black on bright green");
  assert_eq!(c.fg.unwrap(), Color::Indexed(0));
  assert_eq!(c.bg.unwrap(), Color::Indexed(10));

  let c = Config::get_tcolor("black on bright white");
  assert_eq!(c.fg.unwrap(), Color::Indexed(0));
  assert_eq!(c.bg.unwrap(), Color::Indexed(15));

  let c = Config::get_tcolor("black on bright yellow");
  assert_eq!(c.fg.unwrap(), Color::Indexed(0));
  assert_eq!(c.bg.unwrap(), Color::Indexed(11));

  let c = Config::get_tcolor("black on bright red");
  assert_eq!(c.fg.unwrap(), Color::Indexed(0));
  assert_eq!(c.bg.unwrap(), Color::Indexed(9));

  let c = Config::get_tcolor("white on bright black");
  assert_eq!(c.fg.unwrap(), Color::Indexed(7));
  assert_eq!(c.bg.unwrap(), Color::Indexed(8));
}

#[test]
fn test_modifiers() {
  // --- underline modifier ---
  let c = Config::get_tcolor("underline red");
  assert_eq!(c.fg.unwrap(), Color::Indexed(1));
  assert_eq!(c.add_modifier & UNDERLINED, UNDERLINED);

  let c = Config::get_tcolor("underline bold red on blue");
  assert_eq!(c.fg.unwrap(), Color::Indexed(1));
  assert_eq!(c.bg.unwrap(), Color::Indexed(4));
  assert_eq!(c.add_modifier & UNDERLINED, UNDERLINED);
  assert_eq!(c.add_modifier & BOLD, BOLD);

  // --- inverse modifier ---
  let c = Config::get_tcolor("inverse red");
  assert_eq!(c.fg.unwrap(), Color::Indexed(1));
  assert_eq!(c.add_modifier & REVERSED, REVERSED);

  // --- italic modifier ---
  let c = Config::get_tcolor("italic red");
  assert_eq!(c.fg.unwrap(), Color::Indexed(1));
  assert_eq!(c.add_modifier & ITALIC, ITALIC);

  let c = Config::get_tcolor("italic red on blue");
  assert_eq!(c.fg.unwrap(), Color::Indexed(1));
  assert_eq!(c.bg.unwrap(), Color::Indexed(4));
  assert_eq!(c.add_modifier & ITALIC, ITALIC);

  // --- strikethrough modifier ---
  let c = Config::get_tcolor("strikethrough red");
  assert_eq!(c.fg.unwrap(), Color::Indexed(1));
  assert_eq!(c.add_modifier & CROSSED_OUT, CROSSED_OUT);

  // --- combined modifiers ---
  let c = Config::get_tcolor("bold underline italic red on blue");
  assert_eq!(c.fg.unwrap(), Color::Indexed(1));
  assert_eq!(c.bg.unwrap(), Color::Indexed(4));
  assert_eq!(c.add_modifier & BOLD, BOLD);
  assert_eq!(c.add_modifier & UNDERLINED, UNDERLINED);
  assert_eq!(c.add_modifier & ITALIC, ITALIC);
}

#[test]
fn test_256_grayscale_rgb() {
  // --- 256-color indexed ---
  let c = Config::get_tcolor("color0");
  assert_eq!(c.fg.unwrap(), Color::Indexed(0));

  let c = Config::get_tcolor("color255");
  assert_eq!(c.fg.unwrap(), Color::Indexed(255));

  let c = Config::get_tcolor("color100");
  assert_eq!(c.fg.unwrap(), Color::Indexed(100));

  // colorN background (previously broken by wrapping_shl bug)
  let c = Config::get_tcolor("white on color196");
  assert_eq!(c.fg.unwrap(), Color::Indexed(7));
  assert_eq!(c.bg.unwrap(), Color::Indexed(196));

  // --- grayscale ramp (gray0-gray23 -> indexed 232-255) ---
  let c = Config::get_tcolor("gray0");
  assert_eq!(c.fg.unwrap(), Color::Indexed(232));

  let c = Config::get_tcolor("gray23");
  assert_eq!(c.fg.unwrap(), Color::Indexed(255));

  let c = Config::get_tcolor("gray5");
  assert_eq!(c.fg.unwrap(), Color::Indexed(237));

  // grey spelling variant
  let c = Config::get_tcolor("grey5");
  assert_eq!(c.fg.unwrap(), Color::Indexed(237));

  // gray background (previously broken by wrapping_shl bug)
  let c = Config::get_tcolor("white on gray5");
  assert_eq!(c.fg.unwrap(), Color::Indexed(7));
  assert_eq!(c.bg.unwrap(), Color::Indexed(237));

  let c = Config::get_tcolor("on gray23");
  assert!(c.fg.is_none());
  assert_eq!(c.bg.unwrap(), Color::Indexed(255));

  // --- RGB color cube (rgb000-rgb555 -> indexed 16-231) ---
  // rgb500 = 16 + 5*36 + 0*6 + 0 = 196
  let c = Config::get_tcolor("rgb500");
  assert_eq!(c.fg.unwrap(), Color::Indexed(196));

  // rgb050 = 16 + 0*36 + 5*6 + 0 = 46
  let c = Config::get_tcolor("rgb050");
  assert_eq!(c.fg.unwrap(), Color::Indexed(46));

  // rgb005 = 16 + 0 + 0 + 5 = 21
  let c = Config::get_tcolor("rgb005");
  assert_eq!(c.fg.unwrap(), Color::Indexed(21));

  // rgb550 = 16 + 5*36 + 5*6 + 0 = 226
  let c = Config::get_tcolor("rgb550");
  assert_eq!(c.fg.unwrap(), Color::Indexed(226));

  // rgb444 = 16 + 4*36 + 4*6 + 4 = 16 + 144 + 24 + 4 = 188
  let c = Config::get_tcolor("rgb444");
  assert_eq!(c.fg.unwrap(), Color::Indexed(188));

  // rgb background (previously broken by wrapping_shl bug)
  let c = Config::get_tcolor("white on rgb500");
  assert_eq!(c.fg.unwrap(), Color::Indexed(7));
  assert_eq!(c.bg.unwrap(), Color::Indexed(196));

  let c = Config::get_tcolor("on rgb444");
  assert!(c.fg.is_none());
  assert_eq!(c.bg.unwrap(), Color::Indexed(188));

  // --- TokyoNight Moon representative colors ---
  // color111 on color60
  let c = Config::get_tcolor("color111 on color60");
  assert_eq!(c.fg.unwrap(), Color::Indexed(111));
  assert_eq!(c.bg.unwrap(), Color::Indexed(60));

  // color203 (overdue/error red)
  let c = Config::get_tcolor("color203");
  assert_eq!(c.fg.unwrap(), Color::Indexed(203));
}

/// Regression test: "bold red" must produce Indexed(1) + BOLD, not Indexed(9).
#[test]
fn test_bold_not_bright_regression() {
  let c = Config::get_tcolor("bold red");
  assert_eq!(c.fg.unwrap(), Color::Indexed(1));
  assert!(c.bg.is_none());
  assert_eq!(c.add_modifier & BOLD, BOLD);

  let c = Config::get_tcolor("bold white");
  assert_eq!(c.fg.unwrap(), Color::Indexed(7));
  assert!(c.bg.is_none());
  assert_eq!(c.add_modifier & BOLD, BOLD);

  let c = Config::get_tcolor("bold yellow");
  assert_eq!(c.fg.unwrap(), Color::Indexed(3));
  assert!(c.bg.is_none());
  assert_eq!(c.add_modifier & BOLD, BOLD);

  let c = Config::get_tcolor("bold blue");
  assert_eq!(c.fg.unwrap(), Color::Indexed(4));
  assert!(c.bg.is_none());
  assert_eq!(c.add_modifier & BOLD, BOLD);

  let c = Config::get_tcolor("bold white on red");
  assert_eq!(c.fg.unwrap(), Color::Indexed(7));
  assert_eq!(c.bg.unwrap(), Color::Indexed(1));
  assert_eq!(c.add_modifier & BOLD, BOLD);

  let c = Config::get_tcolor("bold white on bright blue");
  assert_eq!(c.fg.unwrap(), Color::Indexed(7));
  assert_eq!(c.bg.unwrap(), Color::Indexed(12));
  assert_eq!(c.add_modifier & BOLD, BOLD);
}

/// Regression test: trailing modifiers must not
/// cause the foreground color to be silently dropped.
#[test]
fn test_trailing_modifier_regression() {
  // Single trailing modifier
  let c = Config::get_tcolor("color209 bold");
  assert_eq!(c.fg.unwrap(), Color::Indexed(209));
  assert_eq!(c.add_modifier & BOLD, BOLD);

  let c = Config::get_tcolor("color117 bold");
  assert_eq!(c.fg.unwrap(), Color::Indexed(117));
  assert_eq!(c.add_modifier & BOLD, BOLD);

  let c = Config::get_tcolor("color111 bold");
  assert_eq!(c.fg.unwrap(), Color::Indexed(111));
  assert_eq!(c.add_modifier & BOLD, BOLD);

  let c = Config::get_tcolor("color61 underline");
  assert_eq!(c.fg.unwrap(), Color::Indexed(61));
  assert_eq!(c.add_modifier & UNDERLINED, UNDERLINED);

  let c = Config::get_tcolor("color210 underline");
  assert_eq!(c.fg.unwrap(), Color::Indexed(210));
  assert_eq!(c.add_modifier & UNDERLINED, UNDERLINED);

  let c = Config::get_tcolor("red italic");
  assert_eq!(c.fg.unwrap(), Color::Indexed(1));
  assert_eq!(c.add_modifier & ITALIC, ITALIC);

  let c = Config::get_tcolor("blue inverse");
  assert_eq!(c.fg.unwrap(), Color::Indexed(4));
  assert_eq!(c.add_modifier & REVERSED, REVERSED);

  let c = Config::get_tcolor("green strikethrough");
  assert_eq!(c.fg.unwrap(), Color::Indexed(2));
  assert_eq!(c.add_modifier & CROSSED_OUT, CROSSED_OUT);

  // Two trailing modifiers
  let c = Config::get_tcolor("color150 bold underline");
  assert_eq!(c.fg.unwrap(), Color::Indexed(150));
  assert_eq!(c.add_modifier & BOLD, BOLD);
  assert_eq!(c.add_modifier & UNDERLINED, UNDERLINED);

  let c = Config::get_tcolor("color210 bold underline");
  assert_eq!(c.fg.unwrap(), Color::Indexed(210));
  assert_eq!(c.add_modifier & BOLD, BOLD);
  assert_eq!(c.add_modifier & UNDERLINED, UNDERLINED);

  // Trailing modifier with background
  let c = Config::get_tcolor("color150 bold on color236");
  assert_eq!(c.fg.unwrap(), Color::Indexed(150));
  assert_eq!(c.bg.unwrap(), Color::Indexed(236));
  assert_eq!(c.add_modifier & BOLD, BOLD);

  let c = Config::get_tcolor("color210 underline on color234");
  assert_eq!(c.fg.unwrap(), Color::Indexed(210));
  assert_eq!(c.bg.unwrap(), Color::Indexed(234));
  assert_eq!(c.add_modifier & UNDERLINED, UNDERLINED);

  // Mixed: leading + trailing modifiers
  let c = Config::get_tcolor("bold color150 underline");
  assert_eq!(c.fg.unwrap(), Color::Indexed(150));
  assert_eq!(c.add_modifier & BOLD, BOLD);
  assert_eq!(c.add_modifier & UNDERLINED, UNDERLINED);
}

#[test]
fn test_get_config_long_value() {
  let config = Config::get_config(
    "report.test.filter",
    "report.test.description test\nreport.test.filter filter and\n                   test\nreport.test.columns=id",
  );
  assert_eq!(config.unwrap(), "filter and test");
}

#[test]
fn test_get_config_long_value_followed_by_default_value() {
  let config = Config::get_config(
    "report.test.filter",
    "report.test.description test\nreport.test.filter filter and\n                   test\n  Default value test",
  );
  assert_eq!(config.unwrap(), "filter and test");
}

#[test]
fn test_get_config_last_long_value() {
  let config = Config::get_config(
    "report.test.filter",
    "report.test.description test\nreport.test.filter filter and\n                   test",
  );
  assert_eq!(config.unwrap(), "filter and test");
}

#[test]
fn test_get_uda_task_report_use_alternate_style_defaults_to_true() {
  assert!(Config::get_uda_task_report_use_alternate_style(""));
}

#[test]
fn test_get_uda_task_report_use_alternate_style_can_be_disabled() {
  let data = "uda.taskwarrior-tui.task-report.use-alternate-style false";
  assert!(!Config::get_uda_task_report_use_alternate_style(data));
}

#[test]
fn test_get_uda_report_menu_close_on_select_defaults_to_true() {
  assert!(Config::get_uda_report_menu_close_on_select(""));
}

#[test]
fn test_get_uda_report_menu_close_on_select_can_be_disabled() {
  let data = "uda.taskwarrior-tui.report-menu.close-on-select false";
  assert!(!Config::get_uda_report_menu_close_on_select(data));
}

#[test]
fn test_get_uda_context_menu_close_on_select_defaults_to_true() {
  assert!(Config::get_uda_context_menu_close_on_select(""));
}

#[test]
fn test_get_uda_context_menu_close_on_select_can_be_disabled() {
  let data = "uda.taskwarrior-tui.context-menu.close-on-select false";
  assert!(!Config::get_uda_context_menu_close_on_select(data));
}


fn sample_data() -> String {
  [
    "data.location /tmp/taskwarrior-tui-tests",
    "rule.precedence.color keyword.,tag.,project.",
    "uda.priority.values H,M,L,",
    "report.next.filter status:pending",
    "uda.taskwarrior-tui.shortcuts.1 ~/bin/sync",
    "uda.taskwarrior-tui.selection.indicator >",
    "uda.taskwarrior-tui.tick-rate 100",
    "uda.taskwarrior-tui.calendar.months-per-row nope",
    "weekstart monday",
    "color.active green",
    "color.active red",
  ]
  .join("\n")
}

#[test]
fn config_reads_the_settings_of_the_interface() {
  let config = Config::new(&sample_data(), "next", 200).unwrap();
  assert_eq!(config.data_location, "/tmp/taskwarrior-tui-tests");
  assert_eq!(config.rule_precedence_color, vec!["keyword.", "tag.", "project."]);
  assert_eq!(config.uda_priority_values, vec!["H", "M", "L", ""]);
  assert_eq!(config.filter, "status:pending ");
  assert_eq!(config.uda_tick_rate, 100);
  assert_eq!(config.uda_calendar_months_per_row, 4);
  assert_eq!(config.due, 7);
  assert_eq!(config.uda_background_process_period, 60);
  assert_eq!(config.uda_task_detail_prefetch, 10);
  assert!(config.weekstart);
  assert_eq!(config.uda_selection_indicator, "> ");
  assert_eq!(config.uda_mark_indicator, "\u{2714} ");
  assert_eq!(config.uda_unmark_indicator, "  ");
  assert_eq!(config.uda_scrollbar_indicator, "\u{2588}");
  assert_eq!(config.uda_scrollbar_area, "\u{2551}");
  assert_eq!(config.uda_quick_tag_name, "next");
  assert_eq!(config.uda_shortcuts.len(), 10);
  assert_eq!(config.uda_shortcuts[1], "~/bin/sync");
  assert_eq!(config.uda_shortcuts[0], "");
  assert!(!config.uda_tasklist_vertical);
  assert_eq!(config.uda_style_navbar.add_modifier, REVERSED);
  assert_eq!(config.uda_style_title.fg, Some(Color::LightCyan));
  assert_eq!(config.uda_style_report_completion_pane_highlight, config.uda_style_report_completion_pane);
  assert_eq!(config.color.get("color.active"), Some(Config::get_tcolor("red")));
  assert_eq!(config.color.len(), 1);
}

#[test]
fn config_tasklist_is_vertical_on_narrow_terminals() {
  let config = Config::new(&sample_data(), "next", 80).unwrap();
  assert!(config.uda_tasklist_vertical);
}

#[test]
fn filter_of_all_is_empty() {
  assert_eq!(Config::get_filter(&sample_data(), "all").unwrap(), "");
  assert_eq!(Config::get_filter(&sample_data(), "list").unwrap(), "");
  let data = "report.next.filter status:pending\nuda.taskwarrior-tui.task-report.next.filter +work";
  assert_eq!(Config::get_filter(data, "next").unwrap(), "+work");
}

#[test]
fn color_line_without_column_gap_splits_at_a_color() {
  let (name, style) = Config::parse_color_config("color.uda.status.In Review black on bright cyan").unwrap();
  assert_eq!(name, "color.uda.status.In Review");
  assert_eq!(style, Config::get_tcolor("black on bright cyan"));
  let (name, style) = Config::parse_color_config("color.uda.x.Done  bright white").unwrap();
  assert_eq!(name, "color.uda.x.Done");
  assert_eq!(style, Config::get_tcolor("bright white"));
  let (name, style) = Config::parse_color_config("color.nothing").unwrap();
  assert_eq!(name, "color.nothing");
  assert_eq!(style, Config::get_tcolor(""));
  assert!(Config::parse_color_config("due 7").is_none());
}

#[test]
fn unknown_colors_give_the_plain_style() {
  let c = Config::get_tcolor("purple");
  assert_eq!(c.fg, None);
  assert_eq!(c.bg, None);
  assert_eq!(c.add_modifier, 0);
  assert!(Config::parse_tcolor("purple on red").is_none());
  assert_eq!(Config::parse_tcolor("grey2").unwrap().fg, Some(Color::Indexed(234)));
}

#[test]
fn get_bool_reads_taskwarrior_words() {
  assert_eq!("yes".get_bool(), Some(true));
  assert_eq!("off".to_string().get_bool(), Some(false));
  assert_eq!("maybe".get_bool(), None);
}

#[test]
fn config_readability_check() {
  let base = "data.location /tmp/x\nrule.precedence.color tag.,project.\nuda.priority.values H,M,L";
  assert!(config_is_readable(base));
  assert!(!config_is_readable("rule.precedence.color tag.\nuda.priority.values H"));
  assert!(config_is_readable(&format!("{}\ncolor.due gray30", base)));
  let c = Config::new(&format!("{}\ncolor.due gray30\nuda.taskwarrior-tui.style.navbar on gray99", base), "next", 80).unwrap();
  assert_eq!(c.uda_style_navbar, Style::new());
}

#[test]
fn gray_levels_past_the_ramp_read_as_no_color() {
  assert_eq!(Config::parse_tcolor("gray23").unwrap().fg, Some(Color::Indexed(255)));
  assert_eq!(Config::parse_tcolor("gray0").unwrap().fg, Some(Color::Indexed(232)));
  assert_eq!(Config::parse_tcolor("gray24"), None);
  assert_eq!(Config::parse_tcolor("red on grey40"), None);
  assert_eq!(Config::get_tcolor("gray99"), Style::new());
  assert_eq!(Config::parse_tcolor("color240 on bright blue").unwrap().fg, Some(Color::Indexed(240)));
}

#[test]
fn documented_defaults_of_the_context_and_calendar_title_styles() {
  let base = "data.location /tmp/x\nrule.precedence.color tag.\nuda.priority.values H,M,L";
  let c = Config::new(base, "next", 80).unwrap();
  let expected = Config::get_tcolor("black on rgb444");
  assert_eq!(expected.fg, Some(Color::Indexed(0)));
  assert_eq!(expected.bg, Some(Color::Indexed(188)));
  assert_eq!(c.uda_style_context_active, expected);
  assert_eq!(c.uda_style_calendar_title, expected);
}

#[test]
fn color_table_reads_back_what_was_written() {
  let mut t = ColorTable::new();
  let red = Style { fg: Some(Color::Red), bg: None, add_modifier: 0, sub_modifier: 0 };
  let blue = Style { fg: Some(Color::Blue), bg: None, add_modifier: 0, sub_modifier: 0 };
  t.insert("color.tag.a".to_string(), red);
  t.insert("color.tag.b".to_string(), blue);
  assert_eq!(t.get("color.tag.a"), Some(red));
  t.insert("color.tag.a".to_string(), blue);
  assert_eq!(t.get("color.tag.a"), Some(blue));
  assert_eq!(t.get("color.tag.b"), Some(blue));
  assert_eq!(t.get("color.tag.c"), None);
  assert_eq!(t.len(), 2);
  assert_eq!(t.with_prefix("color.tag.").len(), 2);
}

#[test]
fn colour_settings_with_non_ascii_text_are_read() {
  let c = Config::parse_tcolor("bold\u{a0}red").unwrap();
  assert_eq!(c.fg, Some(Color::Indexed(1)));
  assert_eq!(c.add_modifier & BOLD, BOLD);
  let c = Config::parse_tcolor("\u{a0}red on blue\u{a0}").unwrap();
  assert_eq!(c.fg, Some(Color::Indexed(1)));
  assert_eq!(c.bg, Some(Color::Indexed(4)));
  assert_eq!(Config::parse_tcolor("r\u{e9}d"), None);
}
