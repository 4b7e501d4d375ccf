use aa_proxy_obd::logging::{
    choose_filter, console_line, file_line, format_line, level_markup, level_name, render, Level,
    LevelFilter, UnknownLevel,
};

#[test]
fn level_from_str_parses_known_levels() {
    assert_eq!(LevelFilter::from_str("trace").unwrap(), LevelFilter::Trace);
    assert_eq!(LevelFilter::from_str("debug").unwrap(), LevelFilter::Debug);
    assert_eq!(LevelFilter::from_str("info").unwrap(), LevelFilter::Info);
    assert_eq!(LevelFilter::from_str("warn").unwrap(), LevelFilter::Warn);
    assert_eq!(LevelFilter::from_str("error").unwrap(), LevelFilter::Error);
    assert_eq!(LevelFilter::from_str("off").unwrap(), LevelFilter::Off);
}

#[test]
fn markup_renders_for_console_and_strips_for_file() {
    let msg = "<b><blue>aa-proxy-obd</> started";
    let colored = render(msg, true);
    let plain = render(msg, false);
    // Console output carries ANSI escape codes; file output does not, and
    // neither carries the literal markup tags.
    assert!(colored.contains('\u{1b}'), "console output should contain ANSI codes");
    assert!(!plain.contains('\u{1b}'), "file output must not contain ANSI codes");
    assert!(!plain.contains('<'), "file output must not contain markup tags");
    assert_eq!(plain, "aa-proxy-obd started");
}

#[test]
fn level_names_ignore_case_only() {
    assert_eq!(LevelFilter::from_str("WaRn"), Ok(LevelFilter::Warn));
    assert_eq!(LevelFilter::from_str("warning"), Err(UnknownLevel));
    assert_eq!(LevelFilter::from_str(" info"), Err(UnknownLevel));
    assert_eq!(LevelFilter::from_str(""), Err(UnknownLevel));
}

#[test]
fn debugging_overrides_the_configured_level() {
    assert_eq!(choose_filter("error", true), LevelFilter::Debug);
    assert_eq!(choose_filter("error", false), LevelFilter::Error);
    assert_eq!(choose_filter("loud", false), LevelFilter::Info);
}

#[test]
fn levels_are_marked_up() {
    assert_eq!(level_markup(Level::Error), "<red>ERROR</>");
    assert_eq!(level_markup(Level::Warn), "<yellow>WARN</>");
    assert_eq!(level_markup(Level::Info), "<green>INFO</>");
    assert_eq!(level_markup(Level::Debug), "<cyan>DEBUG</>");
    assert_eq!(level_markup(Level::Trace), "<bright black>TRACE</>");
    assert_eq!(level_name(Level::Trace), "TRACE");
}

#[test]
fn lines_hold_time_level_and_message() {
    assert_eq!(format_line("t", "x", "m"), "t [x] m");
    assert_eq!(file_line("t", Level::Info, "<b>hello</>"), "t [INFO] hello");
    assert_eq!(file_line("t", Level::Warn, "plain"), "t [WARN] plain");
    assert_eq!(console_line("t", Level::Debug, "hello", false), "t [DEBUG] hello");
    assert_eq!(console_line("t", Level::Error, "x", true), "t [\u{1b}[31mERROR\u{1b}[0m] x");
}
