use tui_clock::app::{HourFormat, Settings};
use tui_clock::config::{config_path, parse, parse_bool, serialize, Platform};
use tui_clock::theme::Theme;

const DEFAULT_TEXT: &str = "# tui_clock 配置文件 —— 可自由编辑，保存后下次启动生效\n\
#\n\
# hour_format  : 24H | 12H\n\
# show_seconds : true | false\n\
# theme        : Classic | Sunset | Ocean\n\
\n\
hour_format  = \"24H\"\n\
show_seconds = true\n\
theme        = \"Classic\"\n";

fn all_settings() -> Vec<Settings> {
    let mut v = Vec::new();
    for hour_format in HourFormat::ALL {
        for show_seconds in [true, false] {
            for theme in Theme::ALL {
                v.push(Settings { hour_format, show_seconds, theme });
            }
        }
    }
    v
}

#[test]
fn serialize_default_settings_exactly() {
    assert_eq!(serialize(&Settings::default()), DEFAULT_TEXT);
}

#[test]
fn serialize_other_settings() {
    let s = Settings { hour_format: HourFormat::H12, show_seconds: false, theme: Theme::Ocean };
    let text = serialize(&s);
    assert!(text.ends_with(
        "\nhour_format  = \"12H\"\nshow_seconds = false\ntheme        = \"Ocean\"\n"
    ));
    assert_eq!(text.lines().count(), 9);
}

#[test]
fn parse_reads_back_serialize() {
    for s in all_settings() {
        assert_eq!(parse(&serialize(&s)), s);
    }
}

#[test]
fn parse_empty_gives_defaults() {
    assert_eq!(parse(""), Settings::default());
    assert_eq!(parse("\n\n   \n"), Settings::default());
}

#[test]
fn parse_unquoted_and_case_insensitive_values() {
    let s = parse("hour_format = 12h\nshow_seconds = FALSE\ntheme = sunset\n");
    assert_eq!(s, Settings { hour_format: HourFormat::H12, show_seconds: false, theme: Theme::Sunset });
}

#[test]
fn parse_skips_comments_and_lines_without_equals() {
    let s = parse("# theme = Ocean\ntheme Ocean\n   # hour_format = 12H\n");
    assert_eq!(s, Settings::default());
}

#[test]
fn parse_ignores_unknown_keys_and_bad_values() {
    let s = parse("colour = red\ntheme = Blue\nshow_seconds = yes\nhour_format = 13H\n");
    assert_eq!(s, Settings::default());
}

#[test]
fn parse_keys_are_case_sensitive() {
    assert_eq!(parse("Theme = Ocean"), Settings::default());
    assert_eq!(parse("THEME = Ocean"), Settings::default());
}

#[test]
fn parse_trims_whitespace_and_quotes() {
    let s = parse("\t  theme\t=   \"\"Ocean\"\"  \r\nshow_seconds=false\r\n  hour_format =\"12H\"");
    assert_eq!(s, Settings { hour_format: HourFormat::H12, show_seconds: false, theme: Theme::Ocean });
    // Unicode whitespace around a line is trimmed as well.
    assert_eq!(parse("\u{3000}theme = Ocean\u{00A0}").theme, Theme::Ocean);
}

#[test]
fn parse_splits_at_first_equals() {
    // The value after the first '=' is "= Ocean", which names no theme.
    assert_eq!(parse("theme == Ocean").theme, Theme::Classic);
    assert_eq!(parse("theme = Ocean=").theme, Theme::Classic);
    // An empty key is no key.
    assert_eq!(parse("= Ocean"), Settings::default());
}

#[test]
fn parse_later_lines_win() {
    let s = parse("theme = Ocean\ntheme = Sunset\ntheme = nonsense\n");
    assert_eq!(s.theme, Theme::Sunset);
}

#[test]
fn parse_quotes_inside_value_are_kept() {
    assert_eq!(parse("theme = Oc\"ean").theme, Theme::Classic);
}

#[test]
fn parse_bool_values() {
    assert_eq!(parse_bool("true"), Some(true));
    assert_eq!(parse_bool("TrUe"), Some(true));
    assert_eq!(parse_bool("false"), Some(false));
    assert_eq!(parse_bool("FALSE"), Some(false));
    assert_eq!(parse_bool("yes"), None);
    assert_eq!(parse_bool(" true"), None);
    assert_eq!(parse_bool(""), None);
}

fn segments<P>(p: &tui_clock::config::ConfigPath<P>) -> Vec<&'static str> {
    p.segments.clone()
}

#[test]
fn config_path_on_windows() {
    let p = config_path(Platform::Windows, Some("C:\\AppData"), Some("/home/u"), Some("/x")).unwrap();
    assert_eq!(p.dir, "C:\\AppData");
    assert_eq!(segments(&p), vec!["tui_clock", "config.toml"]);
    assert!(config_path::<&str>(Platform::Windows, None, Some("/home/u"), Some("/x")).is_none());
}

#[test]
fn config_path_on_macos() {
    let p = config_path(Platform::MacOs, Some("a"), Some("/Users/u"), Some("/x")).unwrap();
    assert_eq!(p.dir, "/Users/u");
    assert_eq!(segments(&p), vec!["Library/Application Support", "tui_clock", "config.toml"]);
    assert!(config_path::<&str>(Platform::MacOs, Some("a"), None, Some("/x")).is_none());
}

#[test]
fn config_path_on_unix() {
    let p = config_path(Platform::Unix, None, Some("/home/u"), Some("/home/u/.cfg")).unwrap();
    assert_eq!(p.dir, "/home/u/.cfg");
    assert_eq!(segments(&p), vec!["tui_clock", "config.toml"]);
    let p = config_path(Platform::Unix, Some("a"), Some("/home/u"), None).unwrap();
    assert_eq!(p.dir, "/home/u");
    assert_eq!(segments(&p), vec![".config", "tui_clock", "config.toml"]);
    assert!(config_path::<&str>(Platform::Unix, Some("a"), None, None).is_none());
}

#[test]
fn parse_ignores_added_lines_that_change_nothing() {
    let text = "theme = Ocean\nshow_seconds = false";
    let extra = "# note\n\nno equals here\ncolour = red\nhour_format = 25H\ntheme = Blue";
    let base = parse(text);
    assert_eq!(parse(&format!("{}\n{}", text, extra)), base);
    assert_eq!(parse(&format!("{}\n{}", extra, text)), base);
}
