use tui_clock::app::{
    App, HourFormat, KeyCode, KeyEvent, Screen, Settings, MENU_ITEMS, SETTINGS_ITEMS,
};
use tui_clock::theme::Theme;

fn key(code: KeyCode) -> KeyEvent {
    KeyEvent { code, ctrl: false }
}

fn ctrl(code: KeyCode) -> KeyEvent {
    KeyEvent { code, ctrl: true }
}

fn app_at(screen: Screen) -> App {
    let mut app = App::new(Settings::default());
    app.screen = screen;
    app
}

#[test]
fn hour_format_labels_and_names() {
    assert_eq!(HourFormat::H24.label(), "24H");
    assert_eq!(HourFormat::H12.label(), "12H");
    assert_eq!(HourFormat::from_name("24h"), Some(HourFormat::H24));
    assert_eq!(HourFormat::from_name("12H"), Some(HourFormat::H12));
    assert_eq!(HourFormat::from_name("12"), None);
    assert_eq!(HourFormat::from_name(""), None);
    for f in HourFormat::ALL {
        assert_eq!(HourFormat::from_name(f.label()), Some(f));
    }
}

#[test]
fn hour_format_toggles_and_meridiem() {
    assert_eq!(HourFormat::H24.toggled(), HourFormat::H12);
    assert_eq!(HourFormat::H12.toggled(), HourFormat::H24);
    assert_eq!(HourFormat::H24.toggled().toggled(), HourFormat::H24);
    assert!(HourFormat::H12.needs_meridiem());
    assert!(!HourFormat::H24.needs_meridiem());
}

#[test]
fn settings_default_values() {
    let s = Settings::default();
    assert_eq!(s.hour_format, HourFormat::H24);
    assert!(s.show_seconds);
    assert_eq!(s.theme, Theme::Classic);
}

#[test]
fn time_pattern_covers_four_combinations() {
    let mut s = Settings::default();
    assert_eq!(s.time_pattern(), "%H:%M:%S");
    s.show_seconds = false;
    assert_eq!(s.time_pattern(), "%H:%M");
    s.hour_format = HourFormat::H12;
    assert_eq!(s.time_pattern(), "%I:%M");
    s.show_seconds = true;
    assert_eq!(s.time_pattern(), "%I:%M:%S");
}

#[test]
fn new_app_shows_clock() {
    let s = Settings { hour_format: HourFormat::H12, show_seconds: false, theme: Theme::Ocean };
    let app = App::new(s);
    assert_eq!(app.screen, Screen::Clock);
    assert!(!app.should_quit);
    assert_eq!(app.settings, s);
}

#[test]
fn clock_page_keys() {
    let mut app = app_at(Screen::Clock);
    app.handle_key(key(KeyCode::Esc));
    assert_eq!(app.screen, Screen::Menu { selected: 0 });

    let mut app = app_at(Screen::Clock);
    app.handle_key(key(KeyCode::Char('q')));
    assert!(app.should_quit);
    assert_eq!(app.screen, Screen::Clock);

    let mut app = app_at(Screen::Clock);
    app.handle_key(key(KeyCode::Char('Q')));
    assert!(app.should_quit);

    let mut app = app_at(Screen::Clock);
    app.handle_key(key(KeyCode::Char('x')));
    app.handle_key(key(KeyCode::Enter));
    app.handle_key(key(KeyCode::Up));
    app.handle_key(key(KeyCode::Other));
    assert_eq!(app.screen, Screen::Clock);
    assert!(!app.should_quit);
}

#[test]
fn control_c_quits_everywhere() {
    for screen in [
        Screen::Clock,
        Screen::Menu { selected: 2 },
        Screen::Settings { selected: 1 },
        Screen::About,
    ] {
        let mut app = app_at(screen);
        app.handle_key(ctrl(KeyCode::Char('c')));
        assert!(app.should_quit);
        assert_eq!(app.screen, screen);
        assert_eq!(app.settings, Settings::default());
    }
    // Control with another key is that key.
    let mut app = app_at(Screen::Clock);
    app.handle_key(ctrl(KeyCode::Esc));
    assert_eq!(app.screen, Screen::Menu { selected: 0 });
    assert!(!app.should_quit);
    // Upper-case C with Control is not the interrupt.
    let mut app = app_at(Screen::Menu { selected: 0 });
    app.handle_key(ctrl(KeyCode::Char('C')));
    assert!(!app.should_quit);
}

#[test]
fn menu_cursor_wraps() {
    assert_eq!(MENU_ITEMS.len(), 4);
    let mut app = app_at(Screen::Menu { selected: 0 });
    app.handle_key(key(KeyCode::Up));
    assert_eq!(app.screen, Screen::Menu { selected: 3 });
    app.handle_key(key(KeyCode::Down));
    assert_eq!(app.screen, Screen::Menu { selected: 0 });
    app.handle_key(key(KeyCode::Down));
    app.handle_key(key(KeyCode::Down));
    assert_eq!(app.screen, Screen::Menu { selected: 2 });
    app.handle_key(key(KeyCode::Up));
    assert_eq!(app.screen, Screen::Menu { selected: 1 });
}

#[test]
fn menu_enter_on_each_entry() {
    let mut app = app_at(Screen::Menu { selected: 0 });
    app.handle_key(key(KeyCode::Enter));
    assert_eq!(app.screen, Screen::Clock);

    let mut app = app_at(Screen::Menu { selected: 1 });
    app.handle_key(key(KeyCode::Enter));
    assert_eq!(app.screen, Screen::Settings { selected: 0 });

    let mut app = app_at(Screen::Menu { selected: 2 });
    app.handle_key(key(KeyCode::Enter));
    assert_eq!(app.screen, Screen::About);

    let mut app = app_at(Screen::Menu { selected: 3 });
    app.handle_key(key(KeyCode::Enter));
    assert!(app.should_quit);
    assert_eq!(app.screen, Screen::Menu { selected: 3 });

    let mut app = app_at(Screen::Menu { selected: 2 });
    app.handle_key(key(KeyCode::Esc));
    assert_eq!(app.screen, Screen::Clock);
}

#[test]
fn menu_cursor_out_of_range_is_left_alone_by_enter() {
    let mut app = app_at(Screen::Menu { selected: 7 });
    app.handle_key(key(KeyCode::Enter));
    assert_eq!(app.screen, Screen::Menu { selected: 7 });
    assert!(!app.should_quit);
    app.handle_key(key(KeyCode::Down));
    assert_eq!(app.screen, Screen::Menu { selected: 0 });
}

#[test]
fn settings_page_changes_settings() {
    assert_eq!(SETTINGS_ITEMS.len(), 3);
    let mut app = app_at(Screen::Settings { selected: 0 });
    app.handle_key(key(KeyCode::Right));
    assert_eq!(app.settings.hour_format, HourFormat::H12);
    app.handle_key(key(KeyCode::Left));
    assert_eq!(app.settings.hour_format, HourFormat::H24);

    app.handle_key(key(KeyCode::Down));
    assert_eq!(app.screen, Screen::Settings { selected: 1 });
    app.handle_key(key(KeyCode::Left));
    assert!(!app.settings.show_seconds);
    app.handle_key(key(KeyCode::Right));
    assert!(app.settings.show_seconds);

    app.handle_key(key(KeyCode::Down));
    app.handle_key(key(KeyCode::Right));
    assert_eq!(app.settings.theme, Theme::Sunset);
    app.handle_key(key(KeyCode::Left));
    assert_eq!(app.settings.theme, Theme::Ocean);
    app.handle_key(key(KeyCode::Right));
    assert_eq!(app.settings.theme, Theme::Classic);

    app.handle_key(key(KeyCode::Down));
    assert_eq!(app.screen, Screen::Settings { selected: 0 });
    app.handle_key(key(KeyCode::Up));
    assert_eq!(app.screen, Screen::Settings { selected: 2 });

    app.handle_key(key(KeyCode::Esc));
    assert_eq!(app.screen, Screen::Menu { selected: 1 });
    assert_eq!(app.settings, Settings::default());
}

#[test]
fn settings_keys_elsewhere_change_nothing() {
    for screen in [Screen::Clock, Screen::Menu { selected: 0 }, Screen::About] {
        let mut app = app_at(screen);
        app.handle_key(key(KeyCode::Left));
        app.handle_key(key(KeyCode::Right));
        assert_eq!(app.settings, Settings::default());
    }
}

#[test]
fn about_page_escape_returns_to_about_entry() {
    let mut app = app_at(Screen::About);
    app.handle_key(key(KeyCode::Enter));
    app.handle_key(key(KeyCode::Char('q')));
    assert_eq!(app.screen, Screen::About);
    assert!(!app.should_quit);
    app.handle_key(key(KeyCode::Esc));
    assert_eq!(app.screen, Screen::Menu { selected: 2 });
}

#[test]
fn enter_then_escape_returns_to_same_entry() {
    for selected in 0..3 {
        let mut app = app_at(Screen::Menu { selected });
        app.handle_key(key(KeyCode::Enter));
        app.handle_key(key(KeyCode::Esc));
        assert_eq!(app.screen, Screen::Menu { selected });
    }
}

#[test]
fn up_then_down_keeps_cursor() {
    for selected in 0..4 {
        let mut app = app_at(Screen::Menu { selected });
        app.handle_key(key(KeyCode::Up));
        app.handle_key(key(KeyCode::Down));
        assert_eq!(app.screen, Screen::Menu { selected });
    }
    for selected in 0..3 {
        let mut app = app_at(Screen::Settings { selected });
        app.handle_key(key(KeyCode::Down));
        app.handle_key(key(KeyCode::Up));
        assert_eq!(app.screen, Screen::Settings { selected });
    }
}

#[test]
fn quitting_is_final() {
    let mut app = app_at(Screen::Menu { selected: 3 });
    app.handle_key(key(KeyCode::Enter));
    assert!(app.should_quit);
    app.handle_key(key(KeyCode::Esc));
    app.handle_key(key(KeyCode::Enter));
    assert!(app.should_quit);
}

#[test]
fn poll_timeout_depends_on_page() {
    assert_eq!(app_at(Screen::Clock).poll_timeout_ms(), 1000);
    assert_eq!(app_at(Screen::Menu { selected: 0 }).poll_timeout_ms(), 3_600_000);
    assert_eq!(app_at(Screen::Settings { selected: 0 }).poll_timeout_ms(), 3_600_000);
    assert_eq!(app_at(Screen::About).poll_timeout_ms(), 3_600_000);
}

#[test]
fn cursor_at_the_largest_index_handles_all_keys_but_down() {
    let far = usize::MAX;
    let mut app = app_at(Screen::Menu { selected: far });
    app.handle_key(key(KeyCode::Enter));
    assert_eq!(app.screen, Screen::Menu { selected: far });
    app.handle_key(key(KeyCode::Up));
    assert_eq!(app.screen, Screen::Menu { selected: far - 1 });
    app.handle_key(key(KeyCode::Esc));
    assert_eq!(app.screen, Screen::Clock);

    let mut app = app_at(Screen::Settings { selected: far });
    app.handle_key(key(KeyCode::Left));
    app.handle_key(key(KeyCode::Right));
    assert_eq!(app.settings, Settings::default());
    app.handle_key(ctrl(KeyCode::Char('c')));
    assert!(app.should_quit);
    assert_eq!(app.screen, Screen::Settings { selected: far });
}
