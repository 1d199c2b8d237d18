use tui_clock::app::{App, HourFormat, Screen, Settings};
use tui_clock::clock::ClockTime;
use tui_clock::font::{glyph_for, GLYPH_GAP, GLYPH_HEIGHT, GLYPH_WIDTH, COLON, COLON_OFF, ONE, ZERO};
use tui_clock::theme::Theme;
use tui_clock::ui::{
    draw, draw_about, draw_clock, draw_lines, draw_menu, draw_message, draw_settings,
    render_text, Frame, Placed, NOT_ENOUGH_ROOM,
};

fn at(x: u16, y: u16, text: &str) -> Placed {
    Placed { x, y, text: text.to_string() }
}

fn too_small(w: u16, h: u16) -> Frame {
    Frame::Message(at(w.saturating_sub(59) / 2, h / 2, NOT_ENOUGH_ROOM))
}

#[test]
fn glyph_for_digits_and_colon() {
    assert_eq!(glyph_for('0', true), Some(&ZERO));
    assert_eq!(glyph_for('1', false), Some(&ONE));
    assert_eq!(glyph_for(':', true), Some(&COLON));
    assert_eq!(glyph_for(':', false), Some(&COLON_OFF));
    assert_eq!(glyph_for('a', true), None);
    assert_eq!(glyph_for(' ', true), None);
    for c in "0123456789".chars() {
        assert!(glyph_for(c, true).is_some());
    }
}

#[test]
fn every_glyph_row_is_eight_cells() {
    for c in "0123456789:".chars() {
        for colon_on in [true, false] {
            let g = glyph_for(c, colon_on).unwrap();
            assert_eq!(g.len(), GLYPH_HEIGHT);
            for row in g.iter() {
                assert_eq!(row.chars().count(), GLYPH_WIDTH);
                assert!(row.chars().all(|c| c == '#' || c == ' '));
            }
        }
    }
}

#[test]
fn render_text_paints_and_spaces_glyphs() {
    let rows = render_text("10", true);
    assert_eq!(rows.len(), 7);
    assert_eq!(rows[0], "  ▓▓▓     ▓▓▓▓▓▓▓▓");
    assert_eq!(rows[1], " ▓▓▓▓     ▓▓    ▓▓");
    for row in &rows {
        assert_eq!(row.chars().count(), 2 * GLYPH_WIDTH + GLYPH_GAP);
    }
}

#[test]
fn render_text_skips_unknown_characters() {
    assert_eq!(render_text("1x0", true), render_text("10", true));
    let empty = render_text("", true);
    assert_eq!(empty.len(), 7);
    assert!(empty.iter().all(|r| r.is_empty()));
    let blank = render_text("ab", true);
    assert!(blank.iter().all(|r| r.is_empty()));
}

#[test]
fn render_text_width_of_a_full_time() {
    let rows = render_text("12:34:56", false);
    for row in &rows {
        assert_eq!(row.chars().count(), 8 * 8 + 7 * 2);
    }
    // the colon is blank when off
    assert_eq!(rows[1].chars().skip(20).take(8).collect::<String>(), "        ");
}

#[test]
fn message_is_centred() {
    assert_eq!(draw_message(80, 24, "hello"), Frame::Message(at(37, 12, "hello")));
    assert_eq!(draw_message(3, 1, "hello"), Frame::Message(at(0, 0, "hello")));
}

#[test]
fn menu_layout() {
    let f = draw_menu(80, 24, 1);
    assert_eq!(
        f,
        Frame::Menu(vec![
            at(34, 8, "  Back      "),
            at(34, 10, "> Settings  "),
            at(34, 12, "  About     "),
            at(34, 14, "  Quit      "),
        ])
    );
}

#[test]
fn menu_too_small() {
    assert_eq!(draw_menu(11, 24, 0), too_small(11, 24));
    assert_eq!(draw_menu(80, 6, 0), too_small(80, 6));
    // exactly large enough
    match draw_menu(12, 7, 0) {
        Frame::Menu(lines) => {
            assert_eq!(lines[0], at(0, 0, "> Back      "));
            assert_eq!(lines[3], at(0, 6, "  Quit      "));
        }
        other => panic!("unexpected {:?}", other),
    }
}

#[test]
fn settings_layout() {
    let s = Settings { hour_format: HourFormat::H12, show_seconds: false, theme: Theme::Sunset };
    let f = draw_settings(80, 24, 2, &s);
    assert_eq!(
        f,
        Frame::Settings(vec![
            at(29, 9, "  Hour format  12H    "),
            at(29, 11, "  Seconds      off    "),
            at(29, 13, "> Theme        Sunset "),
        ])
    );
    match draw_settings(22, 5, 0, &Settings::default()) {
        Frame::Settings(lines) => {
            assert_eq!(lines[0], at(0, 0, "> Hour format  24H    "));
            assert_eq!(lines[1], at(0, 2, "  Seconds      on     "));
            assert_eq!(lines[2], at(0, 4, "  Theme        Classic"));
        }
        other => panic!("unexpected {:?}", other),
    }
    assert_eq!(draw_settings(21, 5, 0, &s), too_small(21, 5));
    assert_eq!(draw_settings(22, 4, 0, &s), too_small(22, 4));
}

#[test]
fn lines_block_is_centred() {
    let lines = vec!["ab".to_string(), "abcdef".to_string(), String::new()];
    assert_eq!(
        draw_lines(10, 10, &lines),
        Frame::Lines(vec![at(2, 3, "ab"), at(2, 4, "abcdef"), at(2, 5, "")])
    );
    assert_eq!(draw_lines(5, 10, &lines), too_small(5, 10));
    assert_eq!(draw_lines(10, 2, &lines), too_small(10, 2));
    assert_eq!(draw_lines(0, 0, &Vec::new()), Frame::Lines(Vec::new()));
}

#[test]
fn about_page_lines() {
    let path = "/home/u/.config/tui_clock/config.toml".to_string();
    let f = draw_about(80, 24, Some(path));
    let w = 9 + 37;
    let x = ((80 - w) / 2) as u16;
    assert_eq!(
        f,
        Frame::Lines(vec![
            at(x, 8, "tui_clock v0.1.0"),
            at(x, 9, "Hand-written with crossterm, no ratatui"),
            at(x, 10, ""),
            at(x, 11, "Author   Violet_BlackCat"),
            at(x, 12, "Config   /home/u/.config/tui_clock/config.toml"),
            at(x, 13, ""),
            at(x, 14, "Esc - go back"),
        ])
    );
    match draw_about(80, 24, None) {
        Frame::Lines(lines) => {
            assert_eq!(lines.len(), 6);
            assert_eq!(lines[0], at(20, 9, "tui_clock v0.1.0"));
            assert_eq!(lines[5], at(20, 14, "Esc - go back"));
        }
        other => panic!("unexpected {:?}", other),
    }
}

fn time(h: u32, m: u32, s: u32, n: u32) -> ClockTime {
    ClockTime::from_parts(h, m, s, n).unwrap()
}

fn placed_rows(x: u16, y: u16, text: &str, colon_on: bool) -> Vec<Placed> {
    render_text(text, colon_on)
        .into_iter()
        .enumerate()
        .map(|(i, t)| Placed { x, y: y + i as u16, text: t })
        .collect()
}

#[test]
fn clock_time_validity() {
    assert!(ClockTime::from_parts(23, 59, 59, 999_999_999).is_some());
    assert!(ClockTime::from_parts(23, 59, 59, 1_999_999_999).is_some());
    assert!(ClockTime::from_parts(24, 0, 0, 0).is_none());
    assert!(ClockTime::from_parts(0, 60, 0, 0).is_none());
    assert!(ClockTime::from_parts(0, 0, 60, 0).is_none());
    assert!(ClockTime::from_parts(0, 0, 58, 1_000_000_000).is_none());
    assert!(ClockTime::from_parts(0, 0, 59, 2_000_000_000).is_none());
}

#[test]
fn clock_24_hour_with_seconds() {
    let f = draw_clock(80, 24, &Settings::default(), &time(13, 5, 9, 0));
    assert_eq!(
        f,
        Frame::Clock { rows: placed_rows(1, 8, "13:05:09", false), span: 6, meridiem: None }
    );
}

#[test]
fn clock_12_hour_without_seconds() {
    let s = Settings { hour_format: HourFormat::H12, show_seconds: false, theme: Theme::Ocean };
    let f = draw_clock(80, 24, &s, &time(13, 5, 8, 0));
    assert_eq!(
        f,
        Frame::Clock {
            rows: placed_rows(16, 7, "01:05", true),
            span: 6,
            meridiem: Some(at(62, 15, "PM")),
        }
    );
    let f = draw_clock(80, 24, &s, &time(0, 0, 0, 0));
    assert_eq!(
        f,
        Frame::Clock {
            rows: placed_rows(16, 7, "12:00", true),
            span: 6,
            meridiem: Some(at(62, 15, "AM")),
        }
    );
    let f = draw_clock(80, 24, &s, &time(12, 30, 0, 0));
    match f {
        Frame::Clock { meridiem, rows, .. } => {
            assert_eq!(meridiem, Some(at(62, 15, "PM")));
            assert_eq!(rows, placed_rows(16, 7, "12:30", true));
        }
        other => panic!("unexpected {:?}", other),
    }
}

#[test]
fn clock_12_hour_with_seconds() {
    let s = Settings { hour_format: HourFormat::H12, show_seconds: true, theme: Theme::Classic };
    let f = draw_clock(80, 24, &s, &time(23, 59, 58, 0));
    assert_eq!(
        f,
        Frame::Clock {
            rows: placed_rows(1, 7, "11:59:58", true),
            span: 6,
            meridiem: Some(at(77, 15, "PM")),
        }
    );
}

#[test]
fn clock_shows_leap_second_as_sixty() {
    let f = draw_clock(80, 24, &Settings::default(), &time(23, 59, 59, 1_500_000_000));
    assert_eq!(
        f,
        Frame::Clock { rows: placed_rows(1, 8, "23:59:60", false), span: 6, meridiem: None }
    );
}

#[test]
fn clock_too_small() {
    let s = Settings::default();
    assert_eq!(draw_clock(77, 24, &s, &time(1, 2, 3, 0)), too_small(77, 24));
    assert_eq!(draw_clock(78, 6, &s, &time(1, 2, 3, 0)), too_small(78, 6));
    let twelve = Settings { hour_format: HourFormat::H12, ..s };
    // the AM/PM marker needs two more rows
    assert_eq!(draw_clock(80, 8, &twelve, &time(1, 2, 3, 0)), too_small(80, 8));
    match draw_clock(78, 7, &s, &time(1, 2, 3, 0)) {
        Frame::Clock { rows, .. } => assert_eq!(rows[0].x, 0),
        other => panic!("unexpected {:?}", other),
    }
}

#[test]
fn draw_dispatches_on_page() {
    let mut app = App::new(Settings::default());
    let now = time(9, 15, 0, 0);
    assert_eq!(draw(&app, 80, 24, &now, None), draw_clock(80, 24, &app.settings, &now));
    app.screen = Screen::Menu { selected: 3 };
    assert_eq!(draw(&app, 80, 24, &now, None), draw_menu(80, 24, 3));
    app.screen = Screen::Settings { selected: 1 };
    assert_eq!(draw(&app, 80, 24, &now, None), draw_settings(80, 24, 1, &app.settings));
    app.screen = Screen::About;
    assert_eq!(
        draw(&app, 80, 24, &now, Some("p".to_string())),
        draw_about(80, 24, Some("p".to_string()))
    );
}

#[test]
fn drawn_lines_stay_inside_the_terminal() {
    let now = time(10, 10, 10, 0);
    for (w, h) in [(80u16, 24u16), (78, 9), (22, 7), (12, 7), (200, 60)] {
        for screen in [
            Screen::Clock,
            Screen::Menu { selected: 0 },
            Screen::Settings { selected: 2 },
            Screen::About,
        ] {
            for hour_format in HourFormat::ALL {
                let mut app = App::new(Settings { hour_format, ..Settings::default() });
                app.screen = screen;
                let lines: Vec<Placed> = match draw(&app, w, h, &now, None) {
                    Frame::Message(_) => Vec::new(),
                    Frame::Clock { rows, meridiem, .. } => rows.into_iter().chain(meridiem).collect(),
                    Frame::Menu(l) | Frame::Settings(l) | Frame::Lines(l) => l,
                };
                for p in lines {
                    assert!(p.x as usize + p.text.chars().count() <= w as usize);
                    assert!(p.y < h);
                }
            }
        }
    }
}

#[test]
fn render_text_of_joined_texts_joins_renderings() {
    let a = render_text("12", true);
    let b = render_text(":3", true);
    let ab = render_text("12:3", true);
    for i in 0..GLYPH_HEIGHT {
        assert_eq!(ab[i], format!("{}  {}", a[i], b[i]));
    }
}

#[test]
fn render_text_colon_flag_only_affects_colons() {
    assert_eq!(render_text("0123456789", true), render_text("0123456789", false));
    assert_ne!(render_text("1:2", true), render_text("1:2", false));
    assert_eq!(render_text("a1 b:2c", false), render_text("1:2", false));
}
