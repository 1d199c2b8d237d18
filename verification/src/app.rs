//! Application state: the current page, the user's settings, and how a key
//! press moves between pages and changes the settings.
use vstd::prelude::*;

use crate::text::{ascii_lower, eq_ignore_ascii_case, str_eq_ignore_ascii_case};
use crate::theme::{theme_next, Theme};

verus! {

/// Entries of the main menu, top to bottom.
pub const MENU_ITEMS: [&'static str; 4] = ["Back", "Settings", "About", "Quit"];

/// Entries of the settings page, top to bottom.
pub const SETTINGS_ITEMS: [&'static str; 3] = ["Hour format", "Seconds", "Theme"];

/// Number of entries of the main menu.
pub open spec fn menu_len() -> int {
    4
}

/// Number of entries of the settings page.
pub open spec fn settings_len() -> int {
    3
}

/// Whether the clock shows a 24-hour or a 12-hour time.
#[derive(Clone, Copy, Debug, PartialEq, Eq, Structural)]
pub enum HourFormat {
    H24,
    H12,
}

pub open spec fn hour_label(f: HourFormat) -> Seq<char> {
    match f {
        HourFormat::H24 => "24H"@,
        HourFormat::H12 => "12H"@,
    }
}

/// The hour format whose label matches `s` ignoring ASCII case, in the order of `HourFormat::ALL`.
pub open spec fn hour_from_name(s: Seq<char>) -> Option<HourFormat> {
    if eq_ignore_ascii_case(hour_label(HourFormat::H24), s) {
        Some(HourFormat::H24)
    } else if eq_ignore_ascii_case(hour_label(HourFormat::H12), s) {
        Some(HourFormat::H12)
    } else {
        None
    }
}

pub open spec fn hour_toggled(f: HourFormat) -> HourFormat {
    match f {
        HourFormat::H24 => HourFormat::H12,
        HourFormat::H12 => HourFormat::H24,
    }
}

impl HourFormat {
    /// Every hour format, in the order in which the configuration file lists them.
    pub const ALL: [HourFormat; 2] = [HourFormat::H24, HourFormat::H12];

    /// The name shown in the settings page and written to the configuration file.
    pub fn label(self) -> (r: &'static str)
        ensures
            r@ == hour_label(self),
    {
        match self {
            HourFormat::H24 => "24H",
            HourFormat::H12 => "12H",
        }
    }

    /// The hour format named `s`, compared without regard to ASCII case.
    pub fn from_name(s: &str) -> (r: Option<HourFormat>)
        ensures
            r == hour_from_name(s@),
    {
        let mut i: usize = 0;
        while i < 2
            invariant
                0 <= i <= 2,
                forall|j: int|
                    0 <= j < i ==> !eq_ignore_ascii_case(hour_label(#[trigger] Self::ALL[j]), s@),
            decreases 2 - i,
        {
            let f = Self::ALL[i];
            if str_eq_ignore_ascii_case(f.label(), s) {
                return Some(f);
            }
            i = i + 1;
        }
        None
    }

    /// The other hour format.
    pub fn toggled(self) -> (r: HourFormat)
        ensures
            r == hour_toggled(self),
    {
        match self {
            HourFormat::H24 => HourFormat::H12,
            HourFormat::H12 => HourFormat::H24,
        }
    }

    /// Whether the time needs an AM/PM marker beside it.
    pub fn needs_meridiem(self) -> (r: bool)
        ensures
            r == (self == HourFormat::H12),
    {
        match self {
            HourFormat::H12 => true,
            HourFormat::H24 => false,
        }
    }
}

/// The user's choices, kept while the program runs and saved on exit.
#[derive(Clone, Copy, Debug, PartialEq, Eq, Structural)]
pub struct Settings {
    pub hour_format: HourFormat,
    pub show_seconds: bool,
    pub theme: Theme,
}

pub open spec fn default_settings() -> Settings {
    Settings { hour_format: HourFormat::H24, show_seconds: true, theme: Theme::Classic }
}

impl Default for Settings {
    fn default() -> (r: Settings)
        ensures
            r == default_settings(),
    {
        Settings { hour_format: HourFormat::H24, show_seconds: true, theme: Theme::Classic }
    }
}

/// The strftime pattern of the clock for an hour format and a choice of seconds.
pub open spec fn pattern_of(hour_format: HourFormat, show_seconds: bool) -> Seq<char> {
    match (hour_format, show_seconds) {
        (HourFormat::H24, true) => "%H:%M:%S"@,
        (HourFormat::H24, false) => "%H:%M"@,
        (HourFormat::H12, true) => "%I:%M:%S"@,
        (HourFormat::H12, false) => "%I:%M"@,
    }
}

impl Settings {
    /// The strftime pattern with which the clock shows the time under these settings.
    pub fn time_pattern(&self) -> (r: &'static str)
        ensures
            r@ == pattern_of(self.hour_format, self.show_seconds),
    {
        match (self.hour_format, self.show_seconds) {
            (HourFormat::H24, true) => "%H:%M:%S",
            (HourFormat::H24, false) => "%H:%M",
            (HourFormat::H12, true) => "%I:%M:%S",
            (HourFormat::H12, false) => "%I:%M",
        }
    }
}

/// The page on screen; the menu and settings pages carry the cursor position.
#[derive(Clone, Copy, Debug, PartialEq, Eq, Structural)]
pub enum Screen {
    Clock,
    Menu { selected: usize },
    Settings { selected: usize },
    About,
}

/// A key, as far as the application tells keys apart.
#[derive(Clone, Copy, Debug, PartialEq, Eq, Structural)]
pub enum KeyCode {
    Esc,
    Up,
    Down,
    Left,
    Right,
    Enter,
    Char(char),
    /// Any other key; no page reacts to it.
    Other,
}

/// A key press: the key and whether Control was held.
#[derive(Clone, Copy, Debug, PartialEq, Eq, Structural)]
pub struct KeyEvent {
    pub code: KeyCode,
    pub ctrl: bool,
}

#[derive(Debug, PartialEq, Eq, Structural)]
pub struct App {
    pub screen: Screen,
    pub should_quit: bool,
    pub settings: Settings,
}

/// The cursor of the menu and settings pages lies on one of their entries.
pub open spec fn selection_in_range(s: Screen) -> bool {
    match s {
        Screen::Menu { selected } => selected < menu_len(),
        Screen::Settings { selected } => selected < settings_len(),
        _ => true,
    }
}

/// Moving the cursor down (to `selected + 1`) cannot overflow.
pub open spec fn cursor_can_move(s: Screen) -> bool {
    match s {
        Screen::Menu { selected } => selected < usize::MAX,
        Screen::Settings { selected } => selected < usize::MAX,
        _ => true,
    }
}

/// Control+C: quits from any page.
pub open spec fn is_interrupt(key: KeyEvent) -> bool {
    key.ctrl && key.code == KeyCode::Char('c')
}

/// Cursor one entry up, wrapping from the first entry to the last.
pub open spec fn cursor_up(selected: usize, len: int) -> usize {
    if selected == 0 {
        (len - 1) as usize
    } else {
        (selected - 1) as usize
    }
}

/// Cursor one entry down, wrapping from the last entry to the first.
pub open spec fn cursor_down(selected: usize, len: int) -> usize {
    ((selected + 1) % len) as usize
}

/// The settings after Left or Right on the settings entry `selected`.
pub open spec fn adjusted(s: Settings, selected: usize) -> Settings {
    if selected == 0 {
        Settings { hour_format: hour_toggled(s.hour_format), ..s }
    } else if selected == 1 {
        Settings { show_seconds: !s.show_seconds, ..s }
    } else if selected == 2 {
        Settings { theme: theme_next(s.theme), ..s }
    } else {
        s
    }
}

/// The page, quit flag and settings after one key press.
pub open spec fn after_key(screen: Screen, quit: bool, settings: Settings, key: KeyEvent) -> (
    Screen,
    bool,
    Settings,
) {
    if is_interrupt(key) {
        (screen, true, settings)
    } else {
        match screen {
            Screen::Clock => match key.code {
                KeyCode::Esc => (Screen::Menu { selected: 0 }, quit, settings),
                KeyCode::Char(c) => if c == 'q' || c == 'Q' {
                    (screen, true, settings)
                } else {
                    (screen, quit, settings)
                },
                _ => (screen, quit, settings),
            },
            Screen::Menu { selected } => match key.code {
                KeyCode::Esc => (Screen::Clock, quit, settings),
                KeyCode::Up => (
                    Screen::Menu { selected: cursor_up(selected, menu_len()) },
                    quit,
                    settings,
                ),
                KeyCode::Down => (
                    Screen::Menu { selected: cursor_down(selected, menu_len()) },
                    quit,
                    settings,
                ),
                KeyCode::Enter => if selected == 0 {
                    (Screen::Clock, quit, settings)
                } else if selected == 1 {
                    (Screen::Settings { selected: 0 }, quit, settings)
                } else if selected == 2 {
                    (Screen::About, quit, settings)
                } else if selected == 3 {
                    (screen, true, settings)
                } else {
                    (screen, quit, settings)
                },
                _ => (screen, quit, settings),
            },
            Screen::Settings { selected } => match key.code {
                KeyCode::Esc => (Screen::Menu { selected: 1 }, quit, settings),
                KeyCode::Up => (
                    Screen::Settings { selected: cursor_up(selected, settings_len()) },
                    quit,
                    settings,
                ),
                KeyCode::Down => (
                    Screen::Settings { selected: cursor_down(selected, settings_len()) },
                    quit,
                    settings,
                ),
                KeyCode::Left => (screen, quit, adjusted(settings, selected)),
                KeyCode::Right => (screen, quit, adjusted(settings, selected)),
                _ => (screen, quit, settings),
            },
            Screen::About => match key.code {
                KeyCode::Esc => (Screen::Menu { selected: 2 }, quit, settings),
                _ => (screen, quit, settings),
            },
        }
    }
}

impl App {
    /// A fresh application showing the clock with the given settings.
    pub fn new(settings: Settings) -> (r: App)
        ensures
            r.screen == Screen::Clock,
            !r.should_quit,
            r.settings == settings,
    {
        App { screen: Screen::Clock, should_quit: false, settings }
    }

    /// Applies one key press to the page, the quit flag and the settings.
    pub fn handle_key(&mut self, key: KeyEvent)
        requires
            key.code == KeyCode::Down ==> cursor_can_move(old(self).screen),
        ensures
            (final(self).screen, final(self).should_quit, final(self).settings) == after_key(
                old(self).screen,
                old(self).should_quit,
                old(self).settings,
                key,
            ),
    {
        if key.ctrl && key.code == KeyCode::Char('c') {
            self.should_quit = true;
            return;
        }
        let mut next: Option<Screen> = None;
        match self.screen {
            Screen::Clock => match key.code {
                KeyCode::Esc => next = Some(Screen::Menu { selected: 0 }),
                KeyCode::Char('q') | KeyCode::Char('Q') => self.should_quit = true,
                _ => {},
            },
            Screen::Menu { selected } => match key.code {
                KeyCode::Esc => next = Some(Screen::Clock),
                KeyCode::Up => {
                    let n = MENU_ITEMS.len();
                    next = Some(
                        Screen::Menu {
                            selected: if selected == 0 {
                                n - 1
                            } else {
                                selected - 1
                            },
                        },
                    );
                },
                KeyCode::Down => {
                    next = Some(Screen::Menu { selected: (selected + 1) % MENU_ITEMS.len() });
                },
                KeyCode::Enter => match selected {
                    0 => next = Some(Screen::Clock),
                    1 => next = Some(Screen::Settings { selected: 0 }),
                    2 => next = Some(Screen::About),
                    3 => self.should_quit = true,
                    _ => {},
                },
                _ => {},
            },
            Screen::Settings { selected } => match key.code {
                KeyCode::Esc => next = Some(Screen::Menu { selected: 1 }),
                KeyCode::Up => {
                    let n = SETTINGS_ITEMS.len();
                    next = Some(
                        Screen::Settings {
                            selected: if selected == 0 {
                                n - 1
                            } else {
                                selected - 1
                            },
                        },
                    );
                },
                KeyCode::Down => {
                    next = Some(
                        Screen::Settings { selected: (selected + 1) % SETTINGS_ITEMS.len() },
                    );
                },
                KeyCode::Left | KeyCode::Right => match selected {
                    0 => self.settings.hour_format = self.settings.hour_format.toggled(),
                    1 => self.settings.show_seconds = !self.settings.show_seconds,
                    2 => self.settings.theme = self.settings.theme.next(),
                    _ => {},
                },
                _ => {},
            },
            Screen::About => {
                if key.code == KeyCode::Esc {
                    next = Some(Screen::Menu { selected: 2 });
                }
            },
        }
        if let Some(s) = next {
            self.screen = s;
        }
    }

    /// How long the main loop waits for a key before drawing again, in
    /// milliseconds: the clock redraws every second, other pages only on input.
    pub fn poll_timeout_ms(&self) -> (r: u64)
        ensures
            r == (if self.screen == Screen::Clock {
                1000u64
            } else {
                3_600_000u64
            }),
    {
        match self.screen {
            Screen::Clock => 1000,
            _ => 3_600_000,
        }
    }
}

/// A label names its hour format: reading it back, in any ASCII case, gives the format.
pub proof fn lemma_hour_from_name_label(f: HourFormat, s: Seq<char>)
    requires
        eq_ignore_ascii_case(s, hour_label(f)),
    ensures
        hour_from_name(s) == Some(f),
{
    reveal_strlit("24H");
    reveal_strlit("12H");
    if f == HourFormat::H12 {
        let a = hour_label(HourFormat::H24);
        assert(ascii_lower(s[0]) == ascii_lower('1'));
        assert(!eq_ignore_ascii_case(a, s)) by {
            if eq_ignore_ascii_case(a, s) {
                assert(ascii_lower(a[0]) == ascii_lower(s[0]));
            }
        }
    }
}

/// Toggling the hour format twice gives it back.
pub proof fn lemma_toggled_involution(f: HourFormat)
    ensures
        hour_toggled(hour_toggled(f)) == f,
        hour_toggled(f) != f,
{
}

/// Control+C quits from every page and leaves page and settings alone.
pub proof fn lemma_interrupt_quits(screen: Screen, quit: bool, settings: Settings, key: KeyEvent)
    requires
        is_interrupt(key),
    ensures
        after_key(screen, quit, settings, key) == (screen, true, settings),
{
}

/// Once the application is to quit, no key press takes that back.
pub proof fn lemma_quit_is_final(screen: Screen, settings: Settings, key: KeyEvent)
    ensures
        after_key(screen, true, settings, key).1,
{
}

/// The cursor of the menu and settings pages never leaves their entries.
pub proof fn lemma_selection_stays_in_range(
    screen: Screen,
    quit: bool,
    settings: Settings,
    key: KeyEvent,
)
    requires
        selection_in_range(screen),
    ensures
        selection_in_range(after_key(screen, quit, settings, key).0),
{
}

/// Only Left and Right on the settings page change the settings.
pub proof fn lemma_settings_change_only_on_settings_page(
    screen: Screen,
    quit: bool,
    settings: Settings,
    key: KeyEvent,
)
    requires
        after_key(screen, quit, settings, key).2 != settings,
    ensures
        screen is Settings,
        key.code == KeyCode::Left || key.code == KeyCode::Right,
{
}

/// Up followed by Down, and Down followed by Up, leave the cursor where it was.
pub proof fn lemma_up_down_inverse(
    screen: Screen,
    quit: bool,
    settings: Settings,
    up: KeyEvent,
    down: KeyEvent,
)
    requires
        screen is Menu || screen is Settings,
        selection_in_range(screen),
        up.code == KeyCode::Up,
        down.code == KeyCode::Down,
    ensures
        ({
            let (s1, q1, t1) = after_key(screen, quit, settings, up);
            after_key(s1, q1, t1, down) == (screen, quit, settings)
        }),
        ({
            let (s1, q1, t1) = after_key(screen, quit, settings, down);
            after_key(s1, q1, t1, up) == (screen, quit, settings)
        }),
{
}

/// Opening a page from the menu and leaving it with Esc brings the cursor back
/// to the entry that opened it.
pub proof fn lemma_enter_then_escape(
    selected: usize,
    quit: bool,
    settings: Settings,
    enter: KeyEvent,
    esc: KeyEvent,
)
    requires
        selected < 3,
        enter.code == KeyCode::Enter,
        esc.code == KeyCode::Esc,
    ensures
        ({
            let (s1, q1, t1) = after_key(Screen::Menu { selected }, quit, settings, enter);
            after_key(s1, q1, t1, esc) == (Screen::Menu { selected }, quit, settings)
        }),
{
}

/// On the settings page, Left or Right twice restores the hour format and the
/// seconds choice, and three times restores the theme.
pub proof fn lemma_adjust_cycles(s: Settings, selected: usize)
    requires
        selected < 3,
    ensures
        selected < 2 ==> adjusted(adjusted(s, selected), selected) == s,
        adjusted(adjusted(adjusted(s, 2), 2), 2) == s,
        adjusted(s, selected) != s,
{
}


/// A key press sets the quit flag exactly for Control+C, for q or Q on the
/// clock page, and for Enter on the menu's Quit entry.
pub proof fn lemma_quit_keys(screen: Screen, settings: Settings, key: KeyEvent)
    ensures
        after_key(screen, false, settings, key).1 <==> {
            ||| key.ctrl && key.code == KeyCode::Char('c')
            ||| screen == Screen::Clock && (key.code == KeyCode::Char('q') || key.code
                == KeyCode::Char('Q'))
            ||| screen == (Screen::Menu { selected: 3 }) && key.code == KeyCode::Enter
        },
{
}

} // verus!
