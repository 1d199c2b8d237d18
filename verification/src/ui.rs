//! What each page puts on the terminal: the text of every line and where it
//! goes, or the notice that the terminal is too small. Writing the result to
//! the terminal is left to the caller.
use vstd::prelude::*;

use crate::font::{
    glyph_for, glyph_of, lemma_glyphs_well_shaped, well_shaped, Glyph, FILL, GLYPH_GAP, GLYPH_HEIGHT,
    GLYPH_WIDTH,
};
use crate::app::{
    hour_from_name, hour_label, lemma_hour_from_name_label, menu_len, pattern_of, settings_len, App, HourFormat, Screen, Settings, MENU_ITEMS,
    SETTINGS_ITEMS,
};
use crate::clock::{format_time, time_text, ClockTime};
use crate::theme::{lemma_from_name_label, theme_from_name, theme_label};
use crate::text::{
    chars_of, is_whitespace, join, lemma_trim_end_padding, lemma_trim_unchanged, stripped, trim,
    trim_start, Strip,
};

verus! {

/// A line of text at a terminal position (column `x`, row `y`).
#[derive(Clone, Debug, PartialEq, Eq)]
pub struct Placed {
    pub x: u16,
    pub y: u16,
    pub text: String,
}

pub open spec fn placed_view(p: Placed) -> (int, int, Seq<char>) {
    (p.x as int, p.y as int, p.text@)
}

pub open spec fn placed_views(v: Seq<Placed>) -> Seq<(int, int, Seq<char>)> {
    v.map_values(|p: Placed| placed_view(p))
}

/// One screenful, by page.
#[derive(Clone, Debug, PartialEq, Eq)]
pub enum Frame {
    /// The terminal is too small for the page: a centred notice instead.
    Message(Placed),
    /// The time in large glyphs, one entry per glyph row; row `i` takes the
    /// colour of the theme's gradient at `i / span`. In 12-hour mode the
    /// AM/PM marker sits under the right edge, in the bottom colour.
    Clock { rows: Vec<Placed>, span: usize, meridiem: Option<Placed> },
    Menu(Vec<Placed>),
    Settings(Vec<Placed>),
    /// A block of lines, such as the About page.
    Lines(Vec<Placed>),
}

/// A frame as positions and texts.
pub enum FrameView {
    Message((int, int, Seq<char>)),
    Clock {
        rows: Seq<(int, int, Seq<char>)>,
        span: int,
        meridiem: Option<(int, int, Seq<char>)>,
    },
    Menu(Seq<(int, int, Seq<char>)>),
    Settings(Seq<(int, int, Seq<char>)>),
    Lines(Seq<(int, int, Seq<char>)>),
}

impl View for Frame {
    type V = FrameView;

    open spec fn view(&self) -> FrameView {
        match self {
            Frame::Message(p) => FrameView::Message(placed_view(*p)),
            Frame::Clock { rows, span, meridiem } => FrameView::Clock {
                rows: placed_views(rows@),
                span: *span as int,
                meridiem: match meridiem {
                    Some(m) => Some(placed_view(*m)),
                    None => None,
                },
            },
            Frame::Menu(v) => FrameView::Menu(placed_views(v@)),
            Frame::Settings(v) => FrameView::Settings(placed_views(v@)),
            Frame::Lines(v) => FrameView::Lines(placed_views(v@)),
        }
    }
}

/// `s` padded on the right with blanks to `width` characters; a longer `s` stays whole.
pub open spec fn pad_right(s: Seq<char>, width: int) -> Seq<char> {
    if s.len() < width {
        s + Seq::new((width - s.len()) as nat, |i: int| ' ')
    } else {
        s
    }
}

/// `a - b`, or 0 when `b` is larger.
pub open spec fn sat_sub(a: int, b: int) -> int {
    if a > b {
        a - b
    } else {
        0
    }
}

/// The glyphs of the characters of `text` that the clock face can show, in order.
pub open spec fn glyphs_in(text: Seq<char>, colon_on: bool) -> Seq<Glyph>
    decreases text.len(),
{
    if text.len() == 0 {
        Seq::empty()
    } else {
        let rest = glyphs_in(text.drop_last(), colon_on);
        match glyph_of(text.last(), colon_on) {
            Some(g) => rest.push(g),
            None => rest,
        }
    }
}

/// A glyph row on screen: filled cells become `FILL`, the others blanks.
pub open spec fn painted(row: Seq<char>) -> Seq<char> {
    Seq::new(row.len(), |j: int| if row[j] == '#' { FILL } else { ' ' })
}

pub open spec fn blanks(n: int) -> Seq<char> {
    Seq::new(n as nat, |i: int| ' ')
}

/// Row `i` of the glyphs side by side, `GLYPH_GAP` blanks apart.
pub open spec fn glyph_row(glyphs: Seq<Glyph>, i: int) -> Seq<char> {
    join(glyphs.map_values(|g: Glyph| painted(g@[i]@)), blanks(GLYPH_GAP as int))
}

/// Columns taken by `n` glyphs side by side.
pub open spec fn text_width(n: int) -> int {
    if n == 0 {
        0
    } else {
        n * GLYPH_WIDTH + (n - 1) * GLYPH_GAP
    }
}

/// Appends `row` with filled cells painted.
fn append_painted(out: &mut String, row: &str)
    ensures
        final(out)@ == old(out)@ + painted(row@),
{
    let cells = chars_of(row);
    let ghost start = out@;
    let mut j: usize = 0;
    while j < cells.len()
        invariant
            cells@ == row@,
            0 <= j <= cells@.len(),
            out@ == start + painted(row@).take(j as int),
        decreases cells@.len() - j,
    {
        proof {
            reveal_strlit("\u{2593}");
            reveal_strlit(" ");
        }
        if cells[j] == '#' {
            out.append("\u{2593}");
        } else {
            out.append(" ");
        }
        assert(painted(row@).take(j + 1) =~= painted(row@).take(j as int) + seq![
            painted(row@)[j as int],
        ]);
        j = j + 1;
    }
    assert(painted(row@).take(cells@.len() as int) =~= painted(row@));
}

/// Appends `n` blanks.
fn append_blanks(out: &mut String, n: usize)
    ensures
        final(out)@ == old(out)@ + blanks(n as int),
{
    let ghost start = out@;
    let mut k: usize = 0;
    while k < n
        invariant
            0 <= k <= n,
            out@ == start + blanks(k as int),
        decreases n - k,
    {
        proof {
            reveal_strlit(" ");
        }
        out.append(" ");
        assert(blanks(k + 1) =~= blanks(k as int) + seq![' ']);
        k = k + 1;
    }
}

/// The rows of `text` in large glyphs. Characters without a glyph are skipped;
/// every row has the width of the glyphs shown.
pub fn render_text(text: &str, colon_on: bool) -> (rows: Vec<String>)
    ensures
        rows@.len() == GLYPH_HEIGHT,
        forall|i: int|
            0 <= i < GLYPH_HEIGHT ==> (#[trigger] rows@[i])@ == glyph_row(
                glyphs_in(text@, colon_on),
                i,
            ),
        forall|i: int|
            0 <= i < GLYPH_HEIGHT ==> (#[trigger] rows@[i])@.len() == text_width(
                glyphs_in(text@, colon_on).len() as int,
            ),
{
    let chars = chars_of(text);
    let mut glyphs: Vec<Glyph> = Vec::new();
    let mut k: usize = 0;
    while k < chars.len()
        invariant
            chars@ == text@,
            0 <= k <= chars@.len(),
            glyphs@ == glyphs_in(chars@.take(k as int), colon_on),
            forall|m: int| 0 <= m < glyphs@.len() ==> well_shaped(#[trigger] glyphs@[m]),
        decreases chars@.len() - k,
    {
        assert(chars@.take(k + 1).drop_last() =~= chars@.take(k as int));
        proof {
            lemma_glyphs_well_shaped(chars@[k as int], colon_on);
        }
        if let Some(g) = glyph_for(chars[k], colon_on) {
            glyphs.push(*g);
        }
        k = k + 1;
    }
    assert(chars@.take(chars@.len() as int) =~= chars@);
    let ghost all = glyphs@;
    let mut rows: Vec<String> = Vec::new();
    let mut i: usize = 0;
    while i < GLYPH_HEIGHT
        invariant
            glyphs@ == all,
            all == glyphs_in(text@, colon_on),
            forall|m: int| 0 <= m < all.len() ==> well_shaped(#[trigger] all[m]),
            0 <= i <= GLYPH_HEIGHT,
            rows@.len() == i,
            forall|r: int| 0 <= r < i ==> (#[trigger] rows@[r])@ == glyph_row(all, r),
            forall|r: int|
                0 <= r < i ==> (#[trigger] rows@[r])@.len() == text_width(all.len() as int),
        decreases GLYPH_HEIGHT - i,
    {
        let ghost parts = all.map_values(|g: Glyph| painted(g@[i as int]@));
        let mut row = String::new();
        let mut k: usize = 0;
        while k < glyphs.len()
            invariant
                glyphs@ == all,
                forall|m: int| 0 <= m < all.len() ==> well_shaped(#[trigger] all[m]),
                0 <= i < GLYPH_HEIGHT,
                parts == all.map_values(|g: Glyph| painted(g@[i as int]@)),
                0 <= k <= all.len(),
                row@ == join(parts.take(k as int), blanks(GLYPH_GAP as int)),
                row@.len() == text_width(k as int),
            decreases all.len() - k,
        {
            if k > 0 {
                append_blanks(&mut row, GLYPH_GAP);
            }
            append_painted(&mut row, glyphs[k][i]);
            assert(parts.take(k + 1).drop_last() =~= parts.take(k as int));
            proof {
                if k == 0 {
                    assert(join(parts.take(0), blanks(GLYPH_GAP as int)) =~= Seq::empty());
                }
                assert(all[k as int]@[i as int]@.len() == GLYPH_WIDTH);
            }
            k = k + 1;
        }
        assert(parts.take(all.len() as int) =~= parts);
        rows.push(row);
        i = i + 1;
    }
    rows
}


/// Shown instead of a page when the terminal is too small for it.
pub const NOT_ENOUGH_ROOM: &'static str =
    "Not enough room for clock! Widen or heighten your terminal.";

/// Columns of a menu entry's name.
pub const ITEM_W: usize = 10;

/// Columns of a menu line: cursor mark, blank, entry name.
pub const LINE_W: usize = 2 + ITEM_W;

/// Columns of a settings entry's name; the longest is "Hour format".
pub const LABEL_W: usize = 11;

/// Columns of a settings value; the longest is "Classic".
pub const VALUE_W: usize = 7;

/// Columns of a settings line: cursor mark, blank, name, two blanks, value.
pub const SETTINGS_LINE_W: usize = 2 + LABEL_W + 2 + VALUE_W;

pub const ABOUT_NAME: &'static str = "tui_clock";

pub const ABOUT_VERSION: &'static str = "0.1.0";

pub const ABOUT_DESC: &'static str = "Hand-written with crossterm, no ratatui";

pub const ABOUT_AUTHOR: &'static str = "Violet_BlackCat";

pub const ABOUT_HINT: &'static str = "Esc - go back";

/// Columns of a label on the About page; the longest are "Author" and "Config".
pub const ABOUT_LABEL_W: usize = 8;

/// Rows taken by a list of `n` entries with a blank row between neighbours.
pub open spec fn list_height(n: int) -> int {
    2 * n - 1
}

/// The too-small notice, centred: half the free columns to its left, on the middle row.
/// Its width is taken modulo 2^16, as a terminal coordinate holds it.
pub open spec fn message_view(w: int, h: int, msg: Seq<char>) -> FrameView {
    FrameView::Message((sat_sub(w, msg.len() as int % 65536) / 2, h / 2, msg))
}

/// Places `msg` in the middle of the terminal.
pub fn draw_message(term_w: u16, term_h: u16, msg: &str) -> (r: Frame)
    ensures
        r@ == message_view(term_w as int, term_h as int, msg@),
{
    let n = chars_of(msg).len();
    let msg_w = (n % 65536) as u16;
    let x = term_w.saturating_sub(msg_w) / 2;
    let y = term_h / 2;
    Frame::Message(Placed { x, y, text: msg.to_owned() })
}

/// Appends `s` padded with blanks to `width` characters.
fn append_padded(out: &mut String, s: &str, width: usize)
    ensures
        final(out)@ == old(out)@ + pad_right(s@, width as int),
{
    let n = chars_of(s).len();
    out.append(s);
    if n < width {
        append_blanks(out, width - n);
        assert(blanks((width - n) as int) =~= Seq::new((width - n) as nat, |i: int| ' '));
    }
}

/// The cursor mark of entry `i` and the blank after it.
pub open spec fn marker(i: int, selected: int) -> Seq<char> {
    seq![if i == selected { '>' } else { ' ' }, ' ']
}

fn append_marker(out: &mut String, i: usize, selected: usize)
    ensures
        final(out)@ == old(out)@ + marker(i as int, selected as int),
{
    proof {
        reveal_strlit("> ");
        reveal_strlit("  ");
    }
    if i == selected {
        out.append("> ");
    } else {
        out.append("  ");
    }
}

pub open spec fn menu_line(i: int, selected: int) -> Seq<char> {
    marker(i, selected) + pad_right(MENU_ITEMS@[i]@, ITEM_W as int)
}

/// The main menu, centred, the entries on every other row, the cursor marked with `>`.
pub open spec fn menu_view(w: int, h: int, selected: int) -> FrameView {
    if w < LINE_W || h < list_height(menu_len()) {
        message_view(w, h, NOT_ENOUGH_ROOM@)
    } else {
        let x = (w - LINE_W) / 2;
        let y = (h - list_height(menu_len())) / 2;
        FrameView::Menu(
            Seq::new(menu_len() as nat, |i: int| (x, y + 2 * i, menu_line(i, selected))),
        )
    }
}

/// The main menu with the cursor on entry `selected`.
pub fn draw_menu(term_w: u16, term_h: u16, selected: usize) -> (r: Frame)
    ensures
        r@ == menu_view(term_w as int, term_h as int, selected as int),
{
    let n = MENU_ITEMS.len();
    let block_h = 2 * n - 1;
    if (term_w as usize) < LINE_W || (term_h as usize) < block_h {
        return draw_message(term_w, term_h, NOT_ENOUGH_ROOM);
    }
    let start_y = ((term_h as usize) - block_h) / 2;
    let x = ((term_w as usize) - LINE_W) / 2;
    let mut lines: Vec<Placed> = Vec::new();
    let mut i: usize = 0;
    while i < n
        invariant
            n == menu_len(),
            block_h == list_height(menu_len()),
            term_h as int >= block_h,
            term_w as int >= LINE_W,
            start_y == (term_h as int - block_h) / 2,
            x == (term_w as int - LINE_W) / 2,
            0 <= i <= n,
            placed_views(lines@) =~= Seq::new(
                i as nat,
                |k: int| (x as int, start_y + 2 * k, menu_line(k, selected as int)),
            ),
        decreases n - i,
    {
        let mut label = String::new();
        append_marker(&mut label, i, selected);
        append_padded(&mut label, MENU_ITEMS[i], ITEM_W);
        let y = start_y + i * 2;
        let ghost before = lines@;
        lines.push(Placed { x: x as u16, y: y as u16, text: label });
        assert(placed_views(lines@) =~= placed_views(before).push(
            (x as int, y as int, menu_line(i as int, selected as int)),
        ));
        i = i + 1;
    }
    Frame::Menu(lines)
}


/// The value shown for settings entry `i`.
pub open spec fn setting_value(i: int, s: Settings) -> Seq<char> {
    if i == 0 {
        hour_label(s.hour_format)
    } else if i == 1 {
        if s.show_seconds {
            "on"@
        } else {
            "off"@
        }
    } else if i == 2 {
        theme_label(s.theme)
    } else {
        "?"@
    }
}

pub open spec fn settings_line(i: int, selected: int, s: Settings) -> Seq<char> {
    marker(i, selected) + pad_right(SETTINGS_ITEMS@[i]@, LABEL_W as int) + "  "@ + pad_right(
        setting_value(i, s),
        VALUE_W as int,
    )
}

/// The settings page, centred: entry names on the left, current values on the right.
pub open spec fn settings_view(w: int, h: int, selected: int, s: Settings) -> FrameView {
    if w < SETTINGS_LINE_W || h < list_height(settings_len()) {
        message_view(w, h, NOT_ENOUGH_ROOM@)
    } else {
        let x = (w - SETTINGS_LINE_W) / 2;
        let y = (h - list_height(settings_len())) / 2;
        FrameView::Settings(
            Seq::new(
                settings_len() as nat,
                |i: int| (x, y + 2 * i, settings_line(i, selected, s)),
            ),
        )
    }
}

/// The settings page with the cursor on entry `selected`.
pub fn draw_settings(term_w: u16, term_h: u16, selected: usize, settings: &Settings) -> (r: Frame)
    ensures
        r@ == settings_view(term_w as int, term_h as int, selected as int, *settings),
{
    let n = SETTINGS_ITEMS.len();
    let block_h = 2 * n - 1;
    if (term_w as usize) < SETTINGS_LINE_W || (term_h as usize) < block_h {
        return draw_message(term_w, term_h, NOT_ENOUGH_ROOM);
    }
    let start_y = ((term_h as usize) - block_h) / 2;
    let x = ((term_w as usize) - SETTINGS_LINE_W) / 2;
    let mut lines: Vec<Placed> = Vec::new();
    let mut i: usize = 0;
    while i < n
        invariant
            n == settings_len(),
            block_h == list_height(settings_len()),
            term_h as int >= block_h,
            term_w as int >= SETTINGS_LINE_W,
            start_y == (term_h as int - block_h) / 2,
            x == (term_w as int - SETTINGS_LINE_W) / 2,
            0 <= i <= n,
            placed_views(lines@) =~= Seq::new(
                i as nat,
                |k: int| (x as int, start_y + 2 * k, settings_line(k, selected as int, *settings)),
            ),
        decreases n - i,
    {
        let value: &str = match i {
            0 => settings.hour_format.label(),
            1 => if settings.show_seconds {
                "on"
            } else {
                "off"
            },
            2 => settings.theme.label(),
            _ => "?",
        };
        let mut line = String::new();
        append_marker(&mut line, i, selected);
        append_padded(&mut line, SETTINGS_ITEMS[i], LABEL_W);
        line.append("  ");
        append_padded(&mut line, value, VALUE_W);
        let y = start_y + i * 2;
        let ghost before = lines@;
        lines.push(Placed { x: x as u16, y: y as u16, text: line });
        assert(placed_views(lines@) =~= placed_views(before).push(
            (x as int, y as int, settings_line(i as int, selected as int, *settings)),
        ));
        i = i + 1;
    }
    Frame::Settings(lines)
}

/// Characters in the longest of the lines; 0 for none.
pub open spec fn max_width(lines: Seq<Seq<char>>) -> int
    decreases lines.len(),
{
    if lines.len() == 0 {
        0
    } else {
        let w = max_width(lines.drop_last());
        if lines.last().len() > w {
            lines.last().len() as int
        } else {
            w
        }
    }
}

/// A block of lines, left-aligned among themselves and centred as a whole.
pub open spec fn lines_view(w: int, h: int, lines: Seq<Seq<char>>) -> FrameView {
    if w < max_width(lines) || h < lines.len() {
        message_view(w, h, NOT_ENOUGH_ROOM@)
    } else {
        let x = (w - max_width(lines)) / 2;
        let y = (h - lines.len()) / 2;
        FrameView::Lines(Seq::new(lines.len(), |i: int| (x, y + i, lines[i])))
    }
}

pub open spec fn string_views(lines: Seq<String>) -> Seq<Seq<char>> {
    lines.map_values(|l: String| l@)
}

/// Places a block of lines in the middle of the terminal.
pub fn draw_lines(term_w: u16, term_h: u16, lines: &Vec<String>) -> (r: Frame)
    ensures
        r@ == lines_view(term_w as int, term_h as int, string_views(lines@)),
{
    let ghost views = string_views(lines@);
    let mut block_w: usize = 0;
    let mut i: usize = 0;
    while i < lines.len()
        invariant
            views == string_views(lines@),
            0 <= i <= lines@.len(),
            block_w == max_width(views.take(i as int)),
        decreases lines@.len() - i,
    {
        let n = chars_of(lines[i].as_str()).len();
        assert(views.take(i + 1).drop_last() =~= views.take(i as int));
        if n > block_w {
            block_w = n;
        }
        i = i + 1;
    }
    assert(views.take(lines@.len() as int) =~= views);
    let block_h = lines.len();
    if (term_w as usize) < block_w || (term_h as usize) < block_h {
        return draw_message(term_w, term_h, NOT_ENOUGH_ROOM);
    }
    let x = ((term_w as usize) - block_w) / 2;
    let start_y = ((term_h as usize) - block_h) / 2;
    let mut placed: Vec<Placed> = Vec::new();
    let mut i: usize = 0;
    while i < block_h
        invariant
            views == string_views(lines@),
            block_h == lines@.len(),
            term_h as int >= block_h,
            x <= term_w,
            start_y == (term_h as int - block_h) / 2,
            0 <= i <= block_h,
            placed_views(placed@) =~= Seq::new(
                i as nat,
                |k: int| (x as int, start_y + k, views[k]),
            ),
        decreases block_h - i,
    {
        let ghost before = placed@;
        placed.push(
            Placed { x: x as u16, y: (start_y + i) as u16, text: lines[i].clone() },
        );
        assert(placed_views(placed@) =~= placed_views(before).push(
            (x as int, start_y + i, views[i as int]),
        ));
        i = i + 1;
    }
    Frame::Lines(placed)
}

/// The About page: name and version, description, author, the configuration
/// file's path when known, and how to go back.
pub open spec fn about_lines(config_path: Option<Seq<char>>) -> Seq<Seq<char>> {
    seq![
        ABOUT_NAME@ + " v"@ + ABOUT_VERSION@,
        ABOUT_DESC@,
        Seq::empty(),
        pad_right("Author"@, ABOUT_LABEL_W as int) + " "@ + ABOUT_AUTHOR@,
    ] + match config_path {
        Some(p) => seq![pad_right("Config"@, ABOUT_LABEL_W as int) + " "@ + p],
        None => Seq::empty(),
    } + seq![Seq::empty(), ABOUT_HINT@]
}

pub open spec fn option_view(o: Option<String>) -> Option<Seq<char>> {
    match o {
        Some(s) => Some(s@),
        None => None,
    }
}

/// The About page, given the configuration file's path as it is displayed.
pub fn draw_about(term_w: u16, term_h: u16, config_path: Option<String>) -> (r: Frame)
    ensures
        r@ == lines_view(term_w as int, term_h as int, about_lines(option_view(config_path))),
{
    let mut title = String::new();
    title.append(ABOUT_NAME);
    title.append(" v");
    title.append(ABOUT_VERSION);
    let mut author = String::new();
    append_padded(&mut author, "Author", ABOUT_LABEL_W);
    author.append(" ");
    author.append(ABOUT_AUTHOR);
    let mut lines: Vec<String> = Vec::new();
    lines.push(title);
    lines.push(ABOUT_DESC.to_owned());
    lines.push(String::new());
    lines.push(author);
    if let Some(p) = config_path {
        let mut line = String::new();
        append_padded(&mut line, "Config", ABOUT_LABEL_W);
        line.append(" ");
        line.append(p.as_str());
        lines.push(line);
    }
    lines.push(String::new());
    lines.push(ABOUT_HINT.to_owned());
    assert(string_views(lines@) =~= about_lines(option_view(config_path)));
    draw_lines(term_w, term_h, &lines)
}


/// The clock page: the time in large glyphs, centred, with the AM/PM marker
/// one row below it and flush with its right edge in 12-hour mode. The colon
/// is shown on even seconds.
pub open spec fn clock_view(w: int, h: int, s: Settings, now: ClockTime) -> FrameView {
    let text = time_text(pattern_of(s.hour_format, s.show_seconds), now);
    let glyphs = glyphs_in(text, now.second % 2 == 0);
    let cw = text_width(glyphs.len() as int);
    let twelve = s.hour_format == HourFormat::H12;
    let th = GLYPH_HEIGHT + if twelve {
        2int
    } else {
        0int
    };
    if w < cw || h < th {
        message_view(w, h, NOT_ENOUGH_ROOM@)
    } else {
        let x = (w - cw) / 2;
        let y = (h - th) / 2;
        let m = time_text("%p"@, now);
        FrameView::Clock {
            rows: Seq::new(GLYPH_HEIGHT as nat, |i: int| (x, y + i, glyph_row(glyphs, i))),
            span: GLYPH_HEIGHT - 1,
            meridiem: if twelve {
                Some((sat_sub(x + cw, m.len() as int), y + GLYPH_HEIGHT + 1, m))
            } else {
                None
            },
        }
    }
}

/// The clock page at the time `now`.
pub fn draw_clock(term_w: u16, term_h: u16, settings: &Settings, now: &ClockTime) -> (r: Frame)
    requires
        now.valid(),
    ensures
        r@ == clock_view(term_w as int, term_h as int, *settings, *now),
{
    let now_str = format_time(now, settings.time_pattern());
    let colon_on = now.second % 2 == 0;
    let rows = render_text(now_str.as_str(), colon_on);
    let content_w = chars_of(rows[0].as_str()).len();
    let content_h = rows.len();
    let meridiem = if settings.hour_format.needs_meridiem() {
        Some(format_time(now, "%p"))
    } else {
        None
    };
    let extra_h: usize = if meridiem.is_some() {
        2
    } else {
        0
    };
    let total_h = content_h + extra_h;
    if (term_w as usize) < content_w || (term_h as usize) < total_h {
        return draw_message(term_w, term_h, NOT_ENOUGH_ROOM);
    }
    let x = term_w.saturating_sub(content_w as u16) / 2;
    let y = term_h.saturating_sub(total_h as u16) / 2;
    let span = if content_h - 1 > 1 {
        content_h - 1
    } else {
        1
    };
    let ghost glyphs = glyphs_in(now_str@, colon_on);
    let mut placed: Vec<Placed> = Vec::new();
    let mut i: usize = 0;
    while i < content_h
        invariant
            rows@.len() == GLYPH_HEIGHT,
            content_h == GLYPH_HEIGHT,
            forall|r: int|
                0 <= r < GLYPH_HEIGHT ==> (#[trigger] rows@[r])@ == glyph_row(glyphs, r),
            y as int + content_h <= term_h,
            0 <= i <= content_h,
            placed_views(placed@) =~= Seq::new(
                i as nat,
                |k: int| (x as int, y + k, glyph_row(glyphs, k)),
            ),
        decreases content_h - i,
    {
        let ghost before = placed@;
        placed.push(Placed { x, y: y + i as u16, text: rows[i].clone() });
        assert(placed_views(placed@) =~= placed_views(before).push(
            (x as int, y + i, glyph_row(glyphs, i as int)),
        ));
        i = i + 1;
    }
    let marker = match meridiem {
        Some(m) => {
            let m_w = chars_of(m.as_str()).len();
            let mx = ((x as usize) + content_w).saturating_sub(m_w) as u16;
            Some(Placed { x: mx, y: y + content_h as u16 + 1, text: m })
        },
        None => None,
    };
    Frame::Clock { rows: placed, span, meridiem: marker }
}

/// The page that the application shows, as of the time `now`; the About page
/// shows `config_path` when it is known.
pub open spec fn draw_view(
    screen: Screen,
    settings: Settings,
    w: int,
    h: int,
    now: ClockTime,
    config_path: Option<Seq<char>>,
) -> FrameView {
    match screen {
        Screen::Clock => clock_view(w, h, settings, now),
        Screen::Menu { selected } => menu_view(w, h, selected as int),
        Screen::Settings { selected } => settings_view(w, h, selected as int, settings),
        Screen::About => lines_view(w, h, about_lines(config_path)),
    }
}

/// The screenful of the current page.
pub fn draw(app: &App, term_w: u16, term_h: u16, now: &ClockTime, config_path: Option<String>) -> (r:
    Frame)
    requires
        now.valid(),
    ensures
        r@ == draw_view(
            app.screen,
            app.settings,
            term_w as int,
            term_h as int,
            *now,
            option_view(config_path),
        ),
{
    match app.screen {
        Screen::Clock => draw_clock(term_w, term_h, &app.settings, now),
        Screen::Menu { selected } => draw_menu(term_w, term_h, selected),
        Screen::Settings { selected } => draw_settings(term_w, term_h, selected, &app.settings),
        Screen::About => draw_about(term_w, term_h, config_path),
    }
}


/// A placed line lies inside a terminal of `w` columns and `h` rows.
pub open spec fn placed_fits(p: (int, int, Seq<char>), w: int, h: int) -> bool {
    &&& 0 <= p.0
    &&& p.0 + p.2.len() <= w
    &&& 0 <= p.1 < h
}

pub open spec fn all_fit(lines: Seq<(int, int, Seq<char>)>, w: int, h: int) -> bool {
    forall|i: int| 0 <= i < lines.len() ==> placed_fits(#[trigger] lines[i], w, h)
}

/// Every line of a page, other than the too-small notice, lies inside the terminal.
pub open spec fn fits(v: FrameView, w: int, h: int) -> bool {
    match v {
        FrameView::Message(_) => true,
        FrameView::Clock { rows, span, meridiem } => {
            &&& all_fit(rows, w, h)
            &&& meridiem matches Some(m) ==> placed_fits(m, w, h)
        },
        FrameView::Menu(lines) => all_fit(lines, w, h),
        FrameView::Settings(lines) => all_fit(lines, w, h),
        FrameView::Lines(lines) => all_fit(lines, w, h),
    }
}

proof fn lemma_pad_right_len(s: Seq<char>, width: int)
    requires
        s.len() <= width,
    ensures
        pad_right(s, width).len() == width,
{
}

proof fn lemma_max_width(lines: Seq<Seq<char>>)
    ensures
        max_width(lines) >= 0,
        forall|i: int| 0 <= i < lines.len() ==> (#[trigger] lines[i]).len() <= max_width(lines),
    decreases lines.len(),
{
    if lines.len() > 0 {
        lemma_max_width(lines.drop_last());
        assert forall|i: int| 0 <= i < lines.len() - 1 implies (#[trigger] lines[i]).len()
            <= max_width(lines) by {
            assert(lines[i] == lines.drop_last()[i]);
        }
    }
}

/// The glyphs of any text are well shaped.
proof fn lemma_glyphs_in_shaped(text: Seq<char>, colon_on: bool)
    ensures
        forall|m: int|
            0 <= m < glyphs_in(text, colon_on).len() ==> well_shaped(
                #[trigger] glyphs_in(text, colon_on)[m],
            ),
    decreases text.len(),
{
    if text.len() > 0 {
        let rest = glyphs_in(text.drop_last(), colon_on);
        lemma_glyphs_in_shaped(text.drop_last(), colon_on);
        lemma_glyphs_well_shaped(text.last(), colon_on);
        assert forall|m: int| 0 <= m < glyphs_in(text, colon_on).len() implies well_shaped(
            #[trigger] glyphs_in(text, colon_on)[m],
        ) by {
            if m < rest.len() {
                assert(well_shaped(rest[m]));
            }
        }
    }
}

/// A text of digits and colons has one glyph per character.
proof fn lemma_glyphs_in_len(text: Seq<char>, colon_on: bool)
    requires
        forall|i: int|
            0 <= i < text.len() ==> ('0' <= #[trigger] text[i] && text[i] <= '9') || text[i]
                == ':',
    ensures
        glyphs_in(text, colon_on).len() == text.len(),
    decreases text.len(),
{
    if text.len() > 0 {
        lemma_glyphs_in_len(text.drop_last(), colon_on);
    }
}

/// Row `i` of well-shaped glyphs takes `text_width` columns.
proof fn lemma_glyph_row_len(glyphs: Seq<Glyph>, i: int)
    requires
        0 <= i < GLYPH_HEIGHT,
        forall|m: int| 0 <= m < glyphs.len() ==> well_shaped(#[trigger] glyphs[m]),
    ensures
        glyph_row(glyphs, i).len() == text_width(glyphs.len() as int),
    decreases glyphs.len(),
{
    if glyphs.len() > 0 {
        let rest = glyphs.drop_last();
        lemma_glyph_row_len(rest, i);
        assert(glyphs.map_values(|g: Glyph| painted(g@[i]@)).drop_last() =~= rest.map_values(
            |g: Glyph| painted(g@[i]@),
        ));
        assert(well_shaped(glyphs[glyphs.len() - 1]));
    }
}

/// The time under one of the clock's patterns is digits and colons, at least five.
proof fn lemma_time_text_digits(s: Settings, now: ClockTime)
    requires
        now.valid(),
    ensures
        ({
            let text = time_text(pattern_of(s.hour_format, s.show_seconds), now);
            &&& text.len() >= 5
            &&& forall|i: int|
                0 <= i < text.len() ==> ('0' <= #[trigger] text[i] && text[i] <= '9') || text[i]
                    == ':'
        }),
{
    reveal_strlit("%H:%M:%S");
    reveal_strlit("%H:%M");
    reveal_strlit("%I:%M:%S");
    reveal_strlit("%I:%M");
    reveal_strlit(":");
}

proof fn lemma_clock_fits(w: int, h: int, s: Settings, now: ClockTime)
    requires
        now.valid(),
    ensures
        fits(clock_view(w, h, s, now), w, h),
{
    let text = time_text(pattern_of(s.hour_format, s.show_seconds), now);
    let glyphs = glyphs_in(text, now.second % 2 == 0);
    lemma_time_text_digits(s, now);
    lemma_glyphs_in_len(text, now.second % 2 == 0);
    lemma_glyphs_in_shaped(text, now.second % 2 == 0);
    reveal_strlit("%p");
    reveal_strlit("AM");
    reveal_strlit("PM");
    if let FrameView::Clock { rows, span, meridiem } = clock_view(w, h, s, now) {
        assert forall|i: int| 0 <= i < rows.len() implies placed_fits(#[trigger] rows[i], w, h) by {
            lemma_glyph_row_len(glyphs, i);
        }
    }
}

/// Every menu line is exactly `LINE_W` characters wide.
pub proof fn lemma_menu_line_width(i: int, selected: int)
    requires
        0 <= i < menu_len(),
    ensures
        menu_line(i, selected).len() == LINE_W,
{
    reveal_strlit("Back");
    reveal_strlit("Settings");
    reveal_strlit("About");
    reveal_strlit("Quit");
    lemma_pad_right_len(MENU_ITEMS@[i]@, ITEM_W as int);
}

/// Every settings line is exactly `SETTINGS_LINE_W` characters wide.
pub proof fn lemma_settings_line_width(i: int, selected: int, s: Settings)
    requires
        0 <= i < settings_len(),
    ensures
        settings_line(i, selected, s).len() == SETTINGS_LINE_W,
{
    reveal_strlit("Hour format");
    reveal_strlit("Seconds");
    reveal_strlit("Theme");
    reveal_strlit("  ");
    reveal_strlit("on");
    reveal_strlit("off");
    reveal_strlit("24H");
    reveal_strlit("12H");
    reveal_strlit("Classic");
    reveal_strlit("Sunset");
    reveal_strlit("Ocean");
    lemma_pad_right_len(SETTINGS_ITEMS@[i]@, LABEL_W as int);
    lemma_pad_right_len(setting_value(i, s), VALUE_W as int);
}

proof fn lemma_menu_fits(w: int, h: int, selected: int)
    ensures
        fits(menu_view(w, h, selected), w, h),
{
    if let FrameView::Menu(lines) = menu_view(w, h, selected) {
        assert forall|i: int| 0 <= i < lines.len() implies placed_fits(#[trigger] lines[i], w, h) by {
            lemma_menu_line_width(i, selected);
        }
    }
}

proof fn lemma_settings_fits(w: int, h: int, selected: int, s: Settings)
    ensures
        fits(settings_view(w, h, selected, s), w, h),
{
    if let FrameView::Settings(lines) = settings_view(w, h, selected, s) {
        assert forall|i: int| 0 <= i < lines.len() implies placed_fits(#[trigger] lines[i], w, h) by {
            lemma_settings_line_width(i, selected, s);
        }
    }
}

proof fn lemma_lines_fit(w: int, h: int, lines: Seq<Seq<char>>)
    ensures
        fits(lines_view(w, h, lines), w, h),
{
    lemma_max_width(lines);
}

/// Whatever the page, every line drawn lies inside the terminal; a page that
/// would not fit is replaced by the too-small notice.
pub proof fn lemma_draw_fits(
    screen: Screen,
    settings: Settings,
    w: int,
    h: int,
    now: ClockTime,
    config_path: Option<Seq<char>>,
)
    requires
        now.valid(),
    ensures
        fits(draw_view(screen, settings, w, h, now, config_path), w, h),
{
    match screen {
        Screen::Clock => lemma_clock_fits(w, h, settings, now),
        Screen::Menu { selected } => lemma_menu_fits(w, h, selected as int),
        Screen::Settings { selected } => lemma_settings_fits(w, h, selected as int, settings),
        Screen::About => lemma_lines_fit(w, h, about_lines(config_path)),
    }
}


/// The characters the clock face has glyphs for.
pub open spec fn has_glyph(c: char) -> bool {
    ('0' <= c && c <= '9') || c == ':'
}

/// A character has a glyph exactly when it is a digit or a colon.
pub proof fn lemma_glyph_of_some(c: char, colon_on: bool)
    ensures
        glyph_of(c, colon_on) is Some <==> has_glyph(c),
{
}

/// The glyphs of two texts put together are the glyphs of the first, then of the second.
pub proof fn lemma_glyphs_in_concat(a: Seq<char>, b: Seq<char>, colon_on: bool)
    ensures
        glyphs_in(a + b, colon_on) == glyphs_in(a, colon_on) + glyphs_in(b, colon_on),
    decreases b.len(),
{
    if b.len() == 0 {
        assert(a + b =~= a);
        assert(glyphs_in(a, colon_on) + glyphs_in(b, colon_on) =~= glyphs_in(a, colon_on));
    } else {
        assert((a + b).drop_last() =~= a + b.drop_last());
        assert((a + b).last() == b.last());
        lemma_glyphs_in_concat(a, b.drop_last(), colon_on);
        let ga = glyphs_in(a, colon_on);
        let gb = glyphs_in(b.drop_last(), colon_on);
        match glyph_of(b.last(), colon_on) {
            Some(g) => {
                assert((ga + gb).push(g) =~= ga + gb.push(g));
            },
            None => {},
        }
    }
}

/// A text with a digit or a colon has at least one glyph.
pub proof fn lemma_glyphs_in_nonempty(text: Seq<char>, colon_on: bool, i: int)
    requires
        0 <= i < text.len(),
        has_glyph(text[i]),
    ensures
        glyphs_in(text, colon_on).len() > 0,
    decreases text.len(),
{
    if i < text.len() - 1 {
        lemma_glyphs_in_nonempty(text.drop_last(), colon_on, i);
    }
}

/// Joining two non-empty lists of parts is joining each and putting `sep` between.
pub proof fn lemma_join_concat(p: Seq<Seq<char>>, q: Seq<Seq<char>>, sep: Seq<char>)
    requires
        p.len() > 0,
        q.len() > 0,
    ensures
        join(p + q, sep) == join(p, sep) + sep + join(q, sep),
    decreases q.len(),
{
    if q.len() == 1 {
        assert((p + q).drop_last() =~= p);
        assert((p + q).last() == q[0]);
    } else {
        assert((p + q).drop_last() =~= p + q.drop_last());
        assert((p + q).last() == q.last());
        lemma_join_concat(p, q.drop_last(), sep);
    }
}

/// Rendering two texts put together, each with something to show, gives their
/// renderings side by side, `GLYPH_GAP` blanks apart.
pub proof fn lemma_render_concat(a: Seq<char>, b: Seq<char>, colon_on: bool, i: int, ia: int, ib: int)
    requires
        0 <= i < GLYPH_HEIGHT,
        0 <= ia < a.len(),
        has_glyph(a[ia]),
        0 <= ib < b.len(),
        has_glyph(b[ib]),
    ensures
        glyph_row(glyphs_in(a + b, colon_on), i) == glyph_row(glyphs_in(a, colon_on), i) + blanks(
            GLYPH_GAP as int,
        ) + glyph_row(glyphs_in(b, colon_on), i),
{
    let ga = glyphs_in(a, colon_on);
    let gb = glyphs_in(b, colon_on);
    lemma_glyphs_in_concat(a, b, colon_on);
    lemma_glyphs_in_nonempty(a, colon_on, ia);
    lemma_glyphs_in_nonempty(b, colon_on, ib);
    let f = |g: Glyph| painted(g@[i]@);
    assert((ga + gb).map_values(f) =~= ga.map_values(f) + gb.map_values(f));
    lemma_join_concat(ga.map_values(f), gb.map_values(f), blanks(GLYPH_GAP as int));
}

/// Characters without a glyph are skipped and leave no gap: the text renders
/// as its digits and colons alone.
pub proof fn lemma_render_skips_other_chars(text: Seq<char>, colon_on: bool)
    ensures
        glyphs_in(text, colon_on) == glyphs_in(text.filter(|c: char| has_glyph(c)), colon_on),
    decreases text.len(),
{
    reveal(Seq::filter);
    if text.len() > 0 {
        lemma_render_skips_other_chars(text.drop_last(), colon_on);
        let kept = text.drop_last().filter(|c: char| has_glyph(c));
        if has_glyph(text.last()) {
            assert(kept.push(text.last()).drop_last() =~= kept);
        }
    }
}

/// The colon flag matters only for colons.
pub proof fn lemma_render_colon_flag(text: Seq<char>)
    requires
        !text.contains(':'),
    ensures
        glyphs_in(text, true) == glyphs_in(text, false),
    decreases text.len(),
{
    if text.len() > 0 {
        assert(!text.drop_last().contains(':')) by {
            if text.drop_last().contains(':') {
                let j = choose|j: int| 0 <= j < text.drop_last().len() && text.drop_last()[j] == ':';
                assert(text[j] == ':');
            }
        }
        assert(text.last() != ':') by {
            assert(text[text.len() - 1] == text.last());
        }
        lemma_render_colon_flag(text.drop_last());
    }
}

/// An empty text renders as empty rows.
pub proof fn lemma_render_empty(colon_on: bool, i: int)
    ensures
        glyph_row(glyphs_in(Seq::empty(), colon_on), i) == Seq::<char>::empty(),
{
    assert(glyphs_in(Seq::empty(), colon_on).map_values(|g: Glyph| painted(g@[i]@)) =~= Seq::<
        Seq<char>,
    >::empty());
}


/// A label followed by blanks trims back to the label.
proof fn lemma_trim_padded_label(label: Seq<char>, width: int)
    requires
        label.len() > 0,
        !is_whitespace(label[0]),
        !is_whitespace(label.last()),
    ensures
        trim(pad_right(label, width)) == label,
{
    if label.len() < width {
        let pad = Seq::new((width - label.len()) as nat, |i: int| ' ');
        assert forall|i: int| 0 <= i < pad.len() implies stripped(Strip::Whitespace, #[trigger] pad[i]) by {}
        lemma_trim_end_padding(label, pad, Strip::Whitespace);
        assert(trim_start(label + pad, Strip::Whitespace) == label + pad);
    }
    lemma_trim_unchanged(label, Strip::Whitespace);
}

/// On a large enough terminal the menu shows its four entries in order, the
/// cursor mark `>` on exactly the selected one.
pub proof fn lemma_menu_marks_cursor(w: int, h: int, selected: int)
    ensures
        w >= LINE_W && h >= list_height(menu_len()) ==> menu_view(w, h, selected) is Menu,
        menu_view(w, h, selected) matches FrameView::Menu(lines) ==> {
            &&& lines.len() == 4
            &&& forall|i: int|
                0 <= i < 4 ==> {
                    &&& ((#[trigger] lines[i]).2[0] == '>' <==> i == selected)
                    &&& lines[i].2[1] == ' '
                    &&& trim(lines[i].2.skip(2)) == MENU_ITEMS@[i]@
                }
        },
{
    reveal_strlit("Back");
    reveal_strlit("Settings");
    reveal_strlit("About");
    reveal_strlit("Quit");
    if let FrameView::Menu(lines) = menu_view(w, h, selected) {
        assert forall|i: int| 0 <= i < 4 implies {
            &&& ((#[trigger] lines[i]).2[0] == '>' <==> i == selected)
            &&& lines[i].2[1] == ' '
            &&& trim(lines[i].2.skip(2)) == MENU_ITEMS@[i]@
        } by {
            let item = MENU_ITEMS@[i]@;
            assert(lines[i].2.skip(2) =~= pad_right(item, ITEM_W as int));
            lemma_trim_padded_label(item, ITEM_W as int);
        }
    }
}

/// On a large enough terminal the settings page shows the cursor mark on
/// exactly the selected entry, and each value read back off the page names
/// the current setting.
pub proof fn lemma_settings_show_current_values(w: int, h: int, selected: int, s: Settings)
    ensures
        w >= SETTINGS_LINE_W && h >= list_height(settings_len()) ==> settings_view(
            w,
            h,
            selected,
            s,
        ) is Settings,
        settings_view(w, h, selected, s) matches FrameView::Settings(lines) ==> {
            &&& lines.len() == 3
            &&& forall|i: int| 0 <= i < 3 ==> ((#[trigger] lines[i]).2[0] == '>' <==> i == selected)
            &&& hour_from_name(trim(lines[0].2.skip(15))) == Some(s.hour_format)
            &&& trim(lines[1].2.skip(15)) == if s.show_seconds {
                "on"@
            } else {
                "off"@
            }
            &&& theme_from_name(trim(lines[2].2.skip(15))) == Some(s.theme)
        },
{
    reveal_strlit("Hour format");
    reveal_strlit("Seconds");
    reveal_strlit("Theme");
    reveal_strlit("  ");
    reveal_strlit("on");
    reveal_strlit("off");
    reveal_strlit("24H");
    reveal_strlit("12H");
    reveal_strlit("Classic");
    reveal_strlit("Sunset");
    reveal_strlit("Ocean");
    if let FrameView::Settings(lines) = settings_view(w, h, selected, s) {
        assert forall|i: int| 0 <= i < 3 implies lines[i].2.skip(15) =~= pad_right(
            setting_value(i, s),
            VALUE_W as int,
        ) by {
            lemma_pad_right_len(SETTINGS_ITEMS@[i]@, LABEL_W as int);
        }
        lemma_trim_padded_label(setting_value(0, s), VALUE_W as int);
        lemma_trim_padded_label(setting_value(1, s), VALUE_W as int);
        lemma_trim_padded_label(setting_value(2, s), VALUE_W as int);
        lemma_hour_from_name_label(s.hour_format, hour_label(s.hour_format));
        lemma_from_name_label(s.theme, theme_label(s.theme));
    }
}

/// The About page shows the configuration path whole, after the `Config`
/// label; without a path it has no such line.
pub proof fn lemma_about_shows_whole_path(p: Seq<char>)
    ensures
        about_lines(Some(p)).len() == 7,
        about_lines(Some(p))[4].take(9) == "Config   "@,
        about_lines(Some(p))[4].skip(9) == p,
        about_lines(None).len() == 6,
        forall|i: int|
            0 <= i < 7 && i != 4 ==> #[trigger] about_lines(Some(p))[i] == about_lines(None)[if i
                < 4 {
                i
            } else {
                i - 1
            }],
{
    reveal_strlit("Config");
    reveal_strlit(" ");
    reveal_strlit("Config   ");
    let line = about_lines(Some(p))[4];
    assert(line =~= pad_right("Config"@, ABOUT_LABEL_W as int) + " "@ + p);
    assert(line.take(9) =~= "Config   "@);
    assert(line.skip(9) =~= p);
}

} // verus!
