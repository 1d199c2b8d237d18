//! The configuration file: its text format, how it is read leniently into
//! settings, how settings are written back, and where the file lives.
use vstd::prelude::*;

use crate::app::{
    default_settings, hour_from_name, hour_label, lemma_hour_from_name_label, HourFormat, Settings,
};
use crate::text::{
    chars_of, eq_ignore_ascii_case, join, find_char, find_in_range, is_whitespace,
    lemma_find_char_absent, lemma_find_char_concat, lemma_find_char_first, lemma_trim_end_keeps_first,
    lemma_trim_end_padding, lemma_trim_start_padding, lemma_trim_unchanged, range_equals,
    str_eq_ignore_ascii_case, trim, trim_quotes, trim_range, Strip,
};
use crate::theme::{lemma_from_name_label, theme_from_name, theme_label, Theme};

verus! {

/// `true` or `false`, compared without regard to ASCII case.
pub open spec fn bool_from_name(s: Seq<char>) -> Option<bool> {
    if eq_ignore_ascii_case(s, "true"@) {
        Some(true)
    } else if eq_ignore_ascii_case(s, "false"@) {
        Some(false)
    } else {
        None
    }
}

/// The settings after one `key = value` entry; unknown keys and values change nothing.
pub open spec fn apply_entry(acc: Settings, key: Seq<char>, value: Seq<char>) -> Settings {
    if key == "hour_format"@ {
        match hour_from_name(value) {
            Some(f) => Settings { hour_format: f, ..acc },
            None => acc,
        }
    } else if key == "show_seconds"@ {
        match bool_from_name(value) {
            Some(b) => Settings { show_seconds: b, ..acc },
            None => acc,
        }
    } else if key == "theme"@ {
        match theme_from_name(value) {
            Some(t) => Settings { theme: t, ..acc },
            None => acc,
        }
    } else {
        acc
    }
}

/// The settings after one line of the file. Blank lines, lines starting with
/// `#` and lines without `=` change nothing; otherwise the key is the trimmed
/// text before the first `=`, and the value the trimmed text after it with
/// surrounding double quotes removed.
pub open spec fn apply_line(acc: Settings, line: Seq<char>) -> Settings {
    let t = trim(line);
    if t.len() == 0 || t[0] == '#' {
        acc
    } else {
        match find_char(t, '=') {
            None => acc,
            Some(i) => apply_entry(acc, trim(t.take(i)), trim_quotes(trim(t.skip(i + 1)))),
        }
    }
}

/// The settings after every line of `text`, lines being separated by `\n`.
pub open spec fn apply_text(acc: Settings, text: Seq<char>) -> Settings
    decreases text.len(),
{
    match find_char(text, '\n') {
        None => apply_line(acc, text),
        Some(i) => {
            proof {
                lemma_find_char_first(text, '\n');
            }
            apply_text(apply_line(acc, text.take(i)), text.skip(i + 1))
        },
    }
}

/// The settings that a configuration text describes, starting from the defaults.
pub open spec fn settings_from_text(text: Seq<char>) -> Settings {
    apply_text(default_settings(), text)
}

/// Reads a configuration text. The reading is lenient: lines, keys and values
/// that are not understood are skipped, and what is missing keeps its default.
pub fn parse(text: &str) -> (r: Settings)
    ensures
        r == settings_from_text(text@),
{
    let chars = chars_of(text);
    let n = chars.len();
    let mut settings = Settings::default();
    let mut start: usize = 0;
    assert(text@.skip(0) =~= text@);
    loop
        invariant
            chars@ == text@,
            n == chars@.len(),
            start <= n,
            settings_from_text(text@) == apply_text(settings, text@.skip(start as int)),
        ensures
            settings_from_text(text@) == settings,
        decreases n - start,
    {
        assert(chars@.subrange(start as int, n as int) =~= text@.skip(start as int));
        match find_in_range(&chars, start, n, '\n') {
            Some(k) => {
                let ghost rest = text@.skip(start as int);
                assert(rest.take(k - start) =~= chars@.subrange(start as int, k as int));
                assert(rest.skip(k - start + 1) =~= text@.skip(k + 1));
                settings = apply_line_of(text, &chars, start, k, settings);
                start = k + 1;
            },
            None => {
                settings = apply_line_of(text, &chars, start, n, settings);
                break ;
            },
        }
    }
    settings
}

/// `apply_line` on the characters `lo..hi` of `text`.
fn apply_line_of(text: &str, chars: &Vec<char>, lo: usize, hi: usize, settings: Settings) -> (r:
    Settings)
    requires
        chars@ == text@,
        lo <= hi <= chars@.len(),
    ensures
        r == apply_line(settings, text@.subrange(lo as int, hi as int)),
{
    let (a, b) = trim_range(chars, lo, hi, Strip::Whitespace);
    if a == b || chars[a] == '#' {
        return settings;
    }
    let ghost t = chars@.subrange(a as int, b as int);
    match find_in_range(chars, a, b, '=') {
        None => settings,
        Some(k) => {
            assert(t.take(k - a) =~= chars@.subrange(a as int, k as int));
            assert(t.skip(k - a + 1) =~= chars@.subrange(k + 1, b as int));
            let (ka, kb) = trim_range(chars, a, k, Strip::Whitespace);
            let (wa, wb) = trim_range(chars, k + 1, b, Strip::Whitespace);
            let (va, vb) = trim_range(chars, wa, wb, Strip::Quote);
            apply_entry_of(text, chars, ka, kb, va, vb, settings)
        },
    }
}

/// `apply_entry` with the key at `ka..kb` and the value at `va..vb` of `text`.
fn apply_entry_of(
    text: &str,
    chars: &Vec<char>,
    ka: usize,
    kb: usize,
    va: usize,
    vb: usize,
    settings: Settings,
) -> (r: Settings)
    requires
        chars@ == text@,
        ka <= kb <= chars@.len(),
        va <= vb <= chars@.len(),
    ensures
        r == apply_entry(
            settings,
            text@.subrange(ka as int, kb as int),
            text@.subrange(va as int, vb as int),
        ),
{
    let value = text.substring_char(va, vb);
    if range_equals(chars, ka, kb, &chars_of("hour_format")) {
        match HourFormat::from_name(value) {
            Some(f) => Settings { hour_format: f, ..settings },
            None => settings,
        }
    } else if range_equals(chars, ka, kb, &chars_of("show_seconds")) {
        match parse_bool(value) {
            Some(b) => Settings { show_seconds: b, ..settings },
            None => settings,
        }
    } else if range_equals(chars, ka, kb, &chars_of("theme")) {
        match Theme::from_name(value) {
            Some(t) => Settings { theme: t, ..settings },
            None => settings,
        }
    } else {
        settings
    }
}

/// `true` or `false`, without regard to ASCII case.
pub fn parse_bool(s: &str) -> (r: Option<bool>)
    ensures
        r == bool_from_name(s@),
{
    if str_eq_ignore_ascii_case(s, "true") {
        Some(true)
    } else if str_eq_ignore_ascii_case(s, "false") {
        Some(false)
    } else {
        None
    }
}

/// The hour formats a configuration file may name, as its comment lists them.
pub open spec fn hour_choices() -> Seq<char> {
    join(seq![hour_label(HourFormat::H24), hour_label(HourFormat::H12)], " | "@)
}

/// The themes a configuration file may name, as its comment lists them.
pub open spec fn theme_choices() -> Seq<char> {
    join(
        seq![theme_label(Theme::Classic), theme_label(Theme::Sunset), theme_label(Theme::Ocean)],
        " | "@,
    )
}

pub open spec fn bool_text(b: bool) -> Seq<char> {
    if b {
        "true"@
    } else {
        "false"@
    }
}

/// The commented head of the configuration file, listing the accepted values.
pub open spec fn comment_header() -> Seq<char> {
    "# tui_clock 配置文件 —— 可自由编辑，保存后下次启动生效\n"@ + "#\n"@ + "# hour_format  : "@
        + hour_choices() + "\n"@ + "# show_seconds : true | false\n"@ + "# theme        : "@
        + theme_choices() + "\n"@ + "\n"@
}

pub open spec fn hour_format_line(f: HourFormat) -> Seq<char> {
    "hour_format  = \""@ + hour_label(f) + "\"\n"@
}

pub open spec fn show_seconds_line(b: bool) -> Seq<char> {
    "show_seconds = "@ + bool_text(b) + "\n"@
}

pub open spec fn theme_line(t: Theme) -> Seq<char> {
    "theme        = \""@ + theme_label(t) + "\"\n"@
}

/// The configuration file written for the given settings: the commented head,
/// then one `key = value` line per setting.
pub open spec fn config_text(s: Settings) -> Seq<char> {
    comment_header() + hour_format_line(s.hour_format) + show_seconds_line(s.show_seconds)
        + theme_line(s.theme)
}

/// Appends `parts` to `out`, separated by `sep`.
fn append_joined(out: &mut String, parts: &Vec<&str>, sep: &str)
    ensures
        final(out)@ == old(out)@ + join(parts@.map_values(|p: &str| p@), sep@),
{
    let ghost views = parts@.map_values(|p: &str| p@);
    let ghost start = out@;
    let mut i: usize = 0;
    while i < parts.len()
        invariant
            views == parts@.map_values(|p: &str| p@),
            0 <= i <= parts@.len(),
            out@ == start + join(views.take(i as int), sep@),
        decreases parts@.len() - i,
    {
        if i > 0 {
            out.append(sep);
        }
        out.append(parts[i]);
        assert(views.take(i + 1).drop_last() =~= views.take(i as int));
        proof {
            if i == 0 {
                assert(join(views.take(0), sep@) =~= Seq::empty());
            }
        }
        i = i + 1;
    }
    assert(views.take(parts@.len() as int) =~= views);
}

/// Writes the settings as a configuration text, with comments that help
/// editing the file by hand.
pub fn serialize(s: &Settings) -> (r: String)
    ensures
        r@ == config_text(*s),
{
    let mut themes: Vec<&str> = Vec::new();
    let mut i: usize = 0;
    while i < 3
        invariant
            0 <= i <= 3,
            themes@.len() == i,
            forall|j: int| 0 <= j < i ==> (#[trigger] themes@[j])@ == theme_label(Theme::ALL[j]),
        decreases 3 - i,
    {
        themes.push(Theme::ALL[i].label());
        i = i + 1;
    }
    let mut hours: Vec<&str> = Vec::new();
    let mut i: usize = 0;
    while i < 2
        invariant
            0 <= i <= 2,
            hours@.len() == i,
            forall|j: int| 0 <= j < i ==> (#[trigger] hours@[j])@ == hour_label(HourFormat::ALL[j]),
        decreases 2 - i,
    {
        hours.push(HourFormat::ALL[i].label());
        i = i + 1;
    }
    assert(themes@.map_values(|p: &str| p@) =~= seq![
        theme_label(Theme::Classic),
        theme_label(Theme::Sunset),
        theme_label(Theme::Ocean),
    ]);
    assert(hours@.map_values(|p: &str| p@) =~= seq![
        hour_label(HourFormat::H24),
        hour_label(HourFormat::H12),
    ]);
    let mut out = String::new();
    out.append("# tui_clock 配置文件 —— 可自由编辑，保存后下次启动生效\n");
    out.append("#\n");
    out.append("# hour_format  : ");
    append_joined(&mut out, &hours, " | ");
    out.append("\n");
    out.append("# show_seconds : true | false\n");
    out.append("# theme        : ");
    append_joined(&mut out, &themes, " | ");
    out.append("\n");
    out.append("\n");
    out.append("hour_format  = \"");
    out.append(s.hour_format.label());
    out.append("\"\n");
    out.append("show_seconds = ");
    out.append(if s.show_seconds { "true" } else { "false" });
    out.append("\n");
    out.append("theme        = \"");
    out.append(s.theme.label());
    out.append("\"\n");
    assert(out@ =~= config_text(*s));
    out
}

/// The operating-system family, which decides where configuration files live.
#[derive(Clone, Copy, Debug, PartialEq, Eq, Structural)]
pub enum Platform {
    Windows,
    MacOs,
    /// Linux and the other Unix-like systems, following the XDG convention.
    Unix,
}

/// Where the configuration file lives: a directory taken from the environment,
/// followed by relative path segments, each joined onto the previous.
#[derive(Clone, Debug, PartialEq, Eq)]
pub struct ConfigPath<P> {
    pub dir: P,
    pub segments: Vec<&'static str>,
}

/// The relative segments of a configuration path, as text.
pub open spec fn segment_views(segments: Seq<&'static str>) -> Seq<Seq<char>> {
    segments.map_values(|p: &'static str| p@)
}

/// The configuration directory and file of this application, below a base directory.
pub open spec fn app_segments() -> Seq<Seq<char>> {
    seq!["tui_clock"@, "config.toml"@]
}

/// Whether `r` is the directory `dir` followed by the segments `segments`.
pub open spec fn is_path<P>(r: Option<ConfigPath<P>>, dir: P, segments: Seq<Seq<char>>) -> bool {
    &&& r is Some
    &&& r->0.dir == dir
    &&& segment_views(r->0.segments@) == segments
}

/// The path of the configuration file, from the environment variables that the
/// platform's convention consults: `%APPDATA%` on Windows,
/// `$HOME/Library/Application Support` on macOS, and elsewhere
/// `$XDG_CONFIG_HOME`, falling back to `$HOME/.config`. `None` when the needed
/// variables are unset.
pub fn config_path<P>(
    platform: Platform,
    appdata: Option<P>,
    home: Option<P>,
    xdg_config_home: Option<P>,
) -> (r: Option<ConfigPath<P>>)
    ensures
        platform == Platform::Windows ==> match appdata {
            Some(d) => is_path(r, d, app_segments()),
            None => r is None,
        },
        platform == Platform::MacOs ==> match home {
            Some(h) => is_path(r, h, seq!["Library/Application Support"@] + app_segments()),
            None => r is None,
        },
        platform == Platform::Unix ==> match (xdg_config_home, home) {
            (Some(x), _) => is_path(r, x, app_segments()),
            (None, Some(h)) => is_path(r, h, seq![".config"@] + app_segments()),
            (None, None) => r is None,
        },
{
    let (dir, base) = match platform {
        Platform::Windows => match appdata {
            Some(d) => (d, None),
            None => return None,
        },
        Platform::MacOs => match home {
            Some(h) => (h, Some("Library/Application Support")),
            None => return None,
        },
        Platform::Unix => match xdg_config_home {
            Some(x) => (x, None),
            None => match home {
                Some(h) => (h, Some(".config")),
                None => return None,
            },
        },
    };
    let mut segments: Vec<&'static str> = Vec::new();
    if let Some(b) = base {
        segments.push(b);
    }
    segments.push("tui_clock");
    segments.push("config.toml");
    let ghost expected = match base {
        Some(b) => seq![b@] + app_segments(),
        None => app_segments(),
    };
    assert(segment_views(segments@) =~= expected);
    Some(ConfigPath { dir, segments })
}

/// No line break occurs in `s`.
pub open spec fn single_line(s: Seq<char>) -> bool {
    forall|i: int| 0 <= i < s.len() ==> s[i] != '\n'
}

/// A text that begins with one line ending in `\n` is read as that line, then the rest.
proof fn lemma_apply_text_first_line(acc: Settings, piece: Seq<char>, rest: Seq<char>)
    requires
        piece.len() > 0,
        piece.last() == '\n',
        single_line(piece.drop_last()),
    ensures
        apply_text(acc, piece + rest) == apply_text(apply_line(acc, piece.drop_last()), rest),
{
    let line = piece.drop_last();
    assert(piece =~= line + seq!['\n']);
    lemma_find_char_absent(line, '\n');
    lemma_find_char_concat(line, seq!['\n'], '\n');
    lemma_find_char_concat(piece, rest, '\n');
    assert((piece + rest).take(line.len() as int) =~= line);
    assert((piece + rest).skip(line.len() as int + 1) =~= rest);
}

/// A line that starts with `#` is a comment.
proof fn lemma_comment_line(acc: Settings, line: Seq<char>)
    requires
        line.len() > 0,
        line[0] == '#',
    ensures
        apply_line(acc, line) == acc,
{
    lemma_trim_end_keeps_first(line, Strip::Whitespace);
}

/// A line `key<spaces>= value` is the entry `key` with the value unquoted.
proof fn lemma_entry_line(acc: Settings, key: Seq<char>, pad: Seq<char>, value: Seq<char>)
    requires
        key.len() > 0,
        key[0] != '#',
        !is_whitespace(key[0]),
        !is_whitespace(key.last()),
        forall|i: int| 0 <= i < key.len() ==> key[i] != '=',
        forall|i: int| 0 <= i < pad.len() ==> pad[i] == ' ',
        value.len() > 0,
        !is_whitespace(value[0]),
        !is_whitespace(value.last()),
    ensures
        apply_line(acc, key + pad + seq!['=', ' '] + value) == apply_entry(
            acc,
            key,
            trim_quotes(value),
        ),
{
    let head = key + pad;
    let tail = seq!['=', ' '] + value;
    let line = key + pad + seq!['=', ' '] + value;
    assert(line =~= head + tail);
    assert(line[0] == key[0]);
    assert(line.last() == value.last());
    lemma_trim_unchanged(line, Strip::Whitespace);
    assert(trim(line) == line);
    assert forall|j: int| 0 <= j < head.len() implies head[j] != '=' by {
        if j >= key.len() {
            assert(head[j] == pad[j - key.len()]);
        }
    }
    lemma_find_char_absent(head, '=');
    lemma_find_char_concat(head, tail, '=');
    assert(find_char(tail, '=') == Some(0int));
    let i = head.len() as int;
    assert(find_char(line, '=') == Some(i));
    assert(line.take(i) =~= head);
    assert(line.skip(i + 1) =~= seq![' '] + value);
    assert forall|j: int| 0 <= j < pad.len() implies crate::text::stripped(
        Strip::Whitespace,
        #[trigger] pad[j],
    ) by {}
    lemma_trim_end_padding(key, pad, Strip::Whitespace);
    lemma_trim_unchanged(key, Strip::Whitespace);
    assert(crate::text::trim_start(head, Strip::Whitespace) == head);
    assert(trim(head) == key);
    lemma_trim_start_padding(seq![' '], value, Strip::Whitespace);
    lemma_trim_unchanged(value, Strip::Whitespace);
    assert(trim(seq![' '] + value) == value);
}

/// Surrounding double quotes come off a quoted label.
proof fn lemma_unquote(label: Seq<char>)
    requires
        label.len() > 0,
        label[0] != '"',
        label.last() != '"',
    ensures
        trim_quotes(seq!['"'] + label + seq!['"']) == label,
{
    lemma_trim_start_padding(seq!['"'], label + seq!['"'], Strip::Quote);
    assert(seq!['"'] + label + seq!['"'] =~= seq!['"'] + (label + seq!['"']));
    lemma_trim_end_padding(label, seq!['"'], Strip::Quote);
}

/// A comment line ending in `\n` at the front of a text changes nothing.
proof fn lemma_skip_comment(acc: Settings, piece: Seq<char>, rest: Seq<char>)
    requires
        piece.len() > 1,
        piece[0] == '#',
        piece.last() == '\n',
        single_line(piece.drop_last()),
    ensures
        apply_text(acc, piece + rest) == apply_text(acc, rest),
{
    lemma_apply_text_first_line(acc, piece, rest);
    lemma_comment_line(acc, piece.drop_last());
}

/// The commented head of the file leaves the settings alone.
proof fn lemma_comment_header(acc: Settings, rest: Seq<char>)
    ensures
        apply_text(acc, comment_header() + rest) == apply_text(acc, rest),
{
    let p1 = "# tui_clock 配置文件 —— 可自由编辑，保存后下次启动生效\n"@;
    let p2 = "#\n"@;
    let p3 = "# hour_format  : "@ + hour_choices() + "\n"@;
    let p4 = "# show_seconds : true | false\n"@;
    let p5 = "# theme        : "@ + theme_choices() + "\n"@;
    let p6 = "\n"@;
    assert(comment_header() + rest =~= p1 + (p2 + (p3 + (p4 + (p5 + (p6 + rest))))));
    assert(p1.len() > 1 && p1[0] == '#' && p1.last() == '\n' && single_line(p1.drop_last()))
        by {
        reveal_strlit("# tui_clock 配置文件 —— 可自由编辑，保存后下次启动生效\n");
    }
    lemma_skip_comment(acc, p1, p2 + (p3 + (p4 + (p5 + (p6 + rest)))));
    assert(p2.len() > 1 && p2[0] == '#' && p2.last() == '\n' && single_line(p2.drop_last()))
        by {
        reveal_strlit("#\n");
    }
    lemma_skip_comment(acc, p2, p3 + (p4 + (p5 + (p6 + rest))));
    assert(p3.len() > 1 && p3[0] == '#' && p3.last() == '\n' && single_line(p3.drop_last()))
        by {
        reveal_strlit("# hour_format  : ");
        reveal_strlit("\n");
        reveal_strlit(" | ");
        reveal_strlit("24H");
        reveal_strlit("12H");
        reveal_with_fuel(join, 3);
    }
    lemma_skip_comment(acc, p3, p4 + (p5 + (p6 + rest)));
    assert(p4.len() > 1 && p4[0] == '#' && p4.last() == '\n' && single_line(p4.drop_last()))
        by {
        reveal_strlit("# show_seconds : true | false\n");
    }
    lemma_skip_comment(acc, p4, p5 + (p6 + rest));
    assert(p5.len() > 1 && p5[0] == '#' && p5.last() == '\n' && single_line(p5.drop_last()))
        by {
        reveal_strlit("# theme        : ");
        reveal_strlit("\n");
        reveal_strlit(" | ");
        reveal_strlit("Classic");
        reveal_strlit("Sunset");
        reveal_strlit("Ocean");
        reveal_with_fuel(join, 4);
    }
    lemma_skip_comment(acc, p5, p6 + rest);
    reveal_strlit("\n");
    lemma_apply_text_first_line(acc, p6, rest);
    assert(p6.drop_last() =~= Seq::<char>::empty());
}

/// The `hour_format` line sets the hour format it names.
proof fn lemma_hour_format_line(acc: Settings, f: HourFormat, rest: Seq<char>)
    ensures
        apply_text(acc, hour_format_line(f) + rest) == apply_text(
            Settings { hour_format: f, ..acc },
            rest,
        ),
{
    reveal_strlit("hour_format  = \"");
    reveal_strlit("\"\n");
    reveal_strlit("hour_format");
    reveal_strlit("24H");
    reveal_strlit("12H");
    let l = hour_label(f);
    let piece = hour_format_line(f);
    assert(single_line(piece.drop_last()));
    lemma_apply_text_first_line(acc, piece, rest);
    assert(piece.drop_last() =~= "hour_format"@ + seq![' ', ' '] + seq!['=', ' '] + (seq!['"'] + l
        + seq!['"']));
    lemma_entry_line(acc, "hour_format"@, seq![' ', ' '], seq!['"'] + l + seq!['"']);
    lemma_unquote(l);
    lemma_hour_from_name_label(f, l);
}

/// The `show_seconds` line sets the choice it names.
proof fn lemma_show_seconds_line(acc: Settings, b: bool, rest: Seq<char>)
    ensures
        apply_text(acc, show_seconds_line(b) + rest) == apply_text(
            Settings { show_seconds: b, ..acc },
            rest,
        ),
{
    reveal_strlit("show_seconds = ");
    reveal_strlit("\n");
    reveal_strlit("show_seconds");
    reveal_strlit("hour_format");
    reveal_strlit("true");
    reveal_strlit("false");
    let l = bool_text(b);
    let piece = show_seconds_line(b);
    assert(single_line(piece.drop_last()));
    lemma_apply_text_first_line(acc, piece, rest);
    assert(piece.drop_last() =~= "show_seconds"@ + seq![' '] + seq!['=', ' '] + l);
    lemma_entry_line(acc, "show_seconds"@, seq![' '], l);
    lemma_trim_unchanged(l, Strip::Quote);
    assert("show_seconds"@ != "hour_format"@);
}

/// The `theme` line sets the theme it names.
proof fn lemma_theme_line(acc: Settings, t: Theme, rest: Seq<char>)
    ensures
        apply_text(acc, theme_line(t) + rest) == apply_text(Settings { theme: t, ..acc }, rest),
{
    reveal_strlit("theme        = \"");
    reveal_strlit("\"\n");
    reveal_strlit("theme");
    reveal_strlit("show_seconds");
    reveal_strlit("hour_format");
    reveal_strlit("Classic");
    reveal_strlit("Sunset");
    reveal_strlit("Ocean");
    let l = theme_label(t);
    let piece = theme_line(t);
    let pad = seq![' ', ' ', ' ', ' ', ' ', ' ', ' ', ' '];
    assert(single_line(piece.drop_last()));
    lemma_apply_text_first_line(acc, piece, rest);
    assert(piece.drop_last() =~= "theme"@ + pad + seq!['=', ' '] + (seq!['"'] + l + seq!['"']));
    lemma_entry_line(acc, "theme"@, pad, seq!['"'] + l + seq!['"']);
    lemma_unquote(l);
    lemma_from_name_label(t, l);
    assert("theme"@ != "hour_format"@);
    assert("theme"@ != "show_seconds"@);
}

/// Reading back what `serialize` writes gives the same settings.
pub proof fn lemma_parse_serialize_roundtrip(s: Settings)
    ensures
        settings_from_text(config_text(s)) == s,
{
    let d = default_settings();
    let l7 = hour_format_line(s.hour_format);
    let l8 = show_seconds_line(s.show_seconds);
    let l9 = theme_line(s.theme);
    let empty = Seq::<char>::empty();
    assert(config_text(s) =~= comment_header() + (l7 + (l8 + (l9 + empty))));
    lemma_comment_header(d, l7 + (l8 + (l9 + empty)));
    lemma_hour_format_line(d, s.hour_format, l8 + (l9 + empty));
    let a7 = Settings { hour_format: s.hour_format, ..d };
    lemma_show_seconds_line(a7, s.show_seconds, l9 + empty);
    let a8 = Settings { show_seconds: s.show_seconds, ..a7 };
    lemma_theme_line(a8, s.theme, empty);
    assert(Settings { theme: s.theme, ..a8 } == s);
    assert(apply_text(s, empty) == s);
}


/// A line that leaves every settings value as it is.
pub open spec fn inert_line(line: Seq<char>) -> bool {
    forall|acc: Settings| #[trigger] apply_line(acc, line) == acc
}

/// Every line of `text` is inert.
pub open spec fn inert_text(text: Seq<char>) -> bool
    decreases text.len(),
{
    match find_char(text, '\n') {
        None => inert_line(text),
        Some(i) => {
            proof {
                lemma_find_char_first(text, '\n');
            }
            inert_line(text.take(i)) && inert_text(text.skip(i + 1))
        },
    }
}

/// Blank lines, comments, lines without `=`, unknown keys and values that do
/// not name a choice for their key are inert.
pub proof fn lemma_inert_line_kinds(line: Seq<char>)
    requires
        ({
            let t = trim(line);
            ||| t.len() == 0
            ||| t[0] == '#'
            ||| find_char(t, '=') is None
            ||| ({
                let i = find_char(t, '=')->0;
                let key = trim(t.take(i));
                let value = trim_quotes(trim(t.skip(i + 1)));
                &&& key == "hour_format"@ ==> hour_from_name(value) is None
                &&& key == "show_seconds"@ ==> bool_from_name(value) is None
                &&& key == "theme"@ ==> theme_from_name(value) is None
            })
        }),
    ensures
        inert_line(line),
{
}

/// Reading a text line by line: reading `a`, a line break and `b` reads `a`, then `b`.
pub proof fn lemma_apply_text_concat(acc: Settings, a: Seq<char>, b: Seq<char>)
    ensures
        apply_text(acc, a + seq!['\n'] + b) == apply_text(apply_text(acc, a), b),
    decreases a.len(),
{
    let text = a + seq!['\n'] + b;
    assert(text =~= a + (seq!['\n'] + b));
    lemma_find_char_first(a, '\n');
    lemma_find_char_concat(a, seq!['\n'] + b, '\n');
    match find_char(a, '\n') {
        Some(i) => {
            assert(text.take(i) =~= a.take(i));
            assert(text.skip(i + 1) =~= a.skip(i + 1) + seq!['\n'] + b);
            lemma_apply_text_concat(apply_line(acc, a.take(i)), a.skip(i + 1), b);
        },
        None => {
            assert(find_char(seq!['\n'] + b, '\n') == Some(0int));
            assert(text.take(a.len() as int) =~= a);
            assert(text.skip(a.len() as int + 1) =~= b);
        },
    }
}

/// An inert text leaves the settings as they are.
pub proof fn lemma_inert_text(acc: Settings, text: Seq<char>)
    requires
        inert_text(text),
    ensures
        apply_text(acc, text) == acc,
    decreases text.len(),
{
    lemma_find_char_first(text, '\n');
    match find_char(text, '\n') {
        None => {
            assert(apply_line(acc, text) == acc);
        },
        Some(i) => {
            assert(apply_line(acc, text.take(i)) == acc);
            lemma_inert_text(acc, text.skip(i + 1));
        },
    }
}

/// Lines that change nothing may be added before or after a configuration
/// text without changing what it is read as.
pub proof fn lemma_parse_ignores_inert_lines(text: Seq<char>, extra: Seq<char>)
    requires
        inert_text(extra),
    ensures
        settings_from_text(text + seq!['\n'] + extra) == settings_from_text(text),
        settings_from_text(extra + seq!['\n'] + text) == settings_from_text(text),
{
    let d = default_settings();
    lemma_apply_text_concat(d, text, extra);
    lemma_inert_text(apply_text(d, text), extra);
    lemma_apply_text_concat(d, extra, text);
    lemma_inert_text(d, extra);
}

} // verus!
