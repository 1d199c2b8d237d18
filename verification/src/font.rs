//! The large characters of the clock face: seven rows of eight columns,
//! where `#` marks a filled cell.
use vstd::prelude::*;

verus! {

/// Columns of one glyph.
pub const GLYPH_WIDTH: usize = 8;

/// Rows of one glyph.
pub const GLYPH_HEIGHT: usize = 7;

/// Blank columns between neighbouring glyphs.
pub const GLYPH_GAP: usize = 2;

/// One glyph: its rows, top to bottom.
pub type Glyph = [&'static str; GLYPH_HEIGHT];

/// The character that paints a filled cell on screen.
pub const FILL: char = '\u{2593}';

pub const ZERO: Glyph = [
    "########",
    "##    ##",
    "##    ##",
    "##    ##",
    "##    ##",
    "##    ##",
    "########",
];

pub const ONE: Glyph = [
    "  ###   ",
    " ####   ",
    "   ##   ",
    "   ##   ",
    "   ##   ",
    "   ##   ",
    "########",
];

pub const TWO: Glyph = [
    "########",
    "      ##",
    "      ##",
    "########",
    "##      ",
    "##      ",
    "########",
];

pub const THREE: Glyph = [
    "########",
    "      ##",
    "      ##",
    "########",
    "      ##",
    "      ##",
    "########",
];

pub const FOUR: Glyph = [
    "##    ##",
    "##    ##",
    "##    ##",
    "##    ##",
    "########",
    "      ##",
    "      ##",
];

pub const FIVE: Glyph = [
    "########",
    "##      ",
    "##      ",
    "########",
    "      ##",
    "      ##",
    "########",
];

pub const SIX: Glyph = [
    "########",
    "##      ",
    "##      ",
    "########",
    "##    ##",
    "##    ##",
    "########",
];

pub const SEVEN: Glyph = [
    "########",
    "      ##",
    "    ##  ",
    "   ##   ",
    "   ##   ",
    "   ##   ",
    "   ##   ",
];

pub const EIGHT: Glyph = [
    "########",
    "##    ##",
    "##    ##",
    "########",
    "##    ##",
    "##    ##",
    "########",
];

pub const NINE: Glyph = [
    "########",
    "##    ##",
    "##    ##",
    "########",
    "      ##",
    "      ##",
    "########",
];

pub const COLON: Glyph = [
    "        ",
    "   ##   ",
    "   ##   ",
    "        ",
    "   ##   ",
    "   ##   ",
    "        ",
];

pub const COLON_OFF: Glyph = [
    "        ",
    "        ",
    "        ",
    "        ",
    "        ",
    "        ",
    "        ",
];

/// The glyph of a character of the clock face: a digit or a colon, whose
/// colon is blank when `colon_on` is false (the colon blinks).
pub open spec fn glyph_of(c: char, colon_on: bool) -> Option<Glyph> {
    if c == '0' {
        Some(ZERO)
    } else if c == '1' {
        Some(ONE)
    } else if c == '2' {
        Some(TWO)
    } else if c == '3' {
        Some(THREE)
    } else if c == '4' {
        Some(FOUR)
    } else if c == '5' {
        Some(FIVE)
    } else if c == '6' {
        Some(SIX)
    } else if c == '7' {
        Some(SEVEN)
    } else if c == '8' {
        Some(EIGHT)
    } else if c == '9' {
        Some(NINE)
    } else if c == ':' {
        Some(if colon_on { COLON } else { COLON_OFF })
    } else {
        None
    }
}

/// The glyph of `c`, or `None` for a character the clock face cannot show.
pub fn glyph_for(c: char, colon_on: bool) -> (r: Option<&'static Glyph>)
    ensures
        match r {
            Some(g) => glyph_of(c, colon_on) == Some(*g),
            None => glyph_of(c, colon_on) is None,
        },
{
    match c {
        '0' => Some(&ZERO),
        '1' => Some(&ONE),
        '2' => Some(&TWO),
        '3' => Some(&THREE),
        '4' => Some(&FOUR),
        '5' => Some(&FIVE),
        '6' => Some(&SIX),
        '7' => Some(&SEVEN),
        '8' => Some(&EIGHT),
        '9' => Some(&NINE),
        ':' => Some(
            if colon_on {
                &COLON
            } else {
                &COLON_OFF
            },
        ),
        _ => None,
    }
}

/// Every row of the glyph is `GLYPH_WIDTH` cells of `#` or blank.
pub open spec fn well_shaped(g: Glyph) -> bool {
    forall|i: int|
        0 <= i < GLYPH_HEIGHT ==> {
            &&& (#[trigger] g@[i])@.len() == GLYPH_WIDTH
            &&& forall|j: int| 0 <= j < GLYPH_WIDTH ==> g@[i]@[j] == '#' || g@[i]@[j] == ' '
        }
}

/// Every glyph of the clock face is well shaped.
pub proof fn lemma_glyphs_well_shaped(c: char, colon_on: bool)
    ensures
        glyph_of(c, colon_on) matches Some(g) ==> well_shaped(g),
{
    reveal_strlit("        ");
    reveal_strlit("      ##");
    reveal_strlit("    ##  ");
    reveal_strlit("   ##   ");
    reveal_strlit("  ###   ");
    reveal_strlit(" ####   ");
    reveal_strlit("##      ");
    reveal_strlit("##    ##");
    reveal_strlit("########");
}


/// The glyph shows these rows, top to bottom.
pub open spec fn pictured(g: Glyph, rows: Seq<Seq<char>>) -> bool {
    rows.len() == GLYPH_HEIGHT && forall|i: int| 0 <= i < GLYPH_HEIGHT ==> (#[trigger] g@[i])@ == rows[i]
}

/// Each digit is drawn as its own picture, and the colon as two dots or,
/// when off, as blank.
pub proof fn lemma_glyph_pictures(colon_on: bool)
    ensures
        glyph_of('0', colon_on) matches Some(g) && pictured(g, seq!["########"@, "##    ##"@, "##    ##"@, "##    ##"@, "##    ##"@, "##    ##"@, "########"@]),
        glyph_of('1', colon_on) matches Some(g) && pictured(g, seq!["  ###   "@, " ####   "@, "   ##   "@, "   ##   "@, "   ##   "@, "   ##   "@, "########"@]),
        glyph_of('2', colon_on) matches Some(g) && pictured(g, seq!["########"@, "      ##"@, "      ##"@, "########"@, "##      "@, "##      "@, "########"@]),
        glyph_of('3', colon_on) matches Some(g) && pictured(g, seq!["########"@, "      ##"@, "      ##"@, "########"@, "      ##"@, "      ##"@, "########"@]),
        glyph_of('4', colon_on) matches Some(g) && pictured(g, seq!["##    ##"@, "##    ##"@, "##    ##"@, "##    ##"@, "########"@, "      ##"@, "      ##"@]),
        glyph_of('5', colon_on) matches Some(g) && pictured(g, seq!["########"@, "##      "@, "##      "@, "########"@, "      ##"@, "      ##"@, "########"@]),
        glyph_of('6', colon_on) matches Some(g) && pictured(g, seq!["########"@, "##      "@, "##      "@, "########"@, "##    ##"@, "##    ##"@, "########"@]),
        glyph_of('7', colon_on) matches Some(g) && pictured(g, seq!["########"@, "      ##"@, "    ##  "@, "   ##   "@, "   ##   "@, "   ##   "@, "   ##   "@]),
        glyph_of('8', colon_on) matches Some(g) && pictured(g, seq!["########"@, "##    ##"@, "##    ##"@, "########"@, "##    ##"@, "##    ##"@, "########"@]),
        glyph_of('9', colon_on) matches Some(g) && pictured(g, seq!["########"@, "##    ##"@, "##    ##"@, "########"@, "      ##"@, "      ##"@, "########"@]),
        glyph_of(':', true) matches Some(g) && pictured(g, seq!["        "@, "   ##   "@, "   ##   "@, "        "@, "   ##   "@, "   ##   "@, "        "@]),
        glyph_of(':', false) matches Some(g) && pictured(g, seq!["        "@, "        "@, "        "@, "        "@, "        "@, "        "@, "        "@]),
{
}

} // verus!
