//! Character-level text handling for the configuration format: whitespace,
//! trimming, searching and ASCII case-insensitive comparison, stated over
//! `Seq<char>` and implemented on character vectors.
use vstd::prelude::*;

verus! {

/// Unicode `White_Space`: the characters that `char::is_whitespace` accepts.
pub open spec fn is_whitespace(c: char) -> bool {
    ||| c == '\t' || c == '\n' || c == '\u{0B}' || c == '\u{0C}' || c == '\r' || c == ' '
    ||| c == '\u{85}' || c == '\u{A0}' || c == '\u{1680}'
    ||| ('\u{2000}' <= c && c <= '\u{200A}')
    ||| c == '\u{2028}' || c == '\u{2029}' || c == '\u{202F}' || c == '\u{205F}'
    ||| c == '\u{3000}'
}

/// Which characters a trim removes from both ends.
#[derive(Clone, Copy, PartialEq, Eq, Structural)]
pub enum Strip {
    Whitespace,
    Quote,
}

pub open spec fn stripped(kind: Strip, c: char) -> bool {
    match kind {
        Strip::Whitespace => is_whitespace(c),
        Strip::Quote => c == '"',
    }
}

/// `s` without its leading characters of the given kind.
pub open spec fn trim_start(s: Seq<char>, kind: Strip) -> Seq<char>
    decreases s.len(),
{
    if s.len() > 0 && stripped(kind, s[0]) {
        trim_start(s.drop_first(), kind)
    } else {
        s
    }
}

/// `s` without its trailing characters of the given kind.
pub open spec fn trim_end(s: Seq<char>, kind: Strip) -> Seq<char>
    decreases s.len(),
{
    if s.len() > 0 && stripped(kind, s.last()) {
        trim_end(s.drop_last(), kind)
    } else {
        s
    }
}

/// `s` without leading and trailing characters of the given kind
/// (`str::trim` for whitespace, `str::trim_matches('"')` for quotes).
pub open spec fn trim_by(s: Seq<char>, kind: Strip) -> Seq<char> {
    trim_end(trim_start(s, kind), kind)
}

pub open spec fn trim(s: Seq<char>) -> Seq<char> {
    trim_by(s, Strip::Whitespace)
}

pub open spec fn trim_quotes(s: Seq<char>) -> Seq<char> {
    trim_by(s, Strip::Quote)
}

/// Index of the first occurrence of `c` in `s`.
pub open spec fn find_char(s: Seq<char>, c: char) -> Option<int>
    decreases s.len(),
{
    if s.len() == 0 {
        None
    } else if s[0] == c {
        Some(0)
    } else {
        match find_char(s.drop_first(), c) {
            Some(i) => Some(i + 1),
            None => None,
        }
    }
}

/// The code of `c` with ASCII upper-case letters mapped to lower case.
pub open spec fn ascii_lower(c: char) -> int {
    if 'A' <= c && c <= 'Z' {
        c as int + 32
    } else {
        c as int
    }
}

/// `str::eq_ignore_ascii_case`: equal once ASCII letters are folded to lower case.
pub open spec fn eq_ignore_ascii_case(a: Seq<char>, b: Seq<char>) -> bool {
    &&& a.len() == b.len()
    &&& forall|i: int| 0 <= i < a.len() ==> ascii_lower(#[trigger] a[i]) == ascii_lower(b[i])
}

/// The parts joined into one text, with `sep` between neighbours.
pub open spec fn join(parts: Seq<Seq<char>>, sep: Seq<char>) -> Seq<char>
    decreases parts.len(),
{
    if parts.len() == 0 {
        Seq::empty()
    } else if parts.len() == 1 {
        parts[0]
    } else {
        join(parts.drop_last(), sep) + sep + parts.last()
    }
}

/// The characters of a string slice, in order.
pub fn chars_of(s: &str) -> (v: Vec<char>)
    ensures
        v@ == s@,
{
    let mut v: Vec<char> = Vec::new();
    for c in it: s.chars()
        invariant
            v@ == it.seq().take(it.index() as int),
            it.seq() == s@,
    {
        v.push(c);
    }
    v
}

/// `char::is_whitespace`.
pub fn is_whitespace_char(c: char) -> (r: bool)
    ensures
        r == is_whitespace(c),
{
    c == '\t' || c == '\n' || c == '\u{0B}' || c == '\u{0C}' || c == '\r' || c == ' ' || c
        == '\u{85}' || c == '\u{A0}' || c == '\u{1680}' || ('\u{2000}' <= c && c <= '\u{200A}')
        || c == '\u{2028}' || c == '\u{2029}' || c == '\u{202F}' || c == '\u{205F}' || c
        == '\u{3000}'
}

fn is_stripped(kind: Strip, c: char) -> (r: bool)
    ensures
        r == stripped(kind, c),
{
    match kind {
        Strip::Whitespace => is_whitespace_char(c),
        Strip::Quote => c == '"',
    }
}

/// The bounds, inside `lo..hi`, of `v[lo..hi]` trimmed of the given kind.
pub fn trim_range(v: &Vec<char>, lo: usize, hi: usize, kind: Strip) -> (r: (usize, usize))
    requires
        lo <= hi <= v@.len(),
    ensures
        lo <= r.0 <= r.1 <= hi,
        v@.subrange(r.0 as int, r.1 as int) == trim_by(v@.subrange(lo as int, hi as int), kind),
{
    let mut a = lo;
    while a < hi && is_stripped(kind, v[a])
        invariant
            lo <= a <= hi <= v@.len(),
            trim_start(v@.subrange(lo as int, hi as int), kind) == trim_start(
                v@.subrange(a as int, hi as int),
                kind,
            ),
        decreases hi - a,
    {
        assert(v@.subrange(a as int, hi as int).drop_first() =~= v@.subrange(
            a + 1,
            hi as int,
        ));
        a = a + 1;
    }
    assert(trim_start(v@.subrange(a as int, hi as int), kind) == v@.subrange(a as int, hi as int));
    let mut b = hi;
    while b > a && is_stripped(kind, v[b - 1])
        invariant
            lo <= a <= b <= hi <= v@.len(),
            trim_end(v@.subrange(a as int, hi as int), kind) == trim_end(
                v@.subrange(a as int, b as int),
                kind,
            ),
        decreases b - a,
    {
        assert(v@.subrange(a as int, b as int).drop_last() =~= v@.subrange(
            a as int,
            b - 1,
        ));
        b = b - 1;
    }
    (a, b)
}

/// The first position of `c` inside `v[lo..hi]`.
pub fn find_in_range(v: &Vec<char>, lo: usize, hi: usize, c: char) -> (r: Option<usize>)
    requires
        lo <= hi <= v@.len(),
    ensures
        match r {
            Some(k) => lo <= k < hi && find_char(v@.subrange(lo as int, hi as int), c) == Some(
                k - lo,
            ),
            None => find_char(v@.subrange(lo as int, hi as int), c) is None,
        },
{
    let mut i = lo;
    while i < hi
        invariant
            lo <= i <= hi <= v@.len(),
            find_char(v@.subrange(lo as int, hi as int), c) == match find_char(
                v@.subrange(i as int, hi as int),
                c,
            ) {
                Some(j) => Some(j + (i - lo)),
                None => None::<int>,
            },
        decreases hi - i,
    {
        if v[i] == c {
            return Some(i);
        }
        assert(v@.subrange(i as int, hi as int).drop_first() =~= v@.subrange(i + 1, hi as int));
        i = i + 1;
    }
    None
}

/// Whether `v[lo..hi]` is exactly `w`.
pub fn range_equals(v: &Vec<char>, lo: usize, hi: usize, w: &Vec<char>) -> (r: bool)
    requires
        lo <= hi <= v@.len(),
    ensures
        r == (v@.subrange(lo as int, hi as int) == w@),
{
    if hi - lo != w.len() {
        return false;
    }
    let mut i: usize = 0;
    while i < w.len()
        invariant
            hi - lo == w@.len(),
            lo <= hi <= v@.len(),
            0 <= i <= w@.len(),
            forall|j: int| 0 <= j < i ==> v@[lo + j] == w@[j],
        decreases w@.len() - i,
    {
        if v[lo + i] != w[i] {
            assert(v@.subrange(lo as int, hi as int)[i as int] != w@[i as int]);
            return false;
        }
        i = i + 1;
    }
    assert(v@.subrange(lo as int, hi as int) =~= w@);
    true
}

/// The case-folded code of `c`, as `ascii_lower` states it.
fn lower_code(c: char) -> (r: u32)
    ensures
        r == ascii_lower(c),
{
    let x = c as u32;
    if 'A' <= c && c <= 'Z' {
        x + 32
    } else {
        x
    }
}

/// `str::eq_ignore_ascii_case` on two string slices.
pub fn str_eq_ignore_ascii_case(a: &str, b: &str) -> (r: bool)
    ensures
        r == eq_ignore_ascii_case(a@, b@),
{
    let x = chars_of(a);
    let y = chars_of(b);
    if x.len() != y.len() {
        return false;
    }
    let mut i: usize = 0;
    while i < x.len()
        invariant
            x@ == a@,
            y@ == b@,
            x@.len() == y@.len(),
            0 <= i <= x@.len(),
            forall|j: int| 0 <= j < i ==> ascii_lower(#[trigger] x@[j]) == ascii_lower(y@[j]),
        decreases x@.len() - i,
    {
        if lower_code(x[i]) != lower_code(y[i]) {
            return false;
        }
        i = i + 1;
    }
    true
}

/// `find_char` gives the first occurrence: an index holding `c`, with no `c` before it.
pub proof fn lemma_find_char_first(s: Seq<char>, c: char)
    ensures
        match find_char(s, c) {
            Some(i) => 0 <= i < s.len() && s[i] == c && forall|j: int| 0 <= j < i ==> s[j] != c,
            None => forall|j: int| 0 <= j < s.len() ==> s[j] != c,
        },
    decreases s.len(),
{
    if s.len() > 0 && s[0] != c {
        lemma_find_char_first(s.drop_first(), c);
        assert forall|j: int| 0 < j < s.len() implies s[j] == s.drop_first()[j - 1] by {}
    }
}

/// Searching a concatenation searches the first part, then the second.
pub proof fn lemma_find_char_concat(a: Seq<char>, b: Seq<char>, c: char)
    ensures
        find_char(a + b, c) == match find_char(a, c) {
            Some(i) => Some(i),
            None => match find_char(b, c) {
                Some(j) => Some(j + a.len()),
                None => None::<int>,
            },
        },
    decreases a.len(),
{
    if a.len() == 0 {
        assert(a + b =~= b);
    } else {
        assert((a + b).drop_first() =~= a.drop_first() + b);
        lemma_find_char_concat(a.drop_first(), b, c);
    }
}

/// A character of `c` that does not occur in `s` is not found.
pub proof fn lemma_find_char_absent(s: Seq<char>, c: char)
    requires
        forall|i: int| 0 <= i < s.len() ==> s[i] != c,
    ensures
        find_char(s, c) is None,
    decreases s.len(),
{
    if s.len() > 0 {
        lemma_find_char_absent(s.drop_first(), c);
    }
}

/// When the first character is kept, trimming the end keeps it too.
pub proof fn lemma_trim_end_keeps_first(s: Seq<char>, kind: Strip)
    requires
        s.len() > 0,
        !stripped(kind, s[0]),
    ensures
        trim_end(s, kind).len() > 0,
        trim_end(s, kind)[0] == s[0],
    decreases s.len(),
{
    if s.len() > 1 && stripped(kind, s.last()) {
        lemma_trim_end_keeps_first(s.drop_last(), kind);
    }
}

/// Trailing characters of the trimmed kind do not change the trimmed text.
pub proof fn lemma_trim_end_padding(s: Seq<char>, pad: Seq<char>, kind: Strip)
    requires
        forall|i: int| 0 <= i < pad.len() ==> stripped(kind, #[trigger] pad[i]),
    ensures
        trim_end(s + pad, kind) == trim_end(s, kind),
    decreases pad.len(),
{
    if pad.len() == 0 {
        assert(s + pad =~= s);
    } else {
        assert((s + pad).drop_last() =~= s + pad.drop_last());
        lemma_trim_end_padding(s, pad.drop_last(), kind);
    }
}

/// Leading characters of the trimmed kind do not change the trimmed text.
pub proof fn lemma_trim_start_padding(pad: Seq<char>, s: Seq<char>, kind: Strip)
    requires
        forall|i: int| 0 <= i < pad.len() ==> stripped(kind, #[trigger] pad[i]),
    ensures
        trim_start(pad + s, kind) == trim_start(s, kind),
    decreases pad.len(),
{
    if pad.len() == 0 {
        assert(pad + s =~= s);
    } else {
        assert((pad + s).drop_first() =~= pad.drop_first() + s);
        lemma_trim_start_padding(pad.drop_first(), s, kind);
    }
}

/// A text whose first and last characters are kept is its own trim.
pub proof fn lemma_trim_unchanged(s: Seq<char>, kind: Strip)
    requires
        s.len() > 0,
        !stripped(kind, s[0]),
        !stripped(kind, s.last()),
    ensures
        trim_by(s, kind) == s,
{
}

} // verus!
