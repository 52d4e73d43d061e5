use crate::error::LogError;
use crate::level::{level_name, LogLevel};
use crate::timestamp::{
    decimal, digit, is_digit, is_stamp_shape, magnitude_text, year_text, Timestamp,
};
use vstd::prelude::*;

verus! {

/// The canonical line `[<stamp>] [<LEVEL>] <message>`.
pub open spec fn line_text(at: Timestamp, level: LogLevel, message: Seq<char>) -> Seq<char> {
    seq!['['] + at.text() + seq![']', ' ', '['] + level_name(level) + seq![']', ' '] + message
}

/// Characters of the Unicode `White_Space` property.
pub open spec fn white_space(c: char) -> bool {
    ('\u{9}' <= c && c <= '\u{d}') || c == ' ' || c == '\u{85}' || c == '\u{a0}' || c
        == '\u{1680}' || ('\u{2000}' <= c && c <= '\u{200a}') || c == '\u{2028}' || c
        == '\u{2029}' || c == '\u{202f}' || c == '\u{205f}' || c == '\u{3000}'
}

/// The first position at or after `from` that holds `c`.
pub open spec fn find_from(s: Seq<char>, c: char, from: int) -> Option<int>
    decreases s.len() - from,
{
    if from < 0 || from >= s.len() {
        None
    } else if s[from] == c {
        Some(from)
    } else {
        find_from(s, c, from + 1)
    }
}

/// The first position at or after `from` that holds no white space (or the end).
pub open spec fn skip_ws(s: Seq<char>, from: int) -> int
    decreases s.len() - from,
{
    if from < 0 || from >= s.len() {
        from
    } else if white_space(s[from]) {
        skip_ws(s, from + 1)
    } else {
        from
    }
}

/// `s` without its leading white space.
pub open spec fn trim_start(s: Seq<char>) -> Seq<char> {
    s.subrange(skip_ws(s, 0), s.len() as int)
}

/// The three segments of a line, by a left-to-right bracket scan: everything up
/// to the first `]` (the timestamp segment); after white space, everything up to
/// the next `]` (the level segment); the rest without leading white space (the
/// body). `None` where either `]` is missing.
pub open spec fn split_line(s: Seq<char>) -> Option<(Seq<char>, Seq<char>, Seq<char>)> {
    match find_from(s, ']', 0) {
        None => None,
        Some(i) => {
            let j = skip_ws(s, i + 1);
            match find_from(s, ']', j) {
                None => None,
                Some(k) => Some(
                    (s.subrange(0, i + 1), s.subrange(j, k + 1), s.subrange(
                        skip_ws(s, k + 1),
                        s.len() as int,
                    )),
                ),
            }
        },
    }
}

/// The text of the error for a line that `split_line` rejects: it names the
/// bracket that is missing, the timestamp's or the level's, and holds the line.
pub open spec fn format_error_text(s: Seq<char>) -> Seq<char> {
    if find_from(s, ']', 0) is None {
        "Missing closing bracket for timestamp in message: "@ + s
    } else {
        "Missing closing bracket for log level in message: "@ + s
    }
}

/// The segments of a formatted line.
#[derive(Debug, Clone)]
pub struct ParsedLine {
    /// The bracketed timestamp, `[` and `]` included.
    pub timestamp: String,
    /// The bracketed level token, `[` and `]` included.
    pub level: String,
    /// The message body.
    pub body: String,
}

/// Builds the canonical line for a message at a given time.
pub fn format_line(at: &Timestamp, level: LogLevel, message: &str) -> (r: String)
    requires
        at.wf(),
    ensures
        r@ == line_text(*at, level, message@),
{
    let mut s = String::from_str("[");
    let stamp = at.format();
    s.append(stamp.as_str());
    s.append("] [");
    s.append(level.name());
    s.append("] ");
    s.append(message);
    proof {
        reveal_strlit("[");
        reveal_strlit("] [");
        reveal_strlit("] ");
        assert("["@ =~= seq!['[']);
        assert("] ["@ =~= seq![']', ' ', '[']);
        assert("] "@ =~= seq![']', ' ']);
    }
    s
}

fn is_white_space(c: char) -> (r: bool)
    ensures
        r == white_space(c),
{
    ('\u{9}' <= c && c <= '\u{d}') || c == ' ' || c == '\u{85}' || c == '\u{a0}' || c
        == '\u{1680}' || ('\u{2000}' <= c && c <= '\u{200a}') || c == '\u{2028}' || c
        == '\u{2029}' || c == '\u{202f}' || c == '\u{205f}' || c == '\u{3000}'
}

fn find_char(s: &str, n: usize, c: char, from: usize) -> (r: Option<usize>)
    requires
        n == s@.len(),
        from <= n,
    ensures
        match r {
            Some(i) => from <= i < n && find_from(s@, c, from as int) == Some(i as int),
            None => find_from(s@, c, from as int) is None,
        },
{
    let mut i = from;
    while i < n
        invariant
            from <= i <= n,
            n == s@.len(),
            find_from(s@, c, from as int) == find_from(s@, c, i as int),
        decreases n - i,
    {
        if s.get_char(i) == c {
            return Some(i);
        }
        i += 1;
    }
    None
}

fn skip_white_space(s: &str, n: usize, from: usize) -> (r: usize)
    requires
        n == s@.len(),
        from <= n,
    ensures
        r as int == skip_ws(s@, from as int),
        from <= r <= n,
{
    let mut i = from;
    while i < n && is_white_space(s.get_char(i))
        invariant
            from <= i <= n,
            n == s@.len(),
            skip_ws(s@, from as int) == skip_ws(s@, i as int),
        decreases n - i,
    {
        i += 1;
    }
    i
}

/// Splits a formatted line into its timestamp, level and body segments; fails
/// with `InvalidFormat` where a `]` is missing, naming the missing bracket.
pub fn parse_line(line: &str) -> (r: Result<ParsedLine, LogError>)
    ensures
        match split_line(line@) {
            Some(p) => r matches Ok(v) && v.timestamp@ == p.0 && v.level@ == p.1 && v.body@
                == p.2,
            None => r matches Err(LogError::InvalidFormat(m)) && m@ == format_error_text(line@),
        },
{
    let n = line.unicode_len();
    match find_char(line, n, ']', 0) {
        None => {
            let mut m = String::from_str("Missing closing bracket for timestamp in message: ");
            m.append(line);
            Err(LogError::InvalidFormat(m))
        },
        Some(i) => {
            let j = skip_white_space(line, n, i + 1);
            match find_char(line, n, ']', j) {
                None => {
                    let mut m = String::from_str(
                        "Missing closing bracket for log level in message: ",
                    );
                    m.append(line);
                    Err(LogError::InvalidFormat(m))
                },
                Some(k) => {
                    let b = skip_white_space(line, n, k + 1);
                    Ok(
                        ParsedLine {
                            timestamp: String::from_str(line.substring_char(0, i + 1)),
                            level: String::from_str(line.substring_char(j, k + 1)),
                            body: String::from_str(line.substring_char(b, n)),
                        },
                    )
                },
            }
        },
    }
}

proof fn lemma_find_at(s: Seq<char>, c: char, from: int, to: int)
    requires
        0 <= from <= to < s.len(),
        forall|i: int| from <= i < to ==> s[i] != c,
        s[to] == c,
    ensures
        find_from(s, c, from) == Some(to),
    decreases to - from,
{
    if from < to {
        lemma_find_at(s, c, from + 1, to);
    }
}

proof fn lemma_skip_ws_shift(p: Seq<char>, m: Seq<char>, i: int)
    requires
        0 <= i <= m.len(),
    ensures
        skip_ws(p + m, p.len() + i) == p.len() + skip_ws(m, i),
        i <= skip_ws(m, i) <= m.len(),
    decreases m.len() - i,
{
    let s = p + m;
    if i < m.len() {
        assert(s[p.len() + i] == m[i]);
        if white_space(m[i]) {
            lemma_skip_ws_shift(p, m, i + 1);
            assert(p.len() + i + 1 == p.len() + (i + 1));
        }
    }
}

proof fn lemma_decimal_digits(n: nat)
    ensures
        forall|i: int| 0 <= i < decimal(n).len() ==> is_digit(#[trigger] decimal(n)[i]),
    decreases n,
{
    assert(forall|d: int| is_digit(#[trigger] digit(d)));
    if n >= 10 {
        lemma_decimal_digits(n / 10);
        let d = decimal(n);
        assert forall|i: int| 0 <= i < d.len() implies is_digit(#[trigger] d[i]) by {
            if i < decimal(n / 10).len() {
                assert(d[i] == decimal(n / 10)[i]);
            }
        }
    }
}

proof fn lemma_stamp_has_no_bracket(at: Timestamp)
    ensures
        forall|i: int| 0 <= i < at.text().len() ==> #[trigger] at.text()[i] != ']',
{
    assert(forall|d: int| is_digit(#[trigger] digit(d)));
    let y = at.year as int;
    let mag: nat = if y < 0 {
        (-y) as nat
    } else {
        y as nat
    };
    lemma_decimal_digits(mag);
    let yt = year_text(y);
    assert forall|i: int| 0 <= i < yt.len() implies #[trigger] yt[i] != ']' by {
        if (y < 0 || y > 9999) && i > 0 {
            assert(yt[i] == magnitude_text(mag)[i - 1]);
        }
    }
    let t = at.text();
    assert forall|i: int| 0 <= i < t.len() implies #[trigger] t[i] != ']' by {
        if i < yt.len() {
            assert(t[i] == yt[i]);
        }
    }
}

proof fn lemma_name_has_no_bracket(level: LogLevel)
    ensures
        forall|i: int| 0 <= i < level_name(level).len() ==> #[trigger] level_name(level)[i] != ']',
{
    reveal_strlit("DEBUG");
    reveal_strlit("INFO");
    reveal_strlit("WARNING");
    reveal_strlit("ERROR");
}

/// Parsing a formatted line gives back the bracketed stamp, the bracketed
/// level name, and the message without its leading white space.
pub proof fn lemma_split_formatted(at: Timestamp, level: LogLevel, message: Seq<char>)
    ensures
        split_line(line_text(at, level, message)) == Some(
            (
                seq!['['] + at.text() + seq![']'],
                seq!['['] + level_name(level) + seq![']'],
                trim_start(message),
            ),
        ),
{
    let t = at.text();
    let nm = level_name(level);
    let s = line_text(at, level, message);
    let p = seq!['['] + t + seq![']', ' ', '['] + nm + seq![']', ' '];
    assert(s =~= p + message);
    let l = t.len() as int;
    let k = l + 4 + nm.len();
    lemma_stamp_has_no_bracket(at);
    lemma_name_has_no_bracket(level);
    assert forall|i: int| 0 <= i < l + 1 implies s[i] != ']' by {
        if i > 0 {
            assert(s[i] == t[i - 1]);
        }
    }
    assert(s[l + 1] == ']');
    lemma_find_at(s, ']', 0, l + 1);
    assert(s[l + 2] == ' ' && s[l + 3] == '[');
    assert(skip_ws(s, l + 3) == l + 3);
    assert(skip_ws(s, l + 2) == l + 3);
    assert forall|i: int| l + 3 <= i < k implies s[i] != ']' by {
        if i > l + 3 {
            assert(s[i] == nm[i - l - 4]);
        }
    }
    assert(s[k] == ']');
    lemma_find_at(s, ']', l + 3, k);
    lemma_skip_ws_shift(p, message, 0);
    assert(s[k + 1] == ' ');
    assert(p.len() == k + 2);
    assert(skip_ws(s, k + 1) == skip_ws(s, k + 2));
    let b = skip_ws(message, 0);
    assert(s.subrange(0, l + 2) =~= seq!['['] + t + seq![']']);
    assert(s.subrange(l + 3, k + 1) =~= seq!['['] + nm + seq![']']);
    assert(s.subrange(k + 2 + b, s.len() as int) =~= trim_start(message));
}

proof fn lemma_find_none(s: Seq<char>, c: char, from: int)
    requires
        0 <= from,
        forall|i: int| from <= i < s.len() ==> s[i] != c,
    ensures
        find_from(s, c, from) is None,
    decreases s.len() - from,
{
    if from < s.len() {
        lemma_find_none(s, c, from + 1);
    }
}

/// A line that holds no `]` has no timestamp segment, so it is rejected.
pub proof fn lemma_unbracketed_rejected(s: Seq<char>)
    requires
        forall|i: int| 0 <= i < s.len() ==> s[i] != ']',
    ensures
        split_line(s) is None,
{
    lemma_find_none(s, ']', 0);
}

/// A formatted line is the bracketed stamp, a space, and then the bracketed
/// level name, a space and the message; for a year from 0 to 9999 the stamp
/// has the shape `DDDD-DD-DD DD:DD:DD`.
pub proof fn lemma_line_contents(at: Timestamp, level: LogLevel, message: Seq<char>)
    requires
        at.wf(),
        0 <= at.year <= 9999,
    ensures
        line_text(at, level, message) == seq!['['] + at.text() + seq![']', ' '] + (seq!['[']
            + level_name(level) + seq![']', ' '] + message),
        is_stamp_shape(at.text()),
{
    crate::timestamp::lemma_stamp_shape(at);
    assert(line_text(at, level, message) =~= seq!['['] + at.text() + seq![']', ' '] + (seq!['[']
        + level_name(level) + seq![']', ' '] + message));
}

} // verus!
