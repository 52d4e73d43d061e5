use crate::error::LogError;
use crate::line::{format_error_text, parse_line, split_line};
use colored::Colorize;
use vstd::prelude::*;

verus! {

/// A terminal foreground colour.
#[derive(Debug, Clone, Copy, PartialEq, Eq, Structural)]
pub enum Color {
    Blue,
    Green,
    Yellow,
    Red,
}

/// The ANSI select-graphic-rendition code of a foreground colour.
pub open spec fn color_code(c: Color) -> Seq<char> {
    match c {
        Color::Blue => seq!['3', '4'],
        Color::Green => seq!['3', '2'],
        Color::Yellow => seq!['3', '3'],
        Color::Red => seq!['3', '1'],
    }
}

/// The escape sequence that turns colour on.
pub open spec fn color_on(c: Color) -> Seq<char> {
    seq!['\u{1b}', '['] + color_code(c) + seq!['m']
}

/// The escape sequence that resets all styling.
pub open spec fn color_off() -> Seq<char> {
    seq!['\u{1b}', '[', '0', 'm']
}

/// `text` holds no escape character.
pub open spec fn escape_free(text: Seq<char>) -> bool {
    forall|i: int| 0 <= i < text.len() ==> text[i] != '\u{1b}'
}

/// The colour of a recognised bracketed level token.
pub open spec fn level_color(token: Seq<char>) -> Option<Color> {
    if token == "[DEBUG]"@ {
        Some(Color::Blue)
    } else if token == "[INFO]"@ {
        Some(Color::Green)
    } else if token == "[WARNING]"@ {
        Some(Color::Yellow)
    } else if token == "[ERROR]"@ {
        Some(Color::Red)
    } else {
        None
    }
}

/// How a level token may appear on the terminal: a recognised token in its
/// colour, or plain where the terminal takes no colour; any other token as a
/// plain `[UNKNOWN]`.
pub open spec fn shown_level(token: Seq<char>, shown: Seq<char>) -> bool {
    match level_color(token) {
        Some(c) => shown == token || shown == color_on(c) + token + color_off(),
        None => shown == "[UNKNOWN]"@,
    }
}

/// Relies on colored's `Colorize::color` and on the `Display` of the
/// `ColoredString` it gives: where colouring is off (by the environment or
/// the terminal) the text comes back unchanged; otherwise, for a text without
/// an escape character, it comes back between `ESC[<code>m` and `ESC[0m`.
#[verifier::external_body]
fn paint(text: &str, color: Color) -> (r: String)
    requires
        escape_free(text@),
    ensures
        r@ == text@ || r@ == color_on(color) + text@ + color_off(),
{
    let c = match color {
        Color::Blue => colored::Color::Blue,
        Color::Green => colored::Color::Green,
        Color::Yellow => colored::Color::Yellow,
        Color::Red => colored::Color::Red,
    };
    text.color(c).to_string()
}

/// Relies on colored's `Colorize::normal`: it clears all styling, and the
/// `Display` of an unstyled `ColoredString` writes its text unchanged.
#[verifier::external_body]
fn plain(text: &str) -> (r: String)
    ensures
        r@ == text@,
{
    text.normal().to_string()
}

fn same_text(a: &str, b: &str) -> (r: bool)
    ensures
        r == (a@ == b@),
{
    let n = a.unicode_len();
    if n != b.unicode_len() {
        return false;
    }
    let mut i: usize = 0;
    while i < n
        invariant
            n == a@.len() == b@.len(),
            i <= n,
            forall|j: int| 0 <= j < i ==> a@[j] == b@[j],
        decreases n - i,
    {
        if a.get_char(i) != b.get_char(i) {
            return false;
        }
        i += 1;
    }
    assert(a@ =~= b@);
    true
}

/// The colour of a bracketed level token, or `None` for an unrecognised one.
pub fn color_of(token: &str) -> (r: Option<Color>)
    ensures
        r == level_color(token@),
{
    if same_text(token, "[DEBUG]") {
        Some(Color::Blue)
    } else if same_text(token, "[INFO]") {
        Some(Color::Green)
    } else if same_text(token, "[WARNING]") {
        Some(Color::Yellow)
    } else if same_text(token, "[ERROR]") {
        Some(Color::Red)
    } else {
        None
    }
}

/// A writer for the terminal that recovers a line's level by parsing it, to
/// show the level in its colour.
#[derive(Debug, Clone, Copy)]
pub struct ConsoleLogWriter;

impl ConsoleLogWriter {
    /// The text to show for a formatted line: its timestamp segment, the level
    /// token as `shown_level` allows, and the body, separated by single spaces.
    /// Fails with `InvalidFormat`, naming the missing bracket and holding the
    /// line, where a `]` is missing; an unrecognised level token is no failure.
    pub fn render(&self, line: &str) -> (r: Result<String, LogError>)
        ensures
            match split_line(line@) {
                Some(p) => r matches Ok(v) && exists|shown: Seq<char>|
                    shown_level(p.1, shown) && v@ == p.0 + seq![' '] + shown + seq![' '] + p.2,
                None => r matches Err(LogError::InvalidFormat(m)) && m@ == format_error_text(
                    line@,
                ),
            },
    {
        match parse_line(line) {
            Err(e) => Err(e),
            Ok(parsed) => {
                proof {
                    reveal_strlit("[DEBUG]");
                    reveal_strlit("[INFO]");
                    reveal_strlit("[WARNING]");
                    reveal_strlit("[ERROR]");
                    reveal_strlit("[UNKNOWN]");
                    reveal_strlit(" ");
                    assert(" "@ =~= seq![' ']);
                }
                let shown = match color_of(parsed.level.as_str()) {
                    Some(c) => {
                        assert(escape_free(parsed.level@));
                        paint(parsed.level.as_str(), c)
                    },
                    None => plain("[UNKNOWN]"),
                };
                let mut out = parsed.timestamp;
                out.append(" ");
                out.append(shown.as_str());
                out.append(" ");
                out.append(parsed.body.as_str());
                assert(shown_level(parsed.level@, shown@));
                Ok(out)
            },
        }
    }
}

} // verus!
