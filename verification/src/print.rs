//! The lines that popcorn prints: a coloured tag, a colon and the message.
//! Whether the terminal takes colours is decided by `console` at run time,
//! so each line is stated in both its plain and its coloured form.

use vstd::prelude::*;

use crate::text::decimal;

verus! {

/// `text` in the 256-colour `color`, as ANSI escapes write it.
pub open spec fn ansi_color256(text: Seq<char>, color: u8) -> Seq<char> {
    "\x1b[38;5;"@ + decimal(color as nat) + "m"@ + text + "\x1b[0m"@
}

/// `text` in bold, as ANSI escapes write it.
pub open spec fn ansi_bold(text: Seq<char>) -> Seq<char> {
    "\x1b[1m"@ + text + "\x1b[0m"@
}

/// `console::style(text).color256(color)`, displayed: `text` itself when
/// `console` finds colours off for stdout, else `text` wrapped in the
/// escapes of that colour (its `Display` impl writes `\x1b[38;5;<n>m`, the
/// text, and `\x1b[0m`).
#[verifier::external_body]
fn paint(text: &str, color: u8) -> (r: String)
    ensures
        r@ == text@ || r@ == ansi_color256(text@, color),
{
    format!("{}", console::style(text).color256(color))
}

/// `console::style(text).bold()`, displayed: `text` itself when colours are
/// off, else `text` between `\x1b[1m` and `\x1b[0m`.
#[verifier::external_body]
fn embolden(text: &str) -> (r: String)
    ensures
        r@ == text@ || r@ == ansi_bold(text@),
{
    format!("{}", console::style(text).bold())
}

/// A decimal digit.
pub open spec fn is_digit(c: char) -> bool {
    '0' <= c <= '9'
}

/// A time of day as `%H:%M:%S` writes it: two digits each for the hour,
/// the minute and the second, joined by colons.
pub open spec fn is_clock_time(t: Seq<char>) -> bool {
    &&& t.len() == 8
    &&& t[2] == ':' && t[5] == ':'
    &&& is_digit(t[0]) && is_digit(t[1]) && is_digit(t[3]) && is_digit(t[4])
    &&& is_digit(t[6]) && is_digit(t[7])
}

/// The local time of day, `chrono::Local::now().format("%H:%M:%S")`: which
/// time it is depends on the clock; its shape is that of `%H:%M:%S`, whose
/// fields chrono pads to two digits.
#[verifier::external_body]
fn clock_time() -> (r: String)
    ensures
        is_clock_time(r@),
{
    format!("{}", chrono::Local::now().format("%H:%M:%S"))
}

/// `line` is `notation`, plain or in `color`, then `": "` and `message`.
pub open spec fn tagged_line(line: Seq<char>, notation: Seq<char>, message: Seq<char>, color: u8) -> bool {
    line == notation + ": "@ + message || line == ansi_color256(notation, color) + ": "@ + message
}

/// The printer of popcorn's messages; each method gives the line to print.
pub struct Print;

impl Print {
    fn print_color(notation: &str, message: &str, color: u8) -> (line: String)
        ensures
            tagged_line(line@, notation@, message@, color),
    {
        let mut line = paint(notation, color);
        line.append(": ");
        line.append(message);
        line
    }

    /// The message in bold.
    pub fn bold(message: &str) -> (line: String)
        ensures
            line@ == message@ || line@ == ansi_bold(message@),
    {
        embolden(message)
    }

    /// `[ERROR]` in red, then the message.
    pub fn error(message: &str) -> (line: String)
        ensures
            tagged_line(line@, "[ERROR]"@, message@, 1),
    {
        Self::print_color("[ERROR]", message, 1)
    }

    /// `[SUCCESS]` in green, then the message.
    pub fn success(message: &str) -> (line: String)
        ensures
            tagged_line(line@, "[SUCCESS]"@, message@, 48),
    {
        Self::print_color("[SUCCESS]", message, 48)
    }

    /// `[WARN]`, then the message.
    pub fn warn(message: &str) -> (line: String)
        ensures
            tagged_line(line@, "[WARN]"@, message@, 10),
    {
        Self::print_color("[WARN]", message, 10)
    }

    /// `[INFO]` in blue, then the message.
    pub fn info(message: &str) -> (line: String)
        ensures
            tagged_line(line@, "[INFO]"@, message@, 4),
    {
        Self::print_color("[INFO]", message, 4)
    }

    /// `[EVENT @ <time>]`, then the message, the time being the local time of
    /// day (`HH:MM:SS`) when the line is made.
    pub fn event(message: &str) -> (line: String)
        ensures
            exists|time: Seq<char>|
                is_clock_time(time) && tagged_line(line@, "[EVENT @ "@ + time + "]"@, message@, 13),
    {
        let time = clock_time();
        let mut notation = String::new();
        notation.append("[EVENT @ ");
        notation.append(time.as_str());
        notation.append("]");
        let line = Self::print_color(notation.as_str(), message, 13);
        assert(is_clock_time(time@) && tagged_line(line@, "[EVENT @ "@ + time@ + "]"@, message@, 13));
        line
    }
}

} // verus!
