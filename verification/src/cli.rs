//! The decisions of the command-line tools: what a prompt says, what an
//! answer means, how the search words become one query, and which series
//! pass the fixed filters on votes and genre.

use vstd::prelude::*;
use vstd::string::*;

use crate::text::{decimal, decimal_string, join_with, joined_with};
use crate::tvdb_api::SeriesDetailedInfo;

verus! {

/// The fewest votes a series needs to pass the filters.
pub const MIN_RATING_COUNT: usize = 10;

/// Joins the search words into one query value, a `+` between each two.
pub fn search_terms(words: &Vec<String>) -> (r: String)
    ensures
        r@ == joined_with(words@, "+"@),
{
    join_with(words.as_slice(), "+")
}

/// The prompt for a number between `start` and `end`.
pub open spec fn prompt_text(msg: Seq<char>, start: u64, end: u64) -> Seq<char> {
    if start == end {
        msg + " ("@ + decimal(start as nat) + ", or 'q' to quit): "@
    } else {
        msg + " (["@ + decimal(start as nat) + "-"@ + decimal(end as nat) + "], or 'q' to quit): "@
    }
}

/// Builds the prompt for a number between `start` and `end`.
pub fn prompt(msg: &str, start: u64, end: u64) -> (r: String)
    ensures
        r@ == prompt_text(msg@, start, end),
{
    let low = decimal_string(start);
    if start == end {
        String::from_str(msg).concat(" (").concat(low.as_str()).concat(", or 'q' to quit): ")
    } else {
        let high = decimal_string(end);
        String::from_str(msg).concat(" ([").concat(low.as_str()).concat("-").concat(
            high.as_str(),
        ).concat("], or 'q' to quit): ")
    }
}

/// What an answer to a prompt means.
#[derive(Debug, Clone, Copy, PartialEq, Eq, Structural)]
pub enum Answer {
    /// The user wants to leave.
    Quit,
    /// The user picked this number, which lies within the range asked for.
    Number(u64),
    /// Anything else; the prompt is shown again.
    Invalid,
}

/// The value of a decimal digit, if `c` is one.
pub open spec fn digit_value(c: char) -> Option<nat> {
    if c == '0' {
        Some(0)
    } else if c == '1' {
        Some(1)
    } else if c == '2' {
        Some(2)
    } else if c == '3' {
        Some(3)
    } else if c == '4' {
        Some(4)
    } else if c == '5' {
        Some(5)
    } else if c == '6' {
        Some(6)
    } else if c == '7' {
        Some(7)
    } else if c == '8' {
        Some(8)
    } else if c == '9' {
        Some(9)
    } else {
        None
    }
}

/// The value of a run of decimal digits; nothing where a character is no
/// digit. The empty run has the value 0.
pub open spec fn numeral_value(digits: Seq<char>) -> Option<nat>
    decreases digits.len(),
{
    if digits.len() == 0 {
        Some(0)
    } else {
        match (numeral_value(digits.drop_last()), digit_value(digits.last())) {
            (Some(front), Some(d)) => Some(front * 10 + d),
            _ => None,
        }
    }
}

/// The number that a text stands for: an optional `+`, then one decimal
/// digit or more and nothing else, with a value that a `u64` holds.
pub open spec fn parsed_number(text: Seq<char>) -> Option<u64> {
    let digits = if text.len() > 0 && text[0] == '+' {
        text.skip(1)
    } else {
        text
    };
    if digits.len() == 0 {
        None
    } else {
        match numeral_value(digits) {
            Some(value) => if value <= u64::MAX {
                Some(value as u64)
            } else {
                None
            },
            None => None,
        }
    }
}

/// Reads a number with `str::parse::<u64>`, which expects an optional `+`
/// sign followed by only digits, and fails on an empty text, a lone sign,
/// any other character and a value that does not fit.
#[verifier::external_body]
fn parse_number(text: &str) -> (r: Option<u64>)
    ensures
        r == parsed_number(text@),
{
    text.parse::<u64>().ok()
}

/// A line without its last character, which is its line end.
pub open spec fn without_line_end(line: Seq<char>) -> Seq<char> {
    if line.len() > 0 {
        line.drop_last()
    } else {
        line
    }
}

/// The meaning of an answer, given whether it was the quit word and what
/// number it parsed to.
pub open spec fn answer_for(quit: bool, number: Option<u64>, start: u64, end: u64) -> Answer {
    if quit {
        Answer::Quit
    } else {
        match number {
            Some(n) => if start <= n <= end {
                Answer::Number(n)
            } else {
                Answer::Invalid
            },
            None => Answer::Invalid,
        }
    }
}

/// Decides what an answer means, given whether it was the quit word and
/// what number it parsed to.
pub fn judge_answer(quit: bool, number: Option<u64>, start: u64, end: u64) -> (r: Answer)
    ensures
        r == answer_for(quit, number, start, end),
{
    if quit {
        Answer::Quit
    } else {
        match number {
            Some(n) => if start <= n && n <= end {
                Answer::Number(n)
            } else {
                Answer::Invalid
            },
            None => Answer::Invalid,
        }
    }
}

/// Reads the answer on a line as it came from the terminal: the line end is
/// dropped, `q` asks to leave, and a number counts when it lies between
/// `start` and `end`.
pub fn read_answer(line: &str, start: u64, end: u64) -> (r: Answer)
    ensures
        r == answer_for(
            without_line_end(line@) == "q"@,
            parsed_number(without_line_end(line@)),
            start,
            end,
        ),
{
    let len = line.unicode_len();
    let body = if len > 0 {
        let cut = line.substring_char(0, len - 1);
        assert(cut@ =~= line@.drop_last());
        cut
    } else {
        line
    };
    let quit = String::from_str(body) == String::from_str("q");
    judge_answer(quit, parse_number(body), start, end)
}

/// Whether a series has the votes and the genres that the filters ask for:
/// enough votes, drama, and neither crime nor action.
pub open spec fn votes_and_genre_fit(genre: Seq<String>, rating_count: usize) -> bool {
    &&& rating_count >= MIN_RATING_COUNT
    &&& exists|i: int| 0 <= i < genre.len() && (#[trigger] genre[i])@ == "Drama"@
    &&& !exists|i: int| 0 <= i < genre.len() && (#[trigger] genre[i])@ == "Crime"@
    &&& !exists|i: int| 0 <= i < genre.len() && (#[trigger] genre[i])@ == "Action"@
}

/// Applies the filters on votes and genre to a series.
pub fn passes_votes_and_genre(info: &SeriesDetailedInfo) -> (r: bool)
    ensures
        r == votes_and_genre_fit(info@.genre, info@.rating_count),
{
    info.get_rating_count() >= MIN_RATING_COUNT && info.has_genre("Drama") && !info.has_genre(
        "Crime",
    ) && !info.has_genre("Action")
}

} // verus!
