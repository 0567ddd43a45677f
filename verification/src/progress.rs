//! The progress indicator: one line that is written over itself before each
//! window, with the rows done, the total, the time taken so far and the
//! last row that was processed.

use vstd::prelude::*;
use vstd::string::*;
use crate::{rows_view, text_of, CsvRow, RowView};

verus! {

/// The text that `{:?}` gives for an optional string.
pub uninterp spec fn debug_text(value: Option<Seq<char>>) -> Seq<char>;

/// Formats an optional string with `format!("{:?}", ..)`.
///
/// Trusted: the text depends on the value alone. Nothing is claimed of how
/// it reads.
#[verifier::external_body]
fn debug_format(value: &Option<String>) -> (r: String)
    ensures
        r@ == debug_text(text_of(*value)),
{
    format!("{:?}", value)
}

/// What is shown of a row: its phone number, a blank, and its type as
/// `{:?}` writes it.
pub open spec fn summary_text(row: RowView) -> Seq<char> {
    row.phone + seq![' '] + debug_text(row.phone_type)
}

/// What is shown of the last row processed when `done` rows are done: that
/// row's summary, or nothing where no row is done yet.
pub open spec fn last_summary(done: int, results: Seq<RowView>) -> Seq<char> {
    if 0 < done <= results.len() {
        summary_text(results[done - 1])
    } else {
        Seq::empty()
    }
}

/// The decimal digit for a value below ten.
pub open spec fn digit(d: nat) -> char {
    (0x30 + d) as u8 as char
}

/// A number written in decimal.
pub open spec fn decimal(n: nat) -> Seq<char>
    decreases n,
{
    if n < 10 {
        seq![digit(n)]
    } else {
        decimal(n / 10).push(digit(n % 10))
    }
}

/// As many blanks as `text` is short of `width` characters.
pub open spec fn blanks(text: Seq<char>, width: nat) -> Seq<char> {
    Seq::new(
        if text.len() < width {
            (width - text.len()) as nat
        } else {
            0
        },
        |i: int| ' ',
    )
}

/// The progress line.
pub open spec fn progress_text(done: nat, total: nat, elapsed: Seq<char>, last: Seq<char>) -> Seq<
    char,
> {
    "\rFinished "@ + blanks(decimal(done), 5) + decimal(done) + " of "@ + blanks(decimal(total), 5)
        + decimal(total) + "  Elapsed: "@ + elapsed + "    Last Number: "@ + last + blanks(
        last,
        40,
    )
}

/// Formats the progress line with `format!`.
///
/// Trusted: the two counts are written in decimal, each padded with blanks
/// on its left to five characters; the last row's summary is padded with
/// blanks on its right to forty characters; the other texts are copied.
#[verifier::external_body]
fn format_progress(done: usize, total: usize, elapsed: &str, last: &str) -> (r: String)
    ensures
        r@ == progress_text(done as nat, total as nat, elapsed@, last@),
{
    format!("\rFinished {:5} of {:5}  Elapsed: {}    Last Number: {:40}", done, total, elapsed, last)
}

/// The summary of a row.
pub fn row_summary(row: &CsvRow) -> (r: String)
    ensures
        r@ == summary_text(row@),
{
    let shown = debug_format(&row.phone_type);
    let mut text = row.phone.clone();
    proof {
        reveal_strlit(" ");
        assert(" "@ =~= seq![' ']);
    }
    text.append(" ");
    text.append(shown.as_str());
    text
}

/// The summary of the last row processed when `done` rows are done.
pub fn last_row_summary(done: usize, results: &Vec<CsvRow>) -> (r: String)
    ensures
        r@ == last_summary(done as int, rows_view(results@)),
{
    if 0 < done && done <= results.len() {
        row_summary(&results[done - 1])
    } else {
        String::new()
    }
}

/// The progress line that is shown before a window starts: `done` rows of
/// `total` are done, `elapsed` is the time since the run began as it is to
/// be shown, and `results` are the rows recorded so far.
pub fn progress_line(done: usize, total: usize, results: &Vec<CsvRow>, elapsed: &str) -> (r: String)
    ensures
        r@ == progress_text(
            done as nat,
            total as nat,
            elapsed@,
            last_summary(done as int, rows_view(results@)),
        ),
{
    let last = last_row_summary(done, results);
    format_progress(done, total, elapsed, last.as_str())
}

} // verus!
