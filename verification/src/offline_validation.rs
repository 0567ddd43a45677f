//! Validation without the network: each number is held against the
//! numbering plan of the United States, and the rows that fail are kept.

use vstd::prelude::*;
use vstd::string::*;
use crate::{rows_view, CsvRow, RowView};

verus! {

/// What the numbering plans say of a text read as a phone number dialled
/// from the United States: nothing where it does not parse as a number, and
/// otherwise whether the number is in use under its country's plan.
pub uninterp spec fn us_number_validity(phone: Seq<char>) -> Option<bool>;

/// Parses the text with `phonenumber::parse`, the United States as the
/// default region, and asks `PhoneNumber::is_valid` of what was parsed.
///
/// Trusted: the answer depends on the text alone.
#[verifier::external_body]
fn parse_and_validate(phone: &str) -> (r: Option<bool>)
    ensures
        r == us_number_validity(phone@),
{
    match phonenumber::parse(Some(phonenumber::country::Id::US), phone) {
        Ok(number) => Some(number.is_valid()),
        Err(_) => None,
    }
}

/// A text is a valid number where it parses and the parsed number is valid.
pub open spec fn us_number_valid(phone: Seq<char>) -> bool {
    us_number_validity(phone) == Some(true)
}

/// Whether a finding counts as valid: a text that does not parse does not.
pub fn counts_as_valid(validity: Option<bool>) -> (r: bool)
    ensures
        r == (validity == Some(true)),
{
    match validity {
        Some(valid) => valid,
        None => false,
    }
}

/// Whether a text is a valid phone number.
pub fn is_valid_number(phone: &str) -> (r: bool)
    ensures
        r == us_number_valid(phone@),
{
    counts_as_valid(parse_and_validate(phone))
}

/// A row is rejected where it has a phone number and the number is not valid.
pub open spec fn is_rejected(phone: Seq<char>, valid: bool) -> bool {
    phone.len() > 0 && !valid
}

/// The row with its type set to the literal `Invalid`.
pub open spec fn marked_invalid(row: RowView) -> RowView {
    RowView { internal_id: row.internal_id, phone: row.phone, phone_type: Some("Invalid"@) }
}

/// What becomes of a row, given whether its number is valid: a rejected row
/// is kept and marked, any other is dropped.
pub open spec fn judged(row: RowView, valid: bool) -> Option<RowView> {
    if is_rejected(row.phone, valid) {
        Some(marked_invalid(row))
    } else {
        None
    }
}

/// The rows that offline validation keeps, in the order of the input.
pub open spec fn invalid_rows(rows: Seq<RowView>) -> Seq<RowView> {
    rows.filter_map(|row: RowView| judged(row, us_number_valid(row.phone)))
}

/// Decides on one row, given whether its number is valid.
pub fn judge(row: CsvRow, valid: bool) -> (r: Option<CsvRow>)
    ensures
        judged(row@, valid) == match r {
            Some(kept) => Some(kept@),
            None => None,
        },
{
    if row.phone.as_str().unicode_len() == 0 || valid {
        None
    } else {
        Some(
            CsvRow {
                internal_id: row.internal_id,
                phone: row.phone,
                phone_type: Some(String::from_str("Invalid")),
            },
        )
    }
}

/// The rows whose phone number is present and not valid, each marked
/// `Invalid`, in the order of the input.
pub fn get_invalid_contacts(csv_rows: Vec<CsvRow>) -> (r: Vec<CsvRow>)
    ensures
        rows_view(r@) == invalid_rows(rows_view(csv_rows@)),
{
    let ghost input = rows_view(csv_rows@);
    let ghost decide = |row: RowView| judged(row, us_number_valid(row.phone));
    let mut kept: Vec<CsvRow> = Vec::new();
    let mut i: usize = 0;
    while i < csv_rows.len()
        invariant
            i <= csv_rows@.len(),
            input == rows_view(csv_rows@),
            decide == |row: RowView| judged(row, us_number_valid(row.phone)),
            rows_view(kept@) == input.take(i as int).filter_map(decide),
        decreases csv_rows@.len() - i,
    {
        let row = csv_rows[i].clone();
        let valid = row.phone.as_str().unicode_len() == 0 || is_valid_number(row.phone.as_str());
        let ghost before = rows_view(kept@);
        proof {
            input.lemma_filter_map_take_succ(decide, i as int);
            assert(input[i as int] == row@);
        }
        match judge(row, valid) {
            Some(marked) => {
                kept.push(marked);
                assert(rows_view(kept@) =~= before + seq![marked@]);
            },
            None => {
                assert(rows_view(kept@) =~= before);
            },
        }
        i += 1;
    }
    proof {
        assert(input.take(i as int) =~= input);
    }
    kept
}

/// Offline validation of a table: the rows to write out.
pub fn run_offline(csv_rows: Vec<CsvRow>) -> (r: Vec<CsvRow>)
    ensures
        rows_view(r@) == invalid_rows(rows_view(csv_rows@)),
{
    get_invalid_contacts(csv_rows)
}

/// A row is in the output exactly where the input holds it with a phone
/// number that is present and not valid, and every row of the output has the
/// type `Invalid`.
pub proof fn lemma_invalid_rows_membership(rows: Seq<RowView>, out: RowView)
    ensures
        invalid_rows(rows).contains(out) <==> exists|i: int|
            0 <= i < rows.len() && rows[i].phone.len() > 0 && !us_number_valid(
                (#[trigger] rows[i]).phone,
            ) && out == marked_invalid(rows[i]),
        invalid_rows(rows).contains(out) ==> out.phone_type == Some("Invalid"@),
    decreases rows.len(),
{
    let decide = |row: RowView| judged(row, us_number_valid(row.phone));
    if rows.len() == 0 {
        assert(invalid_rows(rows) =~= Seq::<RowView>::empty());
    } else {
        let rest = rows.drop_last();
        let last = rows.last();
        lemma_invalid_rows_membership(rest, out);
        let tail = match decide(last) {
            Some(kept) => seq![kept],
            None => Seq::<RowView>::empty(),
        };
        assert(invalid_rows(rows) =~= invalid_rows(rest) + tail);
        if invalid_rows(rows).contains(out) {
            let k = choose|k: int| 0 <= k < invalid_rows(rows).len() && invalid_rows(rows)[k] == out;
            if k < invalid_rows(rest).len() {
                assert(invalid_rows(rest)[k] == out);
                assert(invalid_rows(rest).contains(out));
                let i = choose|i: int|
                    0 <= i < rest.len() && rest[i].phone.len() > 0 && !us_number_valid(
                        (#[trigger] rest[i]).phone,
                    ) && out == marked_invalid(rest[i]);
                assert(rows[i] == rest[i]);
            } else {
                assert(tail[k - invalid_rows(rest).len()] == out);
                assert(rows[rows.len() - 1] == last);
            }
        }
        if exists|i: int|
            0 <= i < rows.len() && rows[i].phone.len() > 0 && !us_number_valid(
                (#[trigger] rows[i]).phone,
            ) && out == marked_invalid(rows[i]) {
            let i = choose|i: int|
                0 <= i < rows.len() && rows[i].phone.len() > 0 && !us_number_valid(
                    (#[trigger] rows[i]).phone,
                ) && out == marked_invalid(rows[i]);
            if i < rest.len() {
                assert(rest[i] == rows[i]);
                assert(invalid_rows(rest).contains(out));
                let k = choose|k: int|
                    0 <= k < invalid_rows(rest).len() && invalid_rows(rest)[k] == out;
                assert(invalid_rows(rows)[k] == out);
            } else {
                assert(tail[0] == out);
                assert(invalid_rows(rows)[invalid_rows(rest).len() as int] == out);
            }
        }
    }
}

/// Validating what validation kept changes nothing: every kept row is kept
/// again, and it is already marked.
pub proof fn lemma_offline_idempotent(rows: Seq<RowView>)
    ensures
        invalid_rows(invalid_rows(rows)) == invalid_rows(rows),
    decreases rows.len(),
{
    let decide = |row: RowView| judged(row, us_number_valid(row.phone));
    if rows.len() == 0 {
        assert(invalid_rows(rows) =~= Seq::<RowView>::empty());
        assert(invalid_rows(invalid_rows(rows)) =~= Seq::<RowView>::empty());
    } else {
        let rest = rows.drop_last();
        let last = rows.last();
        lemma_offline_idempotent(rest);
        match decide(last) {
            Some(kept) => {
                let out = invalid_rows(rest).push(kept);
                assert(invalid_rows(rows) =~= out);
                assert(out.drop_last() =~= invalid_rows(rest));
                assert(decide(kept) == Some(kept));
                assert(invalid_rows(out) =~= invalid_rows(out.drop_last()) + seq![kept]);
            },
            None => {
                assert(invalid_rows(rows) =~= invalid_rows(rest));
            },
        }
    }
}

/// Two runs on the same input give the same output.
pub proof fn lemma_offline_repeatable(first: Seq<RowView>, second: Seq<RowView>, rows: Seq<RowView>)
    requires
        first == invalid_rows(rows),
        second == invalid_rows(rows),
    ensures
        first == second,
{
}

} // verus!
