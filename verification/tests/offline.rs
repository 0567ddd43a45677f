use phone_validation::contacts::{self, is_valid_contact, is_valid_optional_number, Contact};
use phone_validation::offline_validation::{
    counts_as_valid, get_invalid_contacts, is_valid_number, judge, run_offline,
};
use phone_validation::CsvRow;

fn offline_row(id: &str, phone: &str, phone_type: Option<&str>) -> CsvRow {
    CsvRow {
        internal_id: id.to_string(),
        phone: phone.to_string(),
        phone_type: phone_type.map(|t| t.to_string()),
    }
}

fn offline_contact(id: &str, main: Option<&str>, office: Option<&str>) -> Contact {
    Contact {
        entity_id: format!("e{}", id),
        internal_id: id.to_string(),
        main_phone: main.map(|t| t.to_string()),
        office_phone: office.map(|t| t.to_string()),
    }
}

#[test]
fn valid_number_is_dropped() {
    let out = get_invalid_contacts(vec![offline_row("1", "650-253-0000", None)]);
    assert!(out.is_empty());
}

#[test]
fn valid_number_with_country_code_is_dropped() {
    let out = get_invalid_contacts(vec![offline_row("1", "+1 650 253 0000", Some("mobile"))]);
    assert!(out.is_empty());
}

#[test]
fn invalid_number_is_kept_and_marked() {
    let out = get_invalid_contacts(vec![offline_row("7", "12345", None)]);
    assert_eq!(out, vec![offline_row("7", "12345", Some("Invalid"))]);
}

#[test]
fn text_that_is_no_number_is_kept_and_marked() {
    let out = get_invalid_contacts(vec![offline_row("8", "call me", Some("landline"))]);
    assert_eq!(out, vec![offline_row("8", "call me", Some("Invalid"))]);
}

#[test]
fn empty_phone_is_dropped() {
    let out = get_invalid_contacts(vec![offline_row("9", "", None)]);
    assert!(out.is_empty());
}

#[test]
fn empty_input_gives_empty_output() {
    let out = get_invalid_contacts(Vec::new());
    assert!(out.is_empty());
}

#[test]
fn invalid_rows_keep_the_order_of_the_input() {
    let rows = vec![
        offline_row("a", "12345", None),
        offline_row("b", "650-253-0000", None),
        offline_row("c", "", None),
        offline_row("d", "000", Some("x")),
        offline_row("e", "+1 212 555 01", None),
    ];
    let out = get_invalid_contacts(rows);
    assert_eq!(
        out,
        vec![
            offline_row("a", "12345", Some("Invalid")),
            offline_row("d", "000", Some("Invalid")),
            offline_row("e", "+1 212 555 01", Some("Invalid")),
        ]
    );
}

#[test]
fn offline_validation_is_repeatable() {
    let rows = vec![
        offline_row("a", "12345", None),
        offline_row("b", "650-253-0000", None),
        offline_row("c", "nothing", None),
    ];
    let first = run_offline(rows.clone());
    let second = run_offline(rows);
    assert_eq!(first, second);
}

#[test]
fn offline_validation_of_its_own_output_changes_nothing() {
    let rows = vec![
        offline_row("a", "12345", None),
        offline_row("b", "650-253-0000", None),
        offline_row("c", "nothing", Some("mobile")),
    ];
    let once = run_offline(rows);
    let twice = run_offline(once.clone());
    assert_eq!(once.len(), 2);
    assert_eq!(once, twice);
}

#[test]
fn run_offline_gives_the_invalid_rows() {
    let rows = vec![offline_row("a", "12345", None), offline_row("b", "650-253-0000", None)];
    assert_eq!(run_offline(rows), vec![offline_row("a", "12345", Some("Invalid"))]);
}

#[test]
fn judge_keeps_a_row_that_is_not_valid() {
    let kept = judge(offline_row("1", "12345", Some("mobile")), false);
    assert_eq!(kept, Some(offline_row("1", "12345", Some("Invalid"))));
}

#[test]
fn judge_drops_a_valid_row() {
    assert_eq!(judge(offline_row("1", "650-253-0000", None), true), None);
}

#[test]
fn judge_drops_a_row_without_phone() {
    assert_eq!(judge(offline_row("1", "", None), false), None);
    assert_eq!(judge(offline_row("1", "", None), true), None);
}

#[test]
fn contact_without_phones_is_valid() {
    assert!(is_valid_contact(&offline_contact("1", None, None)));
}

#[test]
fn contact_with_two_valid_phones_is_valid() {
    assert!(is_valid_contact(&offline_contact("1", Some("650-253-0000"), Some("+1 650 253 0000"))));
}

#[test]
fn contact_with_one_invalid_phone_is_not_valid() {
    assert!(!is_valid_contact(&offline_contact("1", Some("650-253-0000"), Some("12345"))));
    assert!(!is_valid_contact(&offline_contact("2", Some("12345"), None)));
    assert!(!is_valid_contact(&offline_contact("3", Some(""), None)));
}

#[test]
fn optional_number_passes_when_absent() {
    assert!(is_valid_optional_number(&None));
    assert!(is_valid_optional_number(&Some("650-253-0000".to_string())));
    assert!(!is_valid_optional_number(&Some("12345".to_string())));
}

#[test]
fn invalid_contacts_are_kept_unchanged_and_in_order() {
    let list = vec![
        offline_contact("1", Some("650-253-0000"), None),
        offline_contact("2", Some("12345"), None),
        offline_contact("3", None, None),
        offline_contact("4", None, Some("nothing")),
    ];
    let out = contacts::get_invalid_contacts(list);
    assert_eq!(out.len(), 2);
    assert_eq!(out[0].internal_id, "2");
    assert_eq!(out[0].entity_id, "e2");
    assert_eq!(out[0].main_phone, Some("12345".to_string()));
    assert_eq!(out[0].office_phone, None);
    assert_eq!(out[1].internal_id, "4");
    assert_eq!(out[1].office_phone, Some("nothing".to_string()));
}

#[test]
fn only_a_parsed_and_valid_number_counts_as_valid() {
    assert!(counts_as_valid(Some(true)));
    assert!(!counts_as_valid(Some(false)));
    assert!(!counts_as_valid(None));
}

#[test]
fn numbers_are_held_against_the_plan_of_the_united_states() {
    assert!(is_valid_number("650-253-0000"));
    assert!(is_valid_number("(650) 253-0000"));
    assert!(is_valid_number("+1 650 253 0000"));
    assert!(is_valid_number("+44 20 7946 0958") == is_valid_number("+442079460958"));
    assert!(!is_valid_number("12345"));
    assert!(!is_valid_number(""));
    assert!(!is_valid_number("call me"));
    assert!(!is_valid_number("+"));
    assert!(!is_valid_number("000-000-0000"));
}

#[test]
fn odd_texts_are_judged_as_not_valid() {
    let long_digits = "9".repeat(300);
    let long_plus = format!("+{}", "1".repeat(64));
    let odd = [
        "+",
        "++",
        "+0",
        "+1",
        "x",
        "x89",
        ";",
        ";phone-context=",
        ";phone-context=+",
        ";phone-context=+1",
        "tel:",
        "tel:;phone-context=",
        "tel:+",
        "+dwPAA;phone-context=AA",
        ".;phone-context=",
        "0;phone-context=\u{0}",
        "\u{ff11}\u{ff12}\u{ff13}",
        "\u{661}\u{662}\u{663}\u{664}\u{665}\u{666}\u{667}",
        "\u{e9}\u{e9}\u{e9}",
        "1\u{300}2\u{300}3",
        "   ",
        "\t\n",
        "\u{0}",
        "()",
        "(((",
        "1-",
        "-1",
        "ext. 5",
        "011",
        "011 ",
        "0111",
        "00",
        "000",
        "+999 123456789",
        "+1 000 000 0000",
        long_digits.as_str(),
        long_plus.as_str(),
    ];
    for text in odd {
        assert!(!is_valid_number(text), "{:?}", text);
    }
}

#[test]
fn validity_depends_on_the_text_alone() {
    for text in ["650-253-0000", "12345", "+1 212 736 5000", "tel:+1-650-253-0000", ""] {
        assert_eq!(is_valid_number(text), is_valid_number(text));
    }
    assert!(is_valid_number("tel:+1-650-253-0000"));
    assert!(is_valid_number("650 253 0000 x89"));
}

#[test]
fn a_number_with_an_empty_extension_is_still_a_number() {
    assert!(is_valid_number("650 253 0000 ext."));
    assert_eq!(is_valid_number("650 253 0000 x"), is_valid_number("650 253 0000 x"));
}
