use leaderboard_card::format::{accuracy_string, format_date, group_digits, score_with_combo};
use leaderboard_card::text::{
    decimal_string, find_char, natural_string, same_text, split_text, split_words,
};

#[test]
fn group_digits_of_short_numbers() {
    assert_eq!(group_digits("0"), "0");
    assert_eq!(group_digits("100"), "100");
    assert_eq!(group_digits("12"), "12");
    assert_eq!(group_digits(""), "");
}

#[test]
fn group_digits_inserts_commas_from_the_right() {
    assert_eq!(group_digits("1234567"), "1,234,567");
    assert_eq!(group_digits("1000"), "1,000");
    assert_eq!(group_digits("123456"), "123,456");
    assert_eq!(group_digits("12345"), "12,345");
    assert_eq!(group_digits("9223372036854775807"), "9,223,372,036,854,775,807");
}

#[test]
fn score_line_has_grouped_score_and_both_combos() {
    assert_eq!(score_with_combo(1234567, 321, "400"), "1,234,567 (321x / 400x)");
    assert_eq!(score_with_combo(0, 0, "0"), "0 (0x / 0x)");
    assert_eq!(score_with_combo(100, 7, "1,024"), "100 (7x / 1,024x)");
    assert_eq!(score_with_combo(999, 12, ""), "999 (12x / x)");
}

#[test]
fn accuracy_has_two_decimals() {
    assert_eq!(accuracy_string(9876), "98.76%");
    assert_eq!(accuracy_string(10000), "100.00%");
    assert_eq!(accuracy_string(0), "0.00%");
    assert_eq!(accuracy_string(5), "0.05%");
    assert_eq!(accuracy_string(50), "0.50%");
    assert_eq!(accuracy_string(9900), "99.00%");
    assert_eq!(accuracy_string(9909), "99.09%");
}

#[test]
fn date_is_reversed_and_loses_leading_zeros() {
    assert_eq!(format_date("2024-03-07T10:00:00Z"), "7. 3. 2024");
    assert_eq!(format_date("2024-12-25T00:00:00+00:00"), "25. 12. 2024");
    assert_eq!(format_date("2024-10-01T23:59:59Z"), "1. 10. 2024");
    assert_eq!(format_date("2024-03-07T"), "7. 3. 2024");
}

#[test]
fn date_loses_one_leading_zero_only() {
    assert_eq!(format_date("2024-00-007T10:00:00Z"), "07. 0. 2024");
    assert_eq!(format_date("0024-03-07T10:00:00Z"), "7. 3. 0024");
}

#[test]
fn date_without_separator_is_unchanged() {
    assert_eq!(format_date("20240307"), "20240307");
    assert_eq!(format_date("2024-03-07"), "2024-03-07");
    assert_eq!(format_date("2024-03-07 10:00:00"), "2024-03-07 10:00:00");
    assert_eq!(format_date(""), "");
}

#[test]
fn date_without_three_parts_is_unchanged() {
    assert_eq!(format_date("2024-03T10:00:00Z"), "2024-03T10:00:00Z");
    assert_eq!(format_date("2024T10:00:00Z"), "2024T10:00:00Z");
    assert_eq!(format_date("2024-03-07-01T10:00:00Z"), "2024-03-07-01T10:00:00Z");
    assert_eq!(format_date("T10:00:00Z"), "T10:00:00Z");
}

#[test]
fn date_ends_at_the_first_separator() {
    assert_eq!(format_date("2024-03-07T10-00-00T"), "7. 3. 2024");
    assert_eq!(format_date("--T"), ". . ");
}

#[test]
fn decimal_string_writes_signed_numbers() {
    assert_eq!(decimal_string(0), "0");
    assert_eq!(decimal_string(7), "7");
    assert_eq!(decimal_string(10), "10");
    assert_eq!(decimal_string(-1), "-1");
    assert_eq!(decimal_string(1234567), "1234567");
    assert_eq!(decimal_string(i64::MAX), "9223372036854775807");
    assert_eq!(decimal_string(i64::MIN), "-9223372036854775808");
    assert_eq!(natural_string(u64::MAX), "18446744073709551615");
    assert_eq!(natural_string(1000), "1000");
}

#[test]
fn same_text_compares_characters() {
    assert!(same_text("", ""));
    assert!(same_text("HD", "HD"));
    assert!(!same_text("HD", "HR"));
    assert!(!same_text("HD", "HDH"));
    assert!(!same_text("HD", "hd"));
}

#[test]
fn find_char_gives_first_position_or_length() {
    assert_eq!(find_char("2024-03-07", '-', 0), 4);
    assert_eq!(find_char("2024-03-07", '-', 5), 7);
    assert_eq!(find_char("2024-03-07", '-', 8), 10);
    assert_eq!(find_char("2024-03-07", 'T', 0), 10);
    assert_eq!(find_char("", 'T', 0), 0);
    assert_eq!(find_char("äT", 'T', 0), 1);
}

#[test]
fn split_text_keeps_empty_pieces() {
    assert_eq!(split_text("2024-03-07", '-'), vec!["2024", "03", "07"]);
    assert_eq!(split_text("abc", '-'), vec!["abc"]);
    assert_eq!(split_text("", '-'), vec![""]);
    assert_eq!(split_text("-", '-'), vec!["", ""]);
    assert_eq!(split_text("a--b-", '-'), vec!["a", "", "b", ""]);
}

#[test]
fn split_words_drops_white_space() {
    assert_eq!(split_words("!cs -l 12345"), vec!["!cs", "-l", "12345"]);
    assert_eq!(split_words("  a \t b\n"), vec!["a", "b"]);
    assert_eq!(split_words(""), Vec::<String>::new());
    assert_eq!(split_words("   "), Vec::<String>::new());
    assert_eq!(split_words("one"), vec!["one"]);
    assert_eq!(split_words("a\u{3000}b"), vec!["a", "b"]);
}
