use quandl_v3::parameters::{trim, write_date};
use quandl_v3::text::{add_piece, number, pad};

#[test]
fn numbers_in_decimal() {
    assert_eq!(number(0), "0");
    assert_eq!(number(7), "7");
    assert_eq!(number(10), "10");
    assert_eq!(number(1234567890), "1234567890");
    assert_eq!(number(usize::MAX), usize::MAX.to_string());
}

#[test]
fn numbers_padded_with_zeros() {
    assert_eq!(pad(5, 4), "0005");
    assert_eq!(pad(2016, 4), "2016");
    assert_eq!(pad(12345, 4), "12345");
    assert_eq!(pad(0, 2), "00");
    assert_eq!(pad(0, 1), "0");
    assert_eq!(pad(0, 0), "0");
    assert_eq!(pad(9, 2), "09");
    assert_eq!(pad(10, 2), "10");
    for value in 0..300usize {
        assert_eq!(pad(value, 2), format!("{:#02}", value));
        assert_eq!(pad(value * 37, 4), format!("{:#04}", value * 37));
    }
}

#[test]
fn dates_as_the_service_reads_them() {
    assert_eq!(write_date((2016, 2, 1)), "2016-02-01");
    assert_eq!(write_date((2016, 12, 31)), "2016-12-31");
    assert_eq!(write_date((987, 1, 9)), "0987-01-09");
    assert_eq!(write_date((0, 0, 0)), "0000-00-00");
    assert_eq!(write_date((65535, 255, 255)), "65535-255-255");
}

#[test]
fn trim_takes_white_space_off_both_ends() {
    assert_eq!(trim("  Oil \t\n"), "Oil");
    assert_eq!(trim("Oil"), "Oil");
    assert_eq!(trim(""), "");
    assert_eq!(trim(" \u{a0}\u{3000} "), "");
    assert_eq!(trim(" crude  oil "), "crude  oil");
    assert_eq!(trim("\u{2003}é\u{85}"), "é");
    for code in 0..0x3100u32 {
        if let Some(c) = char::from_u32(code) {
            let text = format!("{}x{}", c, c);
            assert_eq!(trim(&text), text.trim());
        }
    }
}

#[test]
fn pieces_are_joined_by_the_separator() {
    let mut text = String::new();
    add_piece(&mut text, 0, "&", "a=1");
    assert_eq!(text, "a=1");
    add_piece(&mut text, 1, "&", "b=2");
    assert_eq!(text, "a=1&b=2");
}
