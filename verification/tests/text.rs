use explorer::text::{
    begins_with, chars_of, find, finishes_with, read_signed, read_unsigned, stands_at,
};

fn chars(s: &str) -> Vec<char> {
    s.chars().collect()
}

#[test]
fn characters_of_a_text() {
    assert_eq!(chars_of(""), Vec::<char>::new());
    assert_eq!(chars_of("abc"), vec!['a', 'b', 'c']);
    assert_eq!(chars_of("é日"), vec!['é', '日']);
}

#[test]
fn a_word_stands_where_its_characters_are() {
    let text = chars("KeepNum(5)");
    assert!(stands_at(&text, &chars("Keep"), 0));
    assert!(stands_at(&text, &chars("Num"), 4));
    assert!(stands_at(&text, &chars(")"), 9));
    assert!(stands_at(&text, &chars(""), 10));
    assert!(!stands_at(&text, &chars("Num"), 0));
    assert!(!stands_at(&text, &chars(")"), 10));
    assert!(!stands_at(&text, &chars(""), 11));
    assert!(!stands_at(&text, &chars("KeepNum(5)!"), 0));
}

#[test]
fn beginning_and_end() {
    let text = chars("100MB");
    assert!(begins_with(&text, &chars("100")));
    assert!(begins_with(&text, &chars("")));
    assert!(!begins_with(&text, &chars("00")));
    assert!(finishes_with(&text, &chars("MB")));
    assert!(finishes_with(&text, &chars("")));
    assert!(finishes_with(&text, &chars("100MB")));
    assert!(!finishes_with(&text, &chars("M")));
    assert!(!finishes_with(&text, &chars("x100MB")));
}

#[test]
fn find_gives_the_first_place() {
    assert_eq!(find(&chars("1MB2MB"), &chars("MB")), Some(1));
    assert_eq!(find(&chars("MB"), &chars("MB")), Some(0));
    assert_eq!(find(&chars("aaMB"), &chars("MB")), Some(2));
    assert_eq!(find(&chars("abc"), &chars("")), Some(0));
    assert_eq!(find(&chars(""), &chars("")), Some(0));
    assert_eq!(find(&chars("abc"), &chars("d")), None);
    assert_eq!(find(&chars("M"), &chars("MB")), None);
    assert_eq!(find(&chars("日本MB"), &chars("MB")), Some(2));
}

#[test]
fn unsigned_numbers() {
    let text = chars("x+0042y");
    assert_eq!(read_unsigned(&text, 1, 6, u64::MAX), Some(42));
    assert_eq!(read_unsigned(&text, 2, 6, u64::MAX), Some(42));
    assert_eq!(read_unsigned(&text, 2, 6, 42), Some(42));
    assert_eq!(read_unsigned(&text, 2, 6, 41), None);
    assert_eq!(read_unsigned(&text, 0, 6, u64::MAX), None);
    assert_eq!(read_unsigned(&text, 2, 7, u64::MAX), None);
    assert_eq!(read_unsigned(&text, 2, 2, u64::MAX), None);
    assert_eq!(read_unsigned(&text, 1, 2, u64::MAX), None);
    assert_eq!(read_unsigned(&chars("18446744073709551615"), 0, 20, u64::MAX), Some(u64::MAX));
    assert_eq!(read_unsigned(&chars("18446744073709551616"), 0, 20, u64::MAX), None);
    assert_eq!(read_unsigned(&chars("99999999999999999999"), 0, 20, u64::MAX), None);
    assert_eq!(read_unsigned(&chars("-0"), 0, 2, u64::MAX), None);
    assert_eq!(read_unsigned(&chars("0"), 0, 1, 0), Some(0));
    assert_eq!(read_unsigned(&chars("1"), 0, 1, 0), None);
}

#[test]
fn signed_numbers() {
    assert_eq!(read_signed(&chars("0"), 0, 1), Some(0));
    assert_eq!(read_signed(&chars("-0"), 0, 2), Some(0));
    assert_eq!(read_signed(&chars("+7"), 0, 2), Some(7));
    assert_eq!(read_signed(&chars("-7"), 0, 2), Some(-7));
    assert_eq!(read_signed(&chars("a-12b"), 1, 4), Some(-12));
    assert_eq!(read_signed(&chars("9223372036854775807"), 0, 19), Some(i64::MAX));
    assert_eq!(read_signed(&chars("9223372036854775808"), 0, 19), None);
    assert_eq!(read_signed(&chars("-9223372036854775808"), 0, 20), Some(i64::MIN));
    assert_eq!(read_signed(&chars("-9223372036854775809"), 0, 20), None);
    assert_eq!(read_signed(&chars(""), 0, 0), None);
    assert_eq!(read_signed(&chars("-"), 0, 1), None);
    assert_eq!(read_signed(&chars("+"), 0, 1), None);
    assert_eq!(read_signed(&chars("+-1"), 0, 3), None);
    assert_eq!(read_signed(&chars("1_000"), 0, 5), None);
    assert_eq!(read_signed(&chars(" 1"), 0, 2), None);
}

#[test]
fn numbers_are_read_as_the_standard_library_reads_them() {
    for s in ["", "0", "+", "-", "+5", "-5", "007", "1e3", "٣", "18446744073709551615",
        "18446744073709551616", "9223372036854775807", "-9223372036854775808", "12 ", "0x10"]
    {
        let text = chars(s);
        assert_eq!(read_unsigned(&text, 0, text.len(), u64::MAX), s.parse::<u64>().ok());
        assert_eq!(read_signed(&text, 0, text.len()), s.parse::<i64>().ok());
        assert_eq!(
            read_unsigned(&text, 0, text.len(), usize::MAX as u64).map(|n| n as usize),
            s.parse::<usize>().ok()
        );
    }
}
