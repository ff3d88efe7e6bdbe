use rust_basics::number::{decimal_text, parse_guess, MAX_GUESS, MIN_GUESS};

#[test]
fn guess_range_is_eight_bits_wide() {
    assert_eq!(MIN_GUESS, -128);
    assert_eq!(MAX_GUESS, 127);
}

#[test]
fn plain_numerals_are_read() {
    assert_eq!(parse_guess("0"), Some(0));
    assert_eq!(parse_guess("3"), Some(3));
    assert_eq!(parse_guess("42"), Some(42));
    assert_eq!(parse_guess("127"), Some(127));
    assert_eq!(parse_guess("-1"), Some(-1));
    assert_eq!(parse_guess("-128"), Some(-128));
}

#[test]
fn signs_and_leading_zeros_are_read() {
    assert_eq!(parse_guess("+0"), Some(0));
    assert_eq!(parse_guess("-0"), Some(0));
    assert_eq!(parse_guess("+127"), Some(127));
    assert_eq!(parse_guess("007"), Some(7));
    assert_eq!(parse_guess("-0128"), Some(-128));
    assert_eq!(parse_guess("0000000000000000000000000000000000000127"), Some(127));
}

#[test]
fn values_out_of_range_are_no_guess() {
    assert_eq!(parse_guess("128"), None);
    assert_eq!(parse_guess("+128"), None);
    assert_eq!(parse_guess("-129"), None);
    assert_eq!(parse_guess("999"), None);
    assert_eq!(parse_guess("-999"), None);
    assert_eq!(parse_guess("1280"), None);
    assert_eq!(parse_guess("99999999999999999999999999999999999999999999"), None);
    assert_eq!(parse_guess("-99999999999999999999999999999999999999999999"), None);
}

#[test]
fn text_without_digits_is_no_guess() {
    assert_eq!(parse_guess(""), None);
    assert_eq!(parse_guess("+"), None);
    assert_eq!(parse_guess("-"), None);
    assert_eq!(parse_guess("abc"), None);
    assert_eq!(parse_guess(" "), None);
}

#[test]
fn anything_beside_sign_and_digits_is_no_guess() {
    assert_eq!(parse_guess("--1"), None);
    assert_eq!(parse_guess("+-1"), None);
    assert_eq!(parse_guess("1-"), None);
    assert_eq!(parse_guess("1+1"), None);
    assert_eq!(parse_guess(" 1"), None);
    assert_eq!(parse_guess("1 "), None);
    assert_eq!(parse_guess("1\n"), None);
    assert_eq!(parse_guess("1_0"), None);
    assert_eq!(parse_guess("1.0"), None);
    assert_eq!(parse_guess("1e1"), None);
    assert_eq!(parse_guess("0x1"), None);
    assert_eq!(parse_guess("12a"), None);
    assert_eq!(parse_guess("999x"), None);
}

#[test]
fn only_ascii_digits_count() {
    assert_eq!(parse_guess("\u{663}"), None);
    assert_eq!(parse_guess("\u{ff13}"), None);
    assert_eq!(parse_guess("\u{2212}3"), None);
    assert_eq!(parse_guess("3\u{e9}"), None);
}

#[test]
fn every_integer_text_is_read_as_std_reads_it() {
    for n in -1300i32..=1300 {
        let text = n.to_string();
        assert_eq!(parse_guess(&text), text.parse::<i8>().ok());
        let signed = format!("{n:+}");
        assert_eq!(parse_guess(&signed), signed.parse::<i8>().ok());
        let padded = format!("{n:05}");
        assert_eq!(parse_guess(&padded), padded.parse::<i8>().ok());
    }
}

#[test]
fn short_texts_are_read_as_std_reads_them() {
    let alphabet = ['0', '1', '2', '8', '9', '+', '-', ' ', 'a', '\u{663}'];
    let mut texts: Vec<String> = vec![String::new()];
    let mut start = 0;
    for _ in 0..4 {
        let end = texts.len();
        for index in start..end {
            for c in alphabet {
                let mut longer = texts[index].clone();
                longer.push(c);
                texts.push(longer);
            }
        }
        start = end;
    }
    for text in &texts {
        assert_eq!(parse_guess(text), text.parse::<i8>().ok());
    }
}

#[test]
fn numerals_are_written_without_padding() {
    assert_eq!(decimal_text(0), "0");
    assert_eq!(decimal_text(3), "3");
    assert_eq!(decimal_text(9), "9");
    assert_eq!(decimal_text(10), "10");
    assert_eq!(decimal_text(99), "99");
    assert_eq!(decimal_text(100), "100");
    assert_eq!(decimal_text(101), "101");
    assert_eq!(decimal_text(127), "127");
    assert_eq!(decimal_text(-1), "-1");
    assert_eq!(decimal_text(-10), "-10");
    assert_eq!(decimal_text(-100), "-100");
    assert_eq!(decimal_text(-128), "-128");
}

#[test]
fn every_guess_is_written_as_std_writes_it() {
    for n in i8::MIN..=i8::MAX {
        assert_eq!(decimal_text(n), n.to_string());
    }
}

#[test]
fn written_guess_reads_back() {
    for n in i8::MIN..=i8::MAX {
        assert_eq!(parse_guess(&decimal_text(n)), Some(n));
    }
}
