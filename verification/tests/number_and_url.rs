use tamil_flashcards::number::{decimal_string, parse_usize, push_decimal};
use tamil_flashcards::session::day_from_input;
use tamil_flashcards::url::{google_translate_url, percent_encode, unreserved};

#[test]
fn decimal_string_writes_digits() {
    assert_eq!(decimal_string(0), "0");
    assert_eq!(decimal_string(7), "7");
    assert_eq!(decimal_string(10), "10");
    assert_eq!(decimal_string(1234), "1234");
    assert_eq!(decimal_string(usize::MAX), usize::MAX.to_string());
}

#[test]
fn push_decimal_appends() {
    let mut s = String::from("Day ");
    push_decimal(&mut s, 42);
    assert_eq!(s, "Day 42");
}

#[test]
fn parse_usize_matches_std_parse() {
    let cases = [
        "", "0", "7", "12", "+7", "+", "-", "-3", "++1", "12a", " 3", "3 ", "007", "१",
        "18446744073709551615", "18446744073709551616", "99999999999999999999999",
    ];
    for case in cases {
        assert_eq!(parse_usize(case), case.parse::<usize>().ok(), "input {case:?}");
    }
}

#[test]
fn parse_usize_reads_back_decimal() {
    for n in [0usize, 1, 9, 10, 99, 100, 65535, usize::MAX] {
        assert_eq!(parse_usize(&decimal_string(n)), Some(n));
    }
}

#[test]
fn day_from_input_clamps_into_range() {
    assert_eq!(day_from_input("3", 10), 3);
    assert_eq!(day_from_input("0", 10), 1);
    assert_eq!(day_from_input("25", 10), 10);
    assert_eq!(day_from_input("abc", 10), 1);
    assert_eq!(day_from_input("", 10), 1);
    assert_eq!(day_from_input(" 3", 10), 1);
    assert_eq!(day_from_input("+4", 10), 4);
    assert_eq!(day_from_input("99999999999999999999999", 10), 1);
    assert_eq!(day_from_input("10", 10), 10);
}

#[test]
fn day_from_input_is_idempotent() {
    for total in 1..12usize {
        for day in 1..=total {
            assert_eq!(day_from_input(&decimal_string(day), total), day);
        }
    }
}

#[test]
fn unreserved_bytes() {
    for b in 0u8..=255 {
        let expected = b.is_ascii_alphanumeric() || matches!(b, b'-' | b'_' | b'.' | b'~');
        assert_eq!(unreserved(b), expected, "byte {b}");
    }
}

#[test]
fn percent_encode_escapes_reserved_bytes() {
    assert_eq!(percent_encode(b""), "");
    assert_eq!(percent_encode(b"AZaz09-_.~"), "AZaz09-_.~");
    assert_eq!(percent_encode(b" "), "%20");
    assert_eq!(percent_encode(b"a b&c?"), "a%20b%26c%3F");
    assert_eq!(percent_encode(&[0x00, 0x0f, 0xff]), "%00%0F%FF");
}

#[test]
fn percent_encode_decodes_back() {
    let bytes: Vec<u8> = (0u8..=255).collect();
    let encoded = percent_encode(&bytes);
    let mut decoded = Vec::new();
    let chars: Vec<char> = encoded.chars().collect();
    let mut i = 0;
    while i < chars.len() {
        if chars[i] == '%' {
            let hex: String = chars[i + 1..i + 3].iter().collect();
            decoded.push(u8::from_str_radix(&hex, 16).unwrap());
            i += 3;
        } else {
            decoded.push(chars[i] as u8);
            i += 1;
        }
    }
    assert_eq!(decoded, bytes);
    assert!(encoded.chars().all(|c| c.is_ascii_alphanumeric() || "-_.~%".contains(c)));
}

#[test]
fn google_translate_url_for_transliteration() {
    assert_eq!(
        google_translate_url("vanakkam"),
        "https://translate.google.com/?sl=ta&tl=en&text=vanakkam&op=translate"
    );
    assert_eq!(
        google_translate_url("naan veettukku poren"),
        "https://translate.google.com/?sl=ta&tl=en&text=naan%20veettukku%20poren&op=translate"
    );
    assert_eq!(
        google_translate_url(""),
        "https://translate.google.com/?sl=ta&tl=en&text=&op=translate"
    );
}

#[test]
fn google_translate_url_encodes_utf8() {
    assert_eq!(
        google_translate_url("வணக்கம்"),
        "https://translate.google.com/?sl=ta&tl=en&text=%E0%AE%B5%E0%AE%A3%E0%AE%95%E0%AF%8D%E0%AE%95%E0%AE%AE%E0%AF%8D&op=translate"
    );
    assert_eq!(
        google_translate_url("epdi irukeenga?"),
        "https://translate.google.com/?sl=ta&tl=en&text=epdi%20irukeenga%3F&op=translate"
    );
}
