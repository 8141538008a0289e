use apache_metrics::number::{
    check_float, check_float_chars, is_digit_char, parse_u32, parse_u32_chars, ParseCause,
};
use std::num::IntErrorKind;

fn float_cause(text: &str) -> Option<ParseCause> {
    match text.parse::<f64>() {
        Ok(_) => None,
        Err(_) if text.is_empty() => Some(ParseCause::EmptyFloat),
        Err(_) => Some(ParseCause::InvalidFloat),
    }
}

fn u32_value(text: &str) -> Result<u32, ParseCause> {
    text.parse::<u32>().map_err(|e| match e.kind() {
        IntErrorKind::Empty => ParseCause::EmptyInteger,
        IntErrorKind::InvalidDigit => ParseCause::InvalidDigit,
        IntErrorKind::PosOverflow => ParseCause::IntegerTooLarge,
        other => panic!("{:?}", other),
    })
}

fn words(alphabet: &[char], longest: usize) -> Vec<String> {
    let mut all = vec![String::new()];
    let mut last = vec![String::new()];
    for _ in 0..longest {
        let mut next = Vec::new();
        for word in last.iter() {
            for c in alphabet.iter() {
                let mut longer = word.clone();
                longer.push(*c);
                next.push(longer);
            }
        }
        all.extend(next.iter().cloned());
        last = next;
    }
    all
}

#[test]
fn decimal_literals_are_what_the_standard_library_reads() {
    for text in [
        "0", "1", "123", "007", "1.", ".5", "1.5", "0.0284", "+1", "-1", "+.5", "-5.", "1e5", "1E5",
        "1e+5", "1e-5", "1.5e10", ".5e1", "5.e1", "1e0005", "1e400", "1e-400", "-0", "-0.0", "inf",
        "Inf", "INF", "+inf", "-inf", "infinity", "Infinity", "INFINITY", "iNfInItY", "-infinity",
        "nan", "NaN", "NAN", "+nan", "-nan", "123456789012345678901234567890",
        "0.000000000000000000000000000000000001", "1.7976931348623157e308", "4.9e-324",
        "", " ", "+", "-", ".", "+.", "-.", "e", "e5", ".e5", "1e", "1e+", "1e-", "1e5.", "1e5e5",
        "1.5.5", "1..5", "++1", "--1", "+-1", "1+", "1-", " 1", "1 ", "1 2", "1,5", "1_000", "0x10",
        "1f", "1.0f64", "infinit", "infinityy", "in", "i", "na", "nann", "inf ", " nan", "i nf",
        "ınf", "İnf", "ＩＮＦ", "１２３", "٣", "1٣", "1.٣", "1e٣", "é", "1é", "\u{0}",
        "1\u{0}",
        "nan(0x1)", "1d5", "1p5", "0b1", "1e5f", "+infinity5", "NaN.", "-", "−1", "\t1", "1\n",
    ] {
        assert_eq!(check_float(text), float_cause(text), "{:?}", text);
        let chars: Vec<char> = text.chars().collect();
        assert_eq!(check_float_chars(&chars), float_cause(text), "{:?}", text);
    }
}

#[test]
fn decimal_literals_agree_on_every_short_text() {
    let alphabet = ['+', '-', '.', 'e', 'E', '0', '9', 'i', 'n', 'f', 'a', 'N', ' '];
    let all = words(&alphabet, 5);
    assert_eq!(all.len(), 1 + 13 + 169 + 2197 + 28561 + 371293);
    let mut literals = 0;
    for text in all.iter() {
        let cause = check_float(text);
        assert_eq!(cause, float_cause(text), "{:?}", text);
        if cause.is_none() {
            literals += 1;
        }
    }
    assert!(literals > 100, "{}", literals);
}

#[test]
fn words_of_eight_letters_agree() {
    let letters = ['i', 'I', 'n', 'N', 'f', 'F', 't', 'T', 'y', 'Y', 'a', 'A', 'ı', 'K'];
    for word in ["infinity", "infinit", "nan", "inf", "infinite"] {
        let base: Vec<char> = word.chars().collect();
        for at in 0..base.len() {
            for c in letters.iter() {
                let mut changed = base.clone();
                changed[at] = *c;
                let text: String = changed.iter().collect();
                assert_eq!(check_float(&text), float_cause(&text), "{:?}", text);
                let signed = format!("-{}", text);
                assert_eq!(check_float(&signed), float_cause(&signed), "{:?}", signed);
            }
        }
        let upper = word.to_uppercase();
        assert_eq!(check_float(&upper), float_cause(&upper));
    }
}

#[test]
fn unsigned_integers_are_what_the_standard_library_reads() {
    for text in [
        "0", "1", "10", "007", "+7", "+0", "4294967295", "4294967296", "4294967300", "42949672950",
        "04294967295", "+4294967295", "0000000000000000000000000", "00000000000000000000000001",
        "99999999999999999999", "99999999999x", "9x9999999999", "4294967296x", "429496729x",
        "4294967295x", "x4294967296", "", "+", "-", "++1", "+-1", "-1", "-0", "1-", "1+", " 1",
        "1 ", "1.5", "1e3", "1_000", "0x10", "١", "1١", "é", "４２", "\u{0}", "12345678",
        "123456789",
        "1234567890", "12345678x", "123456789x", "5000000000",
    ] {
        assert_eq!(parse_u32(text), u32_value(text), "{:?}", text);
        let chars: Vec<char> = text.chars().collect();
        assert_eq!(parse_u32_chars(&chars), u32_value(text), "{:?}", text);
    }
}

#[test]
fn unsigned_integers_agree_on_every_short_text() {
    let alphabet = ['+', '-', '0', '4', '9', 'x'];
    for text in words(&alphabet, 6).iter() {
        assert_eq!(parse_u32(text), u32_value(text), "{:?}", text);
    }
    let digits = ['0', '2', '4', '5', '9', 'x'];
    for tail in words(&digits, 4).iter() {
        for head in ["429496", "4294967", "42949672", "99999999", "+4294967", "0042949"] {
            let text = format!("{}{}", head, tail);
            assert_eq!(parse_u32(&text), u32_value(&text), "{:?}", text);
        }
    }
}

#[test]
fn unsigned_integer_has_the_value_of_its_digits() {
    assert_eq!(parse_u32("10"), Ok(10));
    assert_eq!(parse_u32("+4294967295"), Ok(u32::MAX));
    assert_eq!(parse_u32("4294967296"), Err(ParseCause::IntegerTooLarge));
    assert_eq!(parse_u32(""), Err(ParseCause::EmptyInteger));
    assert_eq!(parse_u32("12a"), Err(ParseCause::InvalidDigit));
    for n in (0..=u32::MAX).step_by(65_521) {
        assert_eq!(parse_u32(&n.to_string()), Ok(n));
    }
}

#[test]
fn digits_are_the_ten_ascii_digits() {
    for c in '\u{0}'..=char::MAX {
        assert_eq!(is_digit_char(c), c.is_ascii_digit());
    }
}

#[test]
fn causes_read_as_the_standard_library_says() {
    assert_eq!(ParseCause::EmptyFloat.message(), "cannot parse float from empty string");
    assert_eq!(ParseCause::InvalidFloat.message(), "invalid float literal");
    assert_eq!(ParseCause::EmptyInteger.message(), "cannot parse integer from empty string");
    assert_eq!(ParseCause::InvalidDigit.message(), "invalid digit found in string");
    assert_eq!(ParseCause::IntegerTooLarge.message(), "number too large to fit in target type");
    assert_eq!(ParseCause::EmptyFloat.message(), "".parse::<f64>().unwrap_err().to_string());
    assert_eq!(ParseCause::InvalidFloat.message(), ".".parse::<f64>().unwrap_err().to_string());
    assert_eq!(ParseCause::EmptyInteger.message(), "".parse::<u32>().unwrap_err().to_string());
    assert_eq!(ParseCause::InvalidDigit.message(), "-".parse::<u32>().unwrap_err().to_string());
    assert_eq!(
        ParseCause::IntegerTooLarge.message(),
        "4294967296".parse::<u32>().unwrap_err().to_string()
    );
}
