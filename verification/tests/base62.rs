use shortest_url::base62::{Base62, Digit, Error};

#[test]
fn can_convert_to_base62_and_back() {
    for n in 0u64..10_000 {
        let base62: Base62 = Base62::from(n);
        let back_to_n: u64 = base62.to_u64();

        assert_eq!(n, back_to_n, "{}", n);
    }
}

#[test]
fn can_convert_string_back_base62() {
    for n in 10_000u64..60_000 {
        let base62: Base62 = Base62::from(n);
        let base62_string: &str = &base62.to_string();
        let back_to_base62: Result<Base62, Error> = Base62::try_from(base62_string);

        assert_eq!(Ok(base62), back_to_base62, "{}", n);
    }
}

#[test]
fn reports_invalid_digits() {
    let base62: Result<Base62, Error> = Base62::try_from("adb!930");
    assert_eq!(Err(Error::InvalidChar('!')), base62);
}

#[test]
fn complains_about_empty_strings() {
    let empties = ["", "  ", "\n"];
    for empty in empties {
        let base62: Result<Base62, Error> = Base62::try_from(empty);
        assert_eq!(Err(Error::IsEmpty), base62);
    }
}

#[test]
fn digits_are_least_significant_first() {
    let base62 = Base62::from(62);
    assert_eq!(base62, Base62(vec![Digit::Digit0, Digit::Digit1]));
    assert_eq!(base62.to_string(), "01");
    assert_eq!(Base62::from(61).to_string(), "Z");
    assert_eq!(Base62::from(35).to_string(), "z");
    assert_eq!(Base62::from(10).to_string(), "a");
    assert_eq!(Base62::from(3844).to_string(), "001");
    assert_eq!(Base62::from(123_456_789).to_string(), "xK0m8");
}

#[test]
fn zero_has_no_digits() {
    let base62 = Base62::from(0);
    assert_eq!(base62, Base62(vec![]));
    assert_eq!(base62.to_string(), "");
    assert_eq!(base62.to_u64(), 0);
    assert_eq!(Base62::try_from(base62.to_string().as_str()), Err(Error::IsEmpty));
}

#[test]
fn reads_text_into_numbers() {
    let b = Base62::try_from("xK0m8").unwrap();
    assert_eq!(b.to_u64(), 123_456_789);
    assert_eq!(Base62::try_from("aabbcc").unwrap().to_u64(), 11_173_574_538);
    // A zero at the most significant end adds nothing.
    assert_eq!(Base62::try_from("10").unwrap().to_u64(), 1);
    assert_eq!(Base62::from(1).to_string(), "1");
}

#[test]
fn the_largest_number_round_trips() {
    let base62 = Base62::from(u64::MAX);
    assert_eq!(base62.0.len(), 11);
    assert_eq!(base62.to_u64(), u64::MAX);
    assert_eq!(base62.checked_to_u64(), Some(u64::MAX));
    let text = base62.to_string();
    assert_eq!(Base62::try_from(text.as_str()), Ok(base62));
}

#[test]
fn checked_reading_refuses_what_does_not_fit() {
    // Eleven digits worth more than u64::MAX.
    assert_eq!(Base62::try_from("ZZZZZZZZZZZ").unwrap().checked_to_u64(), None);
    // Twelve digits, even if they are worth little.
    assert_eq!(Base62::try_from("100000000000").unwrap().checked_to_u64(), None);
    assert_eq!(Base62::try_from("10000000000").unwrap().checked_to_u64(), Some(1));
    assert_eq!(Base62::try_from("z").unwrap().checked_to_u64(), Some(35));
}

#[test]
fn white_space_inside_or_around_a_number_is_invalid() {
    assert_eq!(Base62::try_from(" ab"), Err(Error::InvalidChar(' ')));
    assert_eq!(Base62::try_from("ab\t"), Err(Error::InvalidChar('\t')));
    assert_eq!(Base62::try_from("a-b!"), Err(Error::InvalidChar('-')));
    assert_eq!(Base62::try_from("\u{3000}\u{2028}"), Err(Error::IsEmpty));
    assert_eq!(Base62::try_from("é"), Err(Error::InvalidChar('é')));
}

#[test]
fn digits_and_characters_correspond() {
    let symbols = "0123456789abcdefghijklmnopqrstuvwxyzABCDEFGHIJKLMNOPQRSTUVWXYZ";
    for (value, c) in symbols.chars().enumerate() {
        let digit = Digit::from_char(c).unwrap();
        assert_eq!(digit.to_char(), c);
        assert_eq!(digit.to_u64(), value as u64);
        assert_eq!(Digit::from_u64(value as u64), Some(digit));
    }
    assert_eq!(Digit::from_u64(62), None);
    assert_eq!(Digit::from_char('_'), None);
}

#[test]
fn text_that_reads_as_digits_is_written_back_the_same() {
    for text in ["0", "00", "Zz9", "aabbcc", "10", "0000000000000000000001"] {
        let base62 = Base62::try_from(text).unwrap();
        assert_eq!(base62.to_string(), text);
    }
}

#[test]
fn canonical_digits_survive_a_trip_through_numbers() {
    for text in ["1", "Zz9", "aabbcc", "xK0m8", "0001"] {
        let base62 = Base62::try_from(text).unwrap();
        assert_eq!(Base62::from(base62.to_u64()), base62);
    }
    // A zero at the most significant end is dropped on the way.
    let padded = Base62::try_from("10").unwrap();
    assert_eq!(Base62::from(padded.to_u64()), Base62::try_from("1").unwrap());
}

#[test]
fn different_numbers_have_different_slugs() {
    let mut seen = std::collections::HashSet::new();
    for n in 0u64..5_000 {
        assert!(seen.insert(Base62::from(n).to_string()), "{}", n);
    }
}
