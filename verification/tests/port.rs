use std::num::IntErrorKind;
use word_table::config::{Config, LISTEN_ADDRESS, PAGE_URL, PORT_VARIABLE, WORDS_URL};
use word_table::port::{parse_port, port_from_setting, PortError, DEFAULT_PORT};

/// What the standard library makes of the same text.
fn std_port(text: &str) -> Result<u16, PortError> {
    match text.parse::<u16>() {
        Ok(port) => Ok(port),
        Err(error) => match error.kind() {
            IntErrorKind::Empty => Err(PortError::Empty),
            IntErrorKind::InvalidDigit => Err(PortError::InvalidDigit),
            IntErrorKind::PosOverflow => Err(PortError::Overflow),
            other => panic!("unexpected kind {:?} for {:?}", other, text),
        },
    }
}

#[test]
fn parse_port_reads_plain_numbers() {
    assert_eq!(parse_port("9090"), Ok(9090));
    assert_eq!(parse_port("8000"), Ok(8000));
    assert_eq!(parse_port("80"), Ok(80));
    assert_eq!(parse_port("1"), Ok(1));
    assert_eq!(parse_port("0"), Ok(0));
}

#[test]
fn parse_port_reads_up_to_the_largest_port() {
    assert_eq!(parse_port("65535"), Ok(65535));
    assert_eq!(parse_port("65534"), Ok(65534));
    assert_eq!(parse_port("65536"), Err(PortError::Overflow));
    assert_eq!(parse_port("65540"), Err(PortError::Overflow));
    assert_eq!(parse_port("70000"), Err(PortError::Overflow));
    assert_eq!(parse_port("100000"), Err(PortError::Overflow));
    assert_eq!(parse_port("99999999999999999999999999999999"), Err(PortError::Overflow));
}

#[test]
fn parse_port_accepts_a_plus_sign_and_leading_zeros() {
    assert_eq!(parse_port("+9090"), Ok(9090));
    assert_eq!(parse_port("+0"), Ok(0));
    assert_eq!(parse_port("0080"), Ok(80));
    assert_eq!(parse_port("+0080"), Ok(80));
    assert_eq!(parse_port("000000000000000000065535"), Ok(65535));
    assert_eq!(parse_port("000000000000000000065536"), Err(PortError::Overflow));
}

#[test]
fn parse_port_rejects_the_empty_text() {
    assert_eq!(parse_port(""), Err(PortError::Empty));
}

#[test]
fn parse_port_rejects_a_sign_alone() {
    assert_eq!(parse_port("+"), Err(PortError::InvalidDigit));
    assert_eq!(parse_port("-"), Err(PortError::InvalidDigit));
    assert_eq!(parse_port("++1"), Err(PortError::InvalidDigit));
    assert_eq!(parse_port("+-1"), Err(PortError::InvalidDigit));
}

#[test]
fn parse_port_rejects_what_is_no_digit() {
    assert_eq!(parse_port("-1"), Err(PortError::InvalidDigit));
    assert_eq!(parse_port("-0"), Err(PortError::InvalidDigit));
    assert_eq!(parse_port(" 80"), Err(PortError::InvalidDigit));
    assert_eq!(parse_port("80 "), Err(PortError::InvalidDigit));
    assert_eq!(parse_port("80\n"), Err(PortError::InvalidDigit));
    assert_eq!(parse_port("8_000"), Err(PortError::InvalidDigit));
    assert_eq!(parse_port("8,000"), Err(PortError::InvalidDigit));
    assert_eq!(parse_port("80.0"), Err(PortError::InvalidDigit));
    assert_eq!(parse_port("0x50"), Err(PortError::InvalidDigit));
    assert_eq!(parse_port("http"), Err(PortError::InvalidDigit));
    assert_eq!(parse_port("80+"), Err(PortError::InvalidDigit));
    assert_eq!(parse_port("/0"), Err(PortError::InvalidDigit));
    assert_eq!(parse_port(":0"), Err(PortError::InvalidDigit));
}

#[test]
fn parse_port_rejects_digits_outside_ascii() {
    assert_eq!(parse_port("\u{ff18}\u{ff10}"), Err(PortError::InvalidDigit));
    assert_eq!(parse_port("\u{663}"), Err(PortError::InvalidDigit));
    assert_eq!(parse_port("80\u{e9}"), Err(PortError::InvalidDigit));
    assert_eq!(parse_port("\u{e9}80"), Err(PortError::InvalidDigit));
    assert_eq!(parse_port("8\u{1f600}0"), Err(PortError::InvalidDigit));
}

#[test]
fn parse_port_reports_what_goes_wrong_first() {
    assert_eq!(parse_port("99999x"), Err(PortError::Overflow));
    assert_eq!(parse_port("65536x"), Err(PortError::Overflow));
    assert_eq!(parse_port("65535x"), Err(PortError::InvalidDigit));
    assert_eq!(parse_port("6553x6"), Err(PortError::InvalidDigit));
    assert_eq!(parse_port("x99999"), Err(PortError::InvalidDigit));
    assert_eq!(parse_port("+99999 "), Err(PortError::Overflow));
    assert_eq!(parse_port("99999\u{e9}"), Err(PortError::Overflow));
    assert_eq!(parse_port("9\u{e9}9999"), Err(PortError::InvalidDigit));
}

#[test]
fn parse_port_reads_back_every_port() {
    for port in 0..=u16::MAX {
        assert_eq!(parse_port(&port.to_string()), Ok(port));
        assert_eq!(parse_port(&format!("+{}", port)), Ok(port));
        assert_eq!(parse_port(&format!("00{}", port)), Ok(port));
    }
}

#[test]
fn parse_port_overflows_just_above_the_largest_port() {
    for number in 65536..200000u32 {
        assert_eq!(parse_port(&number.to_string()), Err(PortError::Overflow));
    }
}

#[test]
fn parse_port_agrees_with_the_standard_library() {
    let alphabet: [&str; 9] = ["+", "-", "0", "3", "5", "6", "9", "x", "\u{e9}"];
    let mut texts: Vec<String> = vec![String::new()];
    let mut from: usize = 0;
    for _length in 0..6usize {
        let until: usize = texts.len();
        for i in from..until {
            for piece in alphabet {
                let text = format!("{}{}", texts[i], piece);
                texts.push(text);
            }
        }
        from = until;
    }
    assert_eq!(texts.len(), 1 + 9 + 81 + 729 + 6561 + 59049 + 531441);
    for text in &texts {
        assert_eq!(parse_port(text), std_port(text), "for {:?}", text);
    }
}

#[test]
fn port_from_setting_defaults_without_a_value() {
    assert_eq!(port_from_setting(None), Ok(8000));
    assert_eq!(DEFAULT_PORT, 8000);
    assert_eq!(parse_port("8000"), Ok(DEFAULT_PORT));
}

#[test]
fn port_from_setting_reads_the_value() {
    assert_eq!(port_from_setting(Some("9090")), Ok(9090));
    assert_eq!(port_from_setting(Some("65535")), Ok(65535));
}

#[test]
fn port_from_setting_does_not_default_on_a_bad_value() {
    assert_eq!(port_from_setting(Some("")), Err(PortError::Empty));
    assert_eq!(port_from_setting(Some("port")), Err(PortError::InvalidDigit));
    assert_eq!(port_from_setting(Some("65536")), Err(PortError::Overflow));
}

#[test]
fn config_without_a_value_uses_the_defaults() {
    let config = Config::from_port_setting(None).unwrap();
    assert_eq!(config.address, [0, 0, 0, 0]);
    assert_eq!(config.port, 8000);
    assert_eq!(config.page_url, PAGE_URL);
    assert_eq!(config.words_url, WORDS_URL);
}

#[test]
fn config_takes_the_port_from_the_value() {
    let config = Config::from_port_setting(Some("9090")).unwrap();
    assert_eq!(config.address, LISTEN_ADDRESS);
    assert_eq!(config.port, 9090);
    assert_eq!(config.page_url, "https://raw.githubusercontent.com/chromecruzer/self-learn/main/index.html");
    assert_eq!(config.words_url, "https://raw.githubusercontent.com/chromecruzer/self-learn/main/data.json");
}

#[test]
fn config_is_refused_for_a_bad_value() {
    assert_eq!(Config::from_port_setting(Some("")).err(), Some(PortError::Empty));
    assert_eq!(Config::from_port_setting(Some("9o9o")).err(), Some(PortError::InvalidDigit));
    assert_eq!(Config::from_port_setting(Some("90900")).err(), Some(PortError::Overflow));
}

#[test]
fn port_variable_is_named() {
    assert_eq!(PORT_VARIABLE, "PORT");
}
