use brighty::cli::command_from_arg;
use brighty::codec::SocketMessage;
use brighty::error::BrightyError;
use brighty::text::{config_device_name, parse_unsigned, parse_value, same_text, trim_spaces};

#[test]
fn parse_unsigned_accepts_digits_and_plus() {
    assert_eq!(parse_unsigned("0"), Some(0));
    assert_eq!(parse_unsigned("937"), Some(937));
    assert_eq!(parse_unsigned("+12"), Some(12));
    assert_eq!(parse_unsigned("18446744073709551615"), Some(18446744073709551615usize));
}

#[test]
fn parse_unsigned_rejects_other_text() {
    assert_eq!(parse_unsigned(""), None);
    assert_eq!(parse_unsigned("+"), None);
    assert_eq!(parse_unsigned("-1"), None);
    assert_eq!(parse_unsigned("12a"), None);
    assert_eq!(parse_unsigned(" 12"), None);
    assert_eq!(parse_unsigned("18446744073709551616"), None);
    assert_eq!(parse_unsigned("99999999999999999999x"), None);
}

#[test]
fn parse_value_trims_whitespace() {
    assert_eq!(parse_value("255\n"), Ok(255));
    assert_eq!(parse_value("\t 7 \r\n"), Ok(7));
    assert_eq!(parse_value("\n"), Err(BrightyError::MalformedValue));
    assert_eq!(parse_value("1 2"), Err(BrightyError::MalformedValue));
}

#[test]
fn trim_removes_surrounding_space_only() {
    assert_eq!(trim_spaces("  intel backlight \n"), "intel backlight");
    assert_eq!(trim_spaces(" \n "), "");
    assert_eq!(trim_spaces("x"), "x");
}

#[test]
fn config_name_drops_newline() {
    assert_eq!(config_device_name("intel_backlight\n"), "intel_backlight");
}

#[test]
fn config_name_drops_every_newline_only() {
    assert_eq!(config_device_name("a\nb"), "ab");
    assert_eq!(config_device_name(" x\n"), " x");
    assert_eq!(config_device_name("name\r\n"), "name\r");
    assert_eq!(config_device_name("\n\n"), "");
}

#[test]
fn same_text_compares_characters() {
    assert!(same_text("up", "up"));
    assert!(!same_text("up", "upp"));
    assert!(!same_text("up", "uP"));
    assert!(same_text("", ""));
}

#[test]
fn client_arguments_map_to_distinct_commands() {
    assert!(matches!(command_from_arg("up"), Some(SocketMessage::SetRelativeBrightnessUp)));
    assert!(matches!(command_from_arg("down"), Some(SocketMessage::SetRelativeBrightnessDown)));
    assert!(matches!(command_from_arg("420"), Some(SocketMessage::SetBrightnessAbsolute(420))));
    assert!(matches!(
        command_from_arg("4294967295"),
        Some(SocketMessage::SetBrightnessAbsolute(4294967295))
    ));
}

#[test]
fn client_arguments_rejected() {
    assert!(command_from_arg("4294967296").is_none());
    assert!(command_from_arg("sideways").is_none());
    assert!(command_from_arg("").is_none());
}
