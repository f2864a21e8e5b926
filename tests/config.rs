use rff::config::{parse_height, parse_u16, Config, HeightError, HeightSpec};
use rff::error::AppError;

#[test]
fn parse_u16_reads_decimal() {
    assert_eq!(parse_u16(b"0"), Some(0));
    assert_eq!(parse_u16(b"42"), Some(42));
    assert_eq!(parse_u16(b"+7"), Some(7));
    assert_eq!(parse_u16(b"007"), Some(7));
    assert_eq!(parse_u16(b"65535"), Some(65535));
}

#[test]
fn parse_u16_refuses_bad_text() {
    assert_eq!(parse_u16(b""), None);
    assert_eq!(parse_u16(b"+"), None);
    assert_eq!(parse_u16(b"-1"), None);
    assert_eq!(parse_u16(b"12a"), None);
    assert_eq!(parse_u16(b"65536"), None);
    assert_eq!(parse_u16(b"99999999999"), None);
    assert_eq!(parse_u16(b" 1"), None);
}

#[test]
fn parse_height_rows_and_percent() {
    assert_eq!(parse_height("10"), Ok(HeightSpec::Rows(10)));
    assert_eq!(parse_height("50%"), Ok(HeightSpec::Percent(50)));
    assert_eq!(parse_height("100%"), Ok(HeightSpec::Percent(100)));
}

#[test]
fn parse_height_errors() {
    assert_eq!(
        parse_height("101%"),
        Err(HeightError::PercentTooLarge("101%".to_string()))
    );
    assert_eq!(
        parse_height("x%"),
        Err(HeightError::InvalidPercentage("x%".to_string()))
    );
    assert_eq!(
        parse_height("%"),
        Err(HeightError::InvalidPercentage("%".to_string()))
    );
    assert_eq!(
        parse_height("abc"),
        Err(HeightError::InvalidHeight("abc".to_string()))
    );
}

#[test]
fn height_rows_from_terminal() {
    assert_eq!(HeightSpec::Rows(12).rows(40), Ok(12));
    assert_eq!(HeightSpec::Percent(50).rows(40), Ok(20));
    assert_eq!(HeightSpec::Percent(33).rows(10), Ok(3));
    assert_eq!(HeightSpec::Percent(100).rows(65535), Ok(65535));
    assert_eq!(HeightSpec::Percent(1).rows(10), Err(HeightError::ZeroHeight));
}

fn base(root: &str) -> Config {
    Config {
        all: false,
        multi: false,
        height: None,
        root: root.to_string(),
        editor: String::new(),
    }
}

#[test]
fn environment_fills_editor_and_root() {
    let c = base("").with_environment(Some("/home".to_string()), Some("vim".to_string())).unwrap();
    assert_eq!(c.root, "/home");
    assert_eq!(c.editor, "vim");
    let c = base("proj").with_environment(None, None).unwrap();
    assert_eq!(c.root, "proj");
    assert_eq!(c.editor, "nano");
}

#[test]
fn environment_without_current_dir_fails() {
    let r = base("").with_environment(None, None);
    assert!(matches!(r, Err(AppError::Io(_))));
}
