use file_converter::errors::SettingsErrorType;
use file_converter::settings::{LogLevel, Settings};
use file_converter::text::{split_lines, trim};

#[test]
fn full_settings_text() {
    let text = "[General]\nlog_level = debug\ndefault_overwrite = true\n\n[JSON_Converter]\nindent = 2\n[YAML_Converter]\n  indent=6  \n";
    let s = Settings::parse(text).unwrap();
    assert_eq!(s.general.log_level, LogLevel::Debug);
    assert!(s.general.default_overwrite);
    assert_eq!(s.json.indent, 2);
    assert_eq!(s.yaml.indent, 6);
}

#[test]
fn empty_text_gives_defaults() {
    assert_eq!(Settings::parse("").unwrap(), Settings::new());
    assert_eq!(Settings::parse("\n\n   \n").unwrap(), Settings::new());
}

#[test]
fn pair_before_any_section_is_refused() {
    assert_eq!(Settings::parse("indent = 3").unwrap_err(), SettingsErrorType::SectionNotFound);
}

#[test]
fn unknown_section_is_refused() {
    assert_eq!(Settings::parse("[XML]\nindent = 3\n").unwrap_err(), SettingsErrorType::SectionNotFound);
}

#[test]
fn line_without_single_separator_is_refused() {
    assert_eq!(
        Settings::parse("[General]\nlog_level debug\n").unwrap_err(),
        SettingsErrorType::InvalidSettingsFile("log_level debug".to_string())
    );
    assert_eq!(
        Settings::parse("[General]\r\n a = b = c\r\n").unwrap_err(),
        SettingsErrorType::InvalidSettingsFile(" a = b = c".to_string())
    );
}

#[test]
fn header_with_spaces_and_crlf() {
    let s = Settings::parse("  [JSON_Converter]  \r\nindent = 9\r\n").unwrap();
    assert_eq!(s.json.indent, 9);
}

#[test]
fn lines_and_trimming() {
    assert_eq!(split_lines("a\nb\r\n\nc"), vec!["a", "b", "", "c"]);
    assert_eq!(split_lines("a\n"), vec!["a"]);
    assert_eq!(split_lines("x\r"), vec!["x\r"]);
    assert!(split_lines("").is_empty());
    assert_eq!(trim(" \t key \u{3000}"), "key");
    assert_eq!(trim("   "), "");
}
