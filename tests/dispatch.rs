use file_converter::converters::text_file_converter::TextFileConverter;
use file_converter::converters::{input_format_for, Converter, InputFormat};
use file_converter::dispatcher::{determine_and_run_conversion, run_conversion_with_extensions, select_converter};
use file_converter::errors::DispatcherError;
use file_converter::results::{DispatcherResult, Elapsed};

fn dispatch(input: &str, output: &str) -> Result<DispatcherResult, DispatcherError> {
    determine_and_run_conversion(&input.to_string(), &output.to_string())
}

#[test]
fn text_to_text_succeeds_with_zero_duration() {
    let r = dispatch("report.txt", "report_copy.txt").unwrap();
    assert_eq!(r.duration, Elapsed { secs: 0, nanos: 0 });
    assert_eq!(r.duration.as_secs(), 0);
}

#[test]
fn csv_input_is_not_supported() {
    assert_eq!(dispatch("data.csv", "data.txt").unwrap_err(), DispatcherError::InputFileTypeNotSupported);
}

#[test]
fn pdf_output_is_not_supported() {
    assert_eq!(dispatch("notes.txt", "notes.pdf").unwrap_err(), DispatcherError::OutputFileTypeNotSupported);
}

#[test]
fn input_without_extension_is_refused() {
    assert_eq!(dispatch("noext", "out.txt").unwrap_err(), DispatcherError::InputFileHasNoExtension);
}

#[test]
fn any_other_input_extension_is_not_supported() {
    for input in ["a.json", "a.yaml", "a.TXT", "a.tx", "a.txtx", "dir/a.md", "a."] {
        assert_eq!(dispatch(input, "b.txt").unwrap_err(), DispatcherError::InputFileTypeNotSupported, "{}", input);
    }
}

#[test]
fn hidden_file_name_has_no_extension() {
    assert_eq!(dispatch(".txt", "b.txt").unwrap_err(), DispatcherError::InputFileHasNoExtension);
    assert_eq!(dispatch("dir.txt/file", "b.txt").unwrap_err(), DispatcherError::InputFileHasNoExtension);
}

#[test]
fn text_to_json_is_not_supported() {
    assert_eq!(dispatch("a.txt", "a.json").unwrap_err(), DispatcherError::OutputFileTypeNotSupported);
    assert_eq!(dispatch("a.txt", "a.TXT").unwrap_err(), DispatcherError::OutputFileTypeNotSupported);
}

#[test]
fn output_without_extension_is_refused() {
    assert_eq!(dispatch("a.txt", "out").unwrap_err(), DispatcherError::OutputFileHasNoExtension);
}

#[test]
fn nested_paths_use_the_file_name() {
    assert!(dispatch("some.dir/a.txt", "other.d/b.txt").is_ok());
}

#[test]
fn dispatch_is_repeatable() {
    for (i, o) in [("a.txt", "b.txt"), ("a.csv", "b.txt"), ("a.txt", "b.pdf"), ("a", "b.txt")] {
        assert_eq!(dispatch(i, o), dispatch(i, o));
    }
}

#[test]
fn dispatch_on_given_extensions() {
    let i = "in.txt".to_string();
    let o = "out.txt".to_string();
    assert!(run_conversion_with_extensions(Some("txt"), Some("txt"), &i, &o).is_ok());
    assert_eq!(run_conversion_with_extensions(None, Some("txt"), &i, &o).unwrap_err(), DispatcherError::InputFileHasNoExtension);
    assert_eq!(run_conversion_with_extensions(Some("csv"), Some("txt"), &i, &o).unwrap_err(), DispatcherError::InputFileTypeNotSupported);
    assert_eq!(run_conversion_with_extensions(Some("txt"), Some("pdf"), &i, &o).unwrap_err(), DispatcherError::OutputFileTypeNotSupported);
    assert_eq!(run_conversion_with_extensions(Some("txt"), None, &i, &o).unwrap_err(), DispatcherError::OutputFileHasNoExtension);
}

#[test]
fn registry_knows_text_only() {
    assert_eq!(input_format_for("txt"), Some(InputFormat::Text));
    assert_eq!(input_format_for("json"), None);
    assert_eq!(input_format_for(""), None);
    assert!(select_converter(Some("txt"), &"a.txt".to_string(), &"b.txt".to_string()).is_ok());
    assert!(select_converter(Some("csv"), &"a.csv".to_string(), &"b.txt".to_string()).is_err());
}

#[test]
fn text_converter_checks_output_format() {
    let c = TextFileConverter::new("in.txt".to_string(), "out.txt".to_string());
    assert_eq!(c.convert(), Ok(DispatcherResult::new()));
    let c = TextFileConverter::new("in.txt".to_string(), "out.yaml".to_string());
    assert_eq!(c.convert().unwrap_err(), DispatcherError::OutputFileTypeNotSupported);
    assert_eq!(c.convert_to(Some("txt")), Ok(DispatcherResult::new()));
    let c = Converter::for_format(InputFormat::Text, "in.txt".to_string(), "out.txt".to_string());
    assert!(c.convert().is_ok());
    assert_eq!(c.convert_to(Some("json")).unwrap_err(), DispatcherError::OutputFileTypeNotSupported);
}
