use file_converter::arguments::Arguments;
use file_converter::errors::ArgumentErrorType;

fn words(list: &[&str]) -> Vec<String> {
    list.iter().map(|s| s.to_string()).collect()
}

#[test]
fn test_correct_arguments_without_force() {
    let args = vec![
        "BINARY".to_string(),
        "--input".to_string(), "input.txt".to_string(),
        "--output".to_string(), "output.txt".to_string()
    ];

    let result = Arguments::from_args(args);
    assert!(result.is_ok());
}

#[test]
fn test_correct_arguments_with_force() {
    let args = vec![
        "BINARY".to_string(),
        "--input".to_string(), "input.txt".to_string(),
        "--output".to_string(), "output.txt".to_string(),
        "--force".to_string()
    ];

    let result = Arguments::from_args(args);
    assert!(result.is_ok());
    assert!(result.unwrap().force)
}

#[test]
fn test_missing_input_value() {
    let args = vec![
        "BINARY".to_string(),
        "--input".to_string(),
        "--output".to_string(), "output.txt".to_string()
    ];

    let result = Arguments::from_args(args);
    assert_eq!(
        result.unwrap_err().error_type,
        ArgumentErrorType::MissingInputValue
    )
}

#[test]
fn test_missing_output_value() {
    let args = vec![
        "BINARY".to_string(),
        "--input".to_string(), "input.txt".to_string(),
        "--output".to_string()
    ];

    let result = Arguments::from_args(args);
    assert_eq!(
        result.unwrap_err().error_type,
        ArgumentErrorType::MissingOutputValue
    )
}

#[test]
fn test_unknown_parameter_key() {
    let args = vec![
        "BINARY".to_string(),
        "--input".to_string(), "input.txt".to_string(),
        "--output".to_string(), "output.txt".to_string(),
        "--unknown".to_string()
    ];

    let result = Arguments::from_args(args);
    assert_eq!(
        result.unwrap_err().error_type,
        ArgumentErrorType::UnknownParameterKey
    )
}

#[test]
fn test_missing_parameter_key() {
    let args = vec![
        "BINARY".to_string(),
        "input.txt".to_string(),
        "--output".to_string(), "output.txt".to_string(),
    ];

    let result = Arguments::from_args(args);
    assert_eq!(
        result.unwrap_err().error_type,
        ArgumentErrorType::MissingParameterKey
    )
}

#[test]
fn test_empty_arguments() {
    let args = vec![];

    let result = Arguments::from_args(args);
    assert_eq!(
        result.unwrap_err().error_type,
        ArgumentErrorType::MissingArguments
    )
}

#[test]
fn parsed_paths_are_kept() {
    let a = Arguments::from_args(words(&["bin", "--output", "b.json", "--input", "a.txt"])).unwrap();
    assert_eq!(a.input, "a.txt");
    assert_eq!(a.output, "b.json");
    assert!(!a.force);
}

#[test]
fn only_program_name_is_missing_arguments() {
    let e = Arguments::from_args(words(&["bin"])).unwrap_err();
    assert_eq!(e.error_type, ArgumentErrorType::MissingArguments);
    assert_eq!(e.display(), "Missing arguments");
}

#[test]
fn unknown_key_message_names_the_key() {
    let e = Arguments::from_args(words(&["bin", "--verbose"])).unwrap_err();
    assert_eq!(e.error_type, ArgumentErrorType::UnknownParameterKey);
    assert_eq!(e.value, "verbose");
    assert_eq!(e.display(), "Unknown parameter key: verbose");
}

#[test]
fn missing_key_message_names_the_word() {
    let e = Arguments::from_args(words(&["bin", "input.txt"])).unwrap_err();
    assert_eq!(e.display(), "Parameter is missing a key: input.txt");
}

#[test]
fn missing_value_messages() {
    let e = Arguments::from_args(words(&["bin", "--input", "--output", "o.txt"])).unwrap_err();
    assert_eq!(e.display(), "Missing input value");
    let e = Arguments::from_args(words(&["bin", "--input", "i.txt"])).unwrap_err();
    assert_eq!(e.error_type, ArgumentErrorType::MissingOutputValue);
    assert_eq!(e.display(), "Missing output value");
}

#[test]
fn later_value_replaces_earlier_one() {
    let a = Arguments::from_args(words(&["bin", "--input", "a.txt", "--input", "c.txt", "--output", "o.txt"])).unwrap();
    assert_eq!(a.input, "c.txt");
}
