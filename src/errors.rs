//! The error kinds of argument parsing, dispatch and settings handling.

use vstd::prelude::*;

verus! {

/// Why a command line could not be turned into [`crate::arguments::Arguments`].
#[derive(Debug, Clone, Copy, PartialEq, Eq, Structural)]
pub enum ArgumentErrorType {
    MissingParameterKey,
    UnknownParameterKey,
    MissingInputValue,
    MissingOutputValue,
    MissingArguments,
}

/// Why a conversion request was refused.
#[derive(Debug, Clone, Copy, PartialEq, Eq, Structural)]
pub enum DispatcherError {
    /// The input path carries no file extension.
    InputFileHasNoExtension,
    /// The input extension is not valid text; paths given as `String` always
    /// have text extensions, so dispatch over them never reports it.
    InputFileExtensionHasWrongFormat,
    /// No converter is registered for the input extension.
    InputFileTypeNotSupported,
    /// The output path carries no file extension.
    OutputFileHasNoExtension,
    /// The selected converter cannot produce the output extension.
    OutputFileTypeNotSupported,
}

/// Why a settings text could not be read.
#[derive(Debug, PartialEq, Eq)]
pub enum SettingsErrorType {
    SettingsFileNotFound,
    InvalidSettingsFile(String),
    SectionNotFound,
    KeyNotFound,
}

/// What a settings error says: its kind, and the offending line where
/// there is one.
pub enum SettingsFault {
    FileNotFound,
    InvalidLine(Seq<char>),
    SectionNotFound,
    KeyNotFound,
}

impl View for SettingsErrorType {
    type V = SettingsFault;

    open spec fn view(&self) -> SettingsFault {
        match self {
            SettingsErrorType::SettingsFileNotFound => SettingsFault::FileNotFound,
            SettingsErrorType::InvalidSettingsFile(line) => SettingsFault::InvalidLine(line@),
            SettingsErrorType::SectionNotFound => SettingsFault::SectionNotFound,
            SettingsErrorType::KeyNotFound => SettingsFault::KeyNotFound,
        }
    }
}

} // verus!
