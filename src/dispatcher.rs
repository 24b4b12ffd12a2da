//! Dispatch of a conversion request: the input path's extension selects the
//! converter, which then checks the output path's extension and converts.

use vstd::prelude::*;

use crate::converters::{
    conversion_outcome, input_format_for, input_format_of, output_formats_of, Converter,
};
use crate::errors::DispatcherError;
use crate::path::{extension_of, file_extension, optional_text};
use crate::results::{zero_elapsed, DispatcherResult};

verus! {

/// The converter selection for an input path whose extension is
/// `input_extension`: the registered input format, or why there is none.
pub open spec fn selection_outcome(input_extension: Option<Seq<char>>) -> Result<
    crate::converters::InputFormat,
    DispatcherError,
> {
    match input_extension {
        None => Err(DispatcherError::InputFileHasNoExtension),
        Some(ext) => match input_format_of(ext) {
            None => Err(DispatcherError::InputFileTypeNotSupported),
            Some(format) => Ok(format),
        },
    }
}

/// The outcome of dispatching a request whose input and output paths have
/// the extensions `input_extension` and `output_extension`.
pub open spec fn dispatch_outcome(
    input_extension: Option<Seq<char>>,
    output_extension: Option<Seq<char>>,
) -> Result<DispatcherResult, DispatcherError> {
    match selection_outcome(input_extension) {
        Err(e) => Err(e),
        Ok(format) => conversion_outcome(output_formats_of(format), output_extension),
    }
}

/// Selects the converter for the given input extension and builds it with
/// the request's paths.
pub fn select_converter(
    input_extension: Option<&str>,
    input_file: &String,
    output_file: &String,
) -> (r: Result<Converter, DispatcherError>)
    ensures
        match (r, selection_outcome(optional_text(input_extension))) {
            (Ok(c), Ok(format)) => c.format() == format && c.output_path() == output_file@,
            (Err(e), Err(f)) => e == f,
            _ => false,
        },
{
    match input_extension {
        None => Err(DispatcherError::InputFileHasNoExtension),
        Some(ext) => match input_format_for(ext) {
            None => Err(DispatcherError::InputFileTypeNotSupported),
            Some(format) => Ok(Converter::for_format(format, input_file.clone(), output_file.clone())),
        },
    }
}

/// Dispatch on known extensions: selects the converter for
/// `input_extension` and converts to `output_extension`.
pub fn run_conversion_with_extensions(
    input_extension: Option<&str>,
    output_extension: Option<&str>,
    input_file: &String,
    output_file: &String,
) -> (r: Result<DispatcherResult, DispatcherError>)
    ensures
        r == dispatch_outcome(optional_text(input_extension), optional_text(output_extension)),
{
    match select_converter(input_extension, input_file, output_file) {
        Err(e) => Err(e),
        Ok(converter) => converter.convert_to(output_extension),
    }
}

/// Dispatches a request: the input path's extension selects the converter,
/// which checks the output path's extension and converts.
pub fn determine_and_run_conversion(input_file: &String, output_file: &String) -> (r: Result<
    DispatcherResult,
    DispatcherError,
>)
    ensures
        r == dispatch_outcome(extension_of(input_file@), extension_of(output_file@)),
        extension_of(input_file@) is None ==> r == Err::<DispatcherResult, DispatcherError>(
            DispatcherError::InputFileHasNoExtension,
        ),
        extension_of(input_file@) is Some && extension_of(input_file@)->0 != seq!['t', 'x', 't']
            ==> r == Err::<DispatcherResult, DispatcherError>(
            DispatcherError::InputFileTypeNotSupported,
        ),
        extension_of(input_file@) == Some(seq!['t', 'x', 't']) && extension_of(output_file@)
            == Some(seq!['t', 'x', 't']) ==> r == Ok::<DispatcherResult, DispatcherError>(
            DispatcherResult { duration: zero_elapsed() },
        ),
        extension_of(input_file@) == Some(seq!['t', 'x', 't']) && extension_of(output_file@) is Some
            && extension_of(output_file@)->0 != seq!['t', 'x', 't'] ==> r == Err::<
            DispatcherResult,
            DispatcherError,
        >(DispatcherError::OutputFileTypeNotSupported),
{
    let input_extension = file_extension(input_file.as_str());
    let converter = match input_extension {
        None => select_converter(None, input_file, output_file),
        Some(ext) => select_converter(Some(ext.as_str()), input_file, output_file),
    };
    match converter {
        Err(e) => Err(e),
        Ok(c) => c.convert(),
    }
}

/// Dispatch depends on the two paths alone: two requests with the same input
/// path and the same output path end the same way.
pub proof fn lemma_dispatch_is_deterministic(
    input_file: Seq<char>,
    output_file: Seq<char>,
    first: Result<DispatcherResult, DispatcherError>,
    second: Result<DispatcherResult, DispatcherError>,
)
    requires
        first == dispatch_outcome(extension_of(input_file), extension_of(output_file)),
        second == dispatch_outcome(extension_of(input_file), extension_of(output_file)),
    ensures
        first == second,
        first is Ok <==> second is Ok,
{
}

} // verus!
