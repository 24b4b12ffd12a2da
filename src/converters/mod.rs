//! The registry of converters: one variant per input format, each with the
//! set of output formats it can produce.

pub mod text_file_converter;

use vstd::prelude::*;

use crate::errors::DispatcherError;
use crate::path::{extension_of, optional_text};
use crate::results::{zero_elapsed, DispatcherResult};
use crate::text::str_equals;
use text_file_converter::{text_output_formats, TextFileConverter};

verus! {

/// The outcome of a conversion by a converter whose output formats are
/// `formats`, for an output path whose extension is `output_extension`.
pub open spec fn conversion_outcome(
    formats: Set<Seq<char>>,
    output_extension: Option<Seq<char>>,
) -> Result<DispatcherResult, DispatcherError> {
    match output_extension {
        None => Err(DispatcherError::OutputFileHasNoExtension),
        Some(ext) => {
            if formats.contains(ext) {
                Ok(DispatcherResult { duration: zero_elapsed() })
            } else {
                Err(DispatcherError::OutputFileTypeNotSupported)
            }
        },
    }
}

/// The input formats that have a converter.
#[derive(Debug, Clone, Copy, PartialEq, Eq, Structural)]
pub enum InputFormat {
    Text,
}

/// The input format registered for the extension `ext`, if any.
pub open spec fn input_format_of(ext: Seq<char>) -> Option<InputFormat> {
    if ext == seq!['t', 'x', 't'] {
        Some(InputFormat::Text)
    } else {
        None
    }
}

/// The output formats that the converter for `format` can produce.
pub open spec fn output_formats_of(format: InputFormat) -> Set<Seq<char>> {
    match format {
        InputFormat::Text => text_output_formats(),
    }
}

/// Looks up the input format registered for an extension.
pub fn input_format_for(ext: &str) -> (r: Option<InputFormat>)
    ensures
        r == input_format_of(ext@),
{
    proof {
        reveal_strlit("txt");
        assert("txt"@ =~= seq!['t', 'x', 't']);
    }
    if str_equals(ext, "txt") {
        Some(InputFormat::Text)
    } else {
        None
    }
}

/// A converter for one input format.
pub enum Converter {
    Text(TextFileConverter),
}

impl Converter {
    /// The input format this converter reads.
    pub open spec fn format(&self) -> InputFormat {
        match self {
            Converter::Text(_) => InputFormat::Text,
        }
    }

    /// The output path this converter writes.
    pub open spec fn output_path(&self) -> Seq<char> {
        match self {
            Converter::Text(c) => c@.1,
        }
    }

    /// Builds the converter registered for `format`.
    pub fn for_format(format: InputFormat, input_file: String, output_file: String) -> (r: Converter)
        ensures
            r.format() == format,
            r.output_path() == output_file@,
    {
        match format {
            InputFormat::Text => Converter::Text(TextFileConverter::new(input_file, output_file)),
        }
    }

    /// The conversion, given the extension of the output path.
    pub fn convert_to(&self, output_extension: Option<&str>) -> (r: Result<
        DispatcherResult,
        DispatcherError,
    >)
        ensures
            r == conversion_outcome(output_formats_of(self.format()), optional_text(output_extension)),
    {
        match self {
            Converter::Text(c) => c.convert_to(output_extension),
        }
    }

    /// Runs the conversion to the output path.
    pub fn convert(&self) -> (r: Result<DispatcherResult, DispatcherError>)
        ensures
            r == conversion_outcome(output_formats_of(self.format()), extension_of(self.output_path())),
    {
        match self {
            Converter::Text(c) => c.convert(),
        }
    }
}

} // verus!
