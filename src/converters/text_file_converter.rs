//! The converter for plain-text input.

use vstd::prelude::*;

use crate::converters::conversion_outcome;
use crate::errors::DispatcherError;
use crate::path::{extension_of, file_extension, optional_text};
use crate::results::DispatcherResult;
use crate::text::str_equals;

verus! {

/// The output formats that plain-text input can be converted to.
pub open spec fn text_output_formats() -> Set<Seq<char>> {
    set![seq!['t', 'x', 't']]
}

/// Converts a plain-text file; it keeps the input path for the conversion
/// work proper and the output path whose extension selects the format.
pub struct TextFileConverter {
    input_file: String,
    output_file: String,
}

impl View for TextFileConverter {
    type V = (Seq<char>, Seq<char>);

    closed spec fn view(&self) -> Self::V {
        (self.input_file@, self.output_file@)
    }
}

impl TextFileConverter {
    /// A converter from `input_file` to `output_file`.
    pub fn new(input_file: String, output_file: String) -> (r: Self)
        ensures
            r@ == (input_file@, output_file@),
    {
        Self { input_file, output_file }
    }

    fn supports_output_format(&self, output_format: &str) -> (r: bool)
        ensures
            r == text_output_formats().contains(output_format@),
    {
        proof {
            reveal_strlit("txt");
        assert("txt"@ =~= seq!['t', 'x', 't']);
        }
        str_equals(output_format, "txt")
    }

    /// The conversion, given the extension of the output path.
    pub fn convert_to(&self, output_extension: Option<&str>) -> (r: Result<
        DispatcherResult,
        DispatcherError,
    >)
        ensures
            r == conversion_outcome(text_output_formats(), optional_text(output_extension)),
    {
        match output_extension {
            None => Err(DispatcherError::OutputFileHasNoExtension),
            Some(ext) => {
                if !self.supports_output_format(ext) {
                    return Err(DispatcherError::OutputFileTypeNotSupported);
                }
                Ok(DispatcherResult::new())
            },
        }
    }

    /// Runs the conversion to the output path.
    pub fn convert(&self) -> (r: Result<DispatcherResult, DispatcherError>)
        ensures
            r == conversion_outcome(text_output_formats(), extension_of(self@.1)),
    {
        let output_extension = file_extension(self.output_file.as_str());
        match output_extension {
            Some(ext) => self.convert_to(Some(ext.as_str())),
            None => self.convert_to(None),
        }
    }
}

} // verus!
