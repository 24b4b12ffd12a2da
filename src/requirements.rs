//! The conditions a conversion request must meet before dispatch.

use vstd::prelude::*;

use crate::arguments::Arguments;
use crate::path::{extension_of, file_extension};
use crate::settings::Settings;

verus! {

/// Whether a request may go ahead: the input file exists; an existing output
/// file may only be overwritten when forced or when overwriting is the
/// default; and both paths carry an extension.
pub open spec fn requirements_met(
    args: (Seq<char>, Seq<char>, bool),
    default_overwrite: bool,
    input_is_file: bool,
    output_is_file: bool,
) -> bool {
    &&& input_is_file
    &&& (!output_is_file || args.2 || default_overwrite)
    &&& extension_of(args.0) is Some
    &&& extension_of(args.1) is Some
}

/// Checks a request against the file system's answers: whether the input
/// path names a regular file, and whether the output path already does.
pub fn check_requirements(
    args: &Arguments,
    settings: &Settings,
    input_is_file: bool,
    output_is_file: bool,
) -> (r: bool)
    ensures
        r == requirements_met(args@, settings.general.default_overwrite, input_is_file, output_is_file),
{
    let mut check_passed = true;
    if !input_is_file {
        check_passed = false;
    }
    if output_is_file && !(args.force || settings.general.default_overwrite) {
        check_passed = false;
    }
    let input_extension = file_extension(args.input.as_str());
    let output_extension = file_extension(args.output.as_str());
    if input_extension.is_none() || output_extension.is_none() {
        check_passed = false;
    }
    check_passed
}

} // verus!
