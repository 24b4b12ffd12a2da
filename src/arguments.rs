//! Command-line argument parsing: `--input <path>`, `--output <path>` and
//! the boolean `--force`, after the program name.

use vstd::prelude::*;
use vstd::string::StrSliceExecFns;
use vstd::string::StringExecFns;

use crate::errors::ArgumentErrorType;
use crate::text::{is_key_token, starts_with_key_prefix, str_equals};

verus! {

/// A refused command line: the kind of the problem and the offending text
/// (empty where the kind says it all).
#[derive(Debug, PartialEq)]
pub struct ArgumentError {
    pub error_type: ArgumentErrorType,
    pub value: String,
}

impl View for ArgumentError {
    type V = (ArgumentErrorType, Seq<char>);

    open spec fn view(&self) -> Self::V {
        (self.error_type, self.value@)
    }
}

/// The human-readable message for an argument error of kind `kind` about `value`.
pub open spec fn argument_error_message(kind: ArgumentErrorType, value: Seq<char>) -> Seq<char> {
    match kind {
        ArgumentErrorType::MissingParameterKey => "Parameter is missing a key: "@ + value,
        ArgumentErrorType::UnknownParameterKey => "Unknown parameter key: "@ + value,
        ArgumentErrorType::MissingInputValue => "Missing input value"@,
        ArgumentErrorType::MissingOutputValue => "Missing output value"@,
        ArgumentErrorType::MissingArguments => "Missing arguments"@,
    }
}

impl ArgumentError {
    pub(crate) fn new(error_type: ArgumentErrorType, value: String) -> (r: ArgumentError)
        ensures
            r@ == (error_type, value@),
    {
        ArgumentError { error_type, value }
    }

    /// The message that describes this error to a user.
    pub fn display(&self) -> (r: String)
        ensures
            r@ == argument_error_message(self@.0, self@.1),
    {
        match self.error_type {
            ArgumentErrorType::MissingParameterKey => {
                let mut s = String::from_str("Parameter is missing a key: ");
                s.append(self.value.as_str());
                s
            },
            ArgumentErrorType::UnknownParameterKey => {
                let mut s = String::from_str("Unknown parameter key: ");
                s.append(self.value.as_str());
                s
            },
            ArgumentErrorType::MissingInputValue => String::from_str("Missing input value"),
            ArgumentErrorType::MissingOutputValue => String::from_str("Missing output value"),
            ArgumentErrorType::MissingArguments => String::from_str("Missing arguments"),
        }
    }
}

/// What the parser expects from the next command-line word.
#[derive(Debug, Clone, Copy, PartialEq, Eq, Structural)]
pub enum ParseState {
    ExpectingKey,
    ExpectInputValue,
    ExpectOutputValue,
}

/// The parsed command line: input path, output path, and whether an existing
/// output may be overwritten.
#[derive(Debug, PartialEq)]
pub struct Arguments {
    pub input: String,
    pub output: String,
    pub force: bool,
}

impl View for Arguments {
    type V = (Seq<char>, Seq<char>, bool);

    open spec fn view(&self) -> Self::V {
        (self.input@, self.output@, self.force)
    }
}

/// The key named by a `--key` word.
pub open spec fn key_name(arg: Seq<char>) -> Seq<char> {
    arg.subrange(2, arg.len() as int)
}

/// One word of the command line read in parser state `state`, with `acc`
/// the arguments gathered so far.
pub open spec fn parse_step(
    state: ParseState,
    acc: (Seq<char>, Seq<char>, bool),
    arg: Seq<char>,
) -> Result<(ParseState, (Seq<char>, Seq<char>, bool)), (ArgumentErrorType, Seq<char>)> {
    match state {
        ParseState::ExpectingKey => {
            if !is_key_token(arg) {
                Err((ArgumentErrorType::MissingParameterKey, arg))
            } else if key_name(arg) == "input"@ {
                Ok((ParseState::ExpectInputValue, acc))
            } else if key_name(arg) == "output"@ {
                Ok((ParseState::ExpectOutputValue, acc))
            } else if key_name(arg) == "force"@ {
                Ok((ParseState::ExpectingKey, (acc.0, acc.1, true)))
            } else {
                Err((ArgumentErrorType::UnknownParameterKey, key_name(arg)))
            }
        },
        ParseState::ExpectInputValue => {
            if is_key_token(arg) {
                Err((ArgumentErrorType::MissingInputValue, Seq::empty()))
            } else {
                Ok((ParseState::ExpectingKey, (arg, acc.1, acc.2)))
            }
        },
        ParseState::ExpectOutputValue => {
            if is_key_token(arg) {
                Err((ArgumentErrorType::MissingOutputValue, Seq::empty()))
            } else {
                Ok((ParseState::ExpectingKey, (acc.0, arg, acc.2)))
            }
        },
    }
}

/// The parser state and gathered arguments after reading `words` in order,
/// or the first error met.
pub open spec fn parse_words(words: Seq<Seq<char>>) -> Result<
    (ParseState, (Seq<char>, Seq<char>, bool)),
    (ArgumentErrorType, Seq<char>),
>
    decreases words.len(),
{
    if words.len() == 0 {
        Ok((ParseState::ExpectingKey, (Seq::empty(), Seq::empty(), false)))
    } else {
        match parse_words(words.drop_last()) {
            Ok((state, acc)) => parse_step(state, acc, words.last()),
            Err(e) => Err(e),
        }
    }
}

/// The outcome of parsing a full command line, whose first word is the
/// program name.
pub open spec fn parse_command_line(words: Seq<Seq<char>>) -> Result<
    (Seq<char>, Seq<char>, bool),
    (ArgumentErrorType, Seq<char>),
> {
    if words.len() <= 1 {
        Err((ArgumentErrorType::MissingArguments, Seq::empty()))
    } else {
        match parse_words(words.drop_first()) {
            Err(e) => Err(e),
            Ok((_, acc)) => {
                if acc.0.len() == 0 {
                    Err((ArgumentErrorType::MissingInputValue, Seq::empty()))
                } else if acc.1.len() == 0 {
                    Err((ArgumentErrorType::MissingOutputValue, Seq::empty()))
                } else {
                    Ok(acc)
                }
            },
        }
    }
}

/// The texts of a list of strings.
pub open spec fn word_views(args: Seq<String>) -> Seq<Seq<char>> {
    args.map_values(|s: String| s@)
}

/// A parse result seen through the views of its payloads.
pub open spec fn parse_result_view(r: Result<Arguments, ArgumentError>) -> Result<
    (Seq<char>, Seq<char>, bool),
    (ArgumentErrorType, Seq<char>),
> {
    match r {
        Ok(a) => Ok(a@),
        Err(e) => Err(e@),
    }
}

/// Once a prefix of the words is refused, the whole list is refused with the
/// same error.
proof fn lemma_refusal_persists(words: Seq<Seq<char>>, k: int)
    requires
        0 <= k <= words.len(),
    ensures
        parse_words(words.subrange(0, k)) is Err ==> parse_words(words) == parse_words(
            words.subrange(0, k),
        ),
    decreases words.len() - k,
{
    if k < words.len() {
        assert(words.subrange(0, k + 1).drop_last() =~= words.subrange(0, k));
        lemma_refusal_persists(words, k + 1);
    } else {
        assert(words.subrange(0, k) =~= words);
    }
}

impl Arguments {
    fn new() -> (r: Arguments)
        ensures
            r@ == (Seq::<char>::empty(), Seq::<char>::empty(), false),
    {
        Arguments { input: String::new(), output: String::new(), force: false }
    }

    /// Parses a command line whose first word is the program name.
    pub fn from_args(args: Vec<String>) -> (r: Result<Arguments, ArgumentError>)
        ensures
            parse_result_view(r) == parse_command_line(word_views(args@)),
    {
        let n = args.len();
        if n <= 1 {
            return Err(ArgumentError::new(ArgumentErrorType::MissingArguments, String::new()));
        }
        let ghost words = word_views(args@);
        let mut state = ParseState::ExpectingKey;
        let mut gathered = Arguments::new();
        let mut i: usize = 1;
        proof {
            assert(words.subrange(1, 1).len() == 0);
        }
        while i < n
            invariant
                n == args@.len(),
                1 <= i <= n,
                words == word_views(args@),
                parse_words(words.subrange(1, i as int)) == Ok::<
                    (ParseState, (Seq<char>, Seq<char>, bool)),
                    (ArgumentErrorType, Seq<char>),
                >((state, gathered@)),
            decreases n - i,
        {
            let arg: &String = &args[i];
            proof {
                assert(words.subrange(1, i + 1).drop_last() =~= words.subrange(1, i as int));
                assert(words.subrange(1, i + 1).last() == arg@);
                assert(words.drop_first().subrange(0, i as int) =~= words.subrange(1, i + 1));
                lemma_refusal_persists(words.drop_first(), i as int);
            }
            match state {
                ParseState::ExpectingKey => {
                    if !starts_with_key_prefix(arg.as_str()) {
                        return Err(ArgumentError::new(ArgumentErrorType::MissingParameterKey, arg.clone()));
                    }
                    let len = arg.as_str().unicode_len();
                    let key: &str = arg.as_str().substring_char(2, len);
                    if str_equals(key, "input") {
                        state = ParseState::ExpectInputValue;
                    } else if str_equals(key, "output") {
                        state = ParseState::ExpectOutputValue;
                    } else if str_equals(key, "force") {
                        gathered.force = true;
                    } else {
                        return Err(ArgumentError::new(ArgumentErrorType::UnknownParameterKey, key.to_owned()));
                    }
                },
                ParseState::ExpectInputValue => {
                    if starts_with_key_prefix(arg.as_str()) {
                        return Err(ArgumentError::new(ArgumentErrorType::MissingInputValue, String::new()));
                    }
                    gathered.input = arg.clone();
                    state = ParseState::ExpectingKey;
                },
                ParseState::ExpectOutputValue => {
                    if starts_with_key_prefix(arg.as_str()) {
                        return Err(ArgumentError::new(ArgumentErrorType::MissingOutputValue, String::new()));
                    }
                    gathered.output = arg.clone();
                    state = ParseState::ExpectingKey;
                },
            }
            i = i + 1;
        }
        proof {
            assert(words.subrange(1, n as int) =~= words.drop_first());
        }
        if gathered.input.as_str().unicode_len() == 0 {
            return Err(ArgumentError::new(ArgumentErrorType::MissingInputValue, String::new()));
        } else if gathered.output.as_str().unicode_len() == 0 {
            return Err(ArgumentError::new(ArgumentErrorType::MissingOutputValue, String::new()));
        }
        Ok(gathered)
    }
}

} // verus!
