//! The argument list of the tool: which files to read and which to write.
//!
//! An argument names a parameter by `-i1` or `--input1`, `-i2` or
//! `--input2`, `-o` or `--output`, in any mix of upper and lower case.
//! Quotation marks and apostrophes in it are dropped. The value follows an
//! equals sign in the same argument or, where the argument has none, is the
//! next argument as it stands. Arguments that name no parameter are passed
//! over, and of two values for one parameter the later counts.

use vstd::prelude::*;
use crate::text::{
    append, before, behind, chars_of, contains, occurs, position, position_of, replace_all,
    replaced, same_text, slice, string_of,
};

verus! {

/// The lower-case form of a text, as `str::to_lowercase` gives it.
pub uninterp spec fn lowercase(s: Seq<char>) -> Seq<char>;

/// `str::to_lowercase` returns the lower-case form of the text, by the
/// Unicode tables of the standard library. The form has a name here and
/// nothing else is said of it.
pub assume_specification[ str::to_lowercase ](s: &str) -> (lower: String)
    ensures
        lower@ == lowercase(s@),
;

/// The parameters of the tool.
#[derive(Debug, Clone, Copy, PartialEq, Eq, Structural)]
pub enum Parameter {
    Input1,
    Input2,
    Output,
}

/// Why an argument list was refused.
#[derive(Debug, Clone, Copy, PartialEq, Eq, Structural)]
pub enum ArgsError {
    /// The list is empty.
    NoParameters,
    /// The last argument names a parameter and no value follows.
    MissingValue,
}

impl ArgsError {
    /// The error in words.
    pub fn message(&self) -> (text: String)
        ensures
            text@ == match *self {
                ArgsError::NoParameters =>
                    "Tool run with no paramters. Please see help (-h) for parameter descriptions."@,
                ArgsError::MissingValue =>
                    "The last argument names a parameter and no value follows it."@,
            },
    {
        match self {
            ArgsError::NoParameters => {
                "Tool run with no paramters. Please see help (-h) for parameter descriptions."
                    .to_owned()
            },
            ArgsError::MissingValue => {
                "The last argument names a parameter and no value follows it.".to_owned()
            },
        }
    }
}

/// The files that a run reads and writes.
#[derive(Debug, PartialEq, Eq)]
pub struct ToolArgs {
    pub input1: String,
    pub input2: String,
    pub output_file: String,
}

/// The files of a run, as mathematics.
pub struct ToolArgsView {
    pub input1: Seq<char>,
    pub input2: Seq<char>,
    pub output_file: Seq<char>,
}

impl View for ToolArgs {
    type V = ToolArgsView;

    open spec fn view(&self) -> ToolArgsView {
        ToolArgsView {
            input1: self.input1@,
            input2: self.input2@,
            output_file: self.output_file@,
        }
    }
}

/// The parameter that a key names, the key being in lower case.
pub open spec fn parameter_named(key: Seq<char>) -> Option<Parameter> {
    if key == "-i1"@ || key == "--input1"@ {
        Some(Parameter::Input1)
    } else if key == "-i2"@ || key == "--input2"@ {
        Some(Parameter::Input2)
    } else if key == "-o"@ || key == "--output"@ {
        Some(Parameter::Output)
    } else {
        None
    }
}

/// The argument without quotation marks and apostrophes.
pub open spec fn unquoted(arg: Seq<char>) -> Seq<char> {
    replaced(replaced(arg, seq!['"'], Seq::empty()), seq!['\''], Seq::empty())
}

/// The key of an argument: what stands before its first equals sign, in
/// lower case.
pub open spec fn key_of(arg: Seq<char>) -> Seq<char> {
    lowercase(before(unquoted(arg), '='))
}

/// The argument holds an equals sign, and so a value of its own.
pub open spec fn has_inline_value(arg: Seq<char>) -> bool {
    position(unquoted(arg), '=') < unquoted(arg).len()
}

/// The value that an argument holds: what stands between its first equals
/// sign and its second, or its end.
pub open spec fn inline_value(arg: Seq<char>) -> Seq<char> {
    before(behind(unquoted(arg), '='), '=')
}

/// The value that goes with argument `i`.
pub open spec fn value_at(args: Seq<Seq<char>>, i: int) -> Seq<char> {
    if has_inline_value(args[i]) {
        inline_value(args[i])
    } else {
        args[i + 1]
    }
}

/// The last argument names a parameter and brings no value.
pub open spec fn value_missing(args: Seq<Seq<char>>) -> bool {
    &&& args.len() > 0
    &&& parameter_named(key_of(args.last())) is Some
    &&& !has_inline_value(args.last())
}

/// What the first `n` arguments say.
pub open spec fn parsed_upto(args: Seq<Seq<char>>, n: nat) -> ToolArgsView
    decreases n,
{
    if n == 0 {
        ToolArgsView { input1: Seq::empty(), input2: Seq::empty(), output_file: Seq::empty() }
    } else {
        let so_far = parsed_upto(args, (n - 1) as nat);
        match parameter_named(key_of(args[n - 1])) {
            Some(Parameter::Input1) => ToolArgsView { input1: value_at(args, n - 1), ..so_far },
            Some(Parameter::Input2) => ToolArgsView { input2: value_at(args, n - 1), ..so_far },
            Some(Parameter::Output) => ToolArgsView {
                output_file: value_at(args, n - 1),
                ..so_far
            },
            None => so_far,
        }
    }
}

/// The arguments as texts.
pub open spec fn texts(args: Seq<String>) -> Seq<Seq<char>> {
    Seq::new(args.len(), |i: int| args[i]@)
}

/// A file name as it is where it holds a path separator, and behind the
/// working directory where it holds none.
pub open spec fn resolved(path: Seq<char>, working_directory: Seq<char>, separator: char) -> Seq<
    char,
> {
    if occurs(path, seq![separator]) {
        path
    } else {
        working_directory + path
    }
}

/// Tells which parameter a key names. The key is expected in lower case.
pub fn parameter_of(key: &str) -> (parameter: Option<Parameter>)
    ensures
        parameter == parameter_named(key@),
{
    let key = chars_of(key);
    if same_text(&key, &chars_of("-i1")) || same_text(&key, &chars_of("--input1")) {
        Some(Parameter::Input1)
    } else if same_text(&key, &chars_of("-i2")) || same_text(&key, &chars_of("--input2")) {
        Some(Parameter::Input2)
    } else if same_text(&key, &chars_of("-o")) || same_text(&key, &chars_of("--output")) {
        Some(Parameter::Output)
    } else {
        None
    }
}

/// Drops the quotation marks and the apostrophes of an argument.
pub fn unquote(arg: &str) -> (bare: Vec<char>)
    ensures
        bare@ == unquoted(arg@),
{
    let nothing: Vec<char> = Vec::new();
    let mut quote: Vec<char> = Vec::new();
    quote.push('"');
    let mut apostrophe: Vec<char> = Vec::new();
    apostrophe.push('\'');
    assert(quote@ =~= seq!['"']);
    assert(apostrophe@ =~= seq!['\'']);
    let without_quotes = replace_all(&chars_of(arg), &quote, &nothing);
    replace_all(&without_quotes, &apostrophe, &nothing)
}

/// Reads the argument list.
pub fn parse_args(args: &Vec<String>) -> (parsed: Result<ToolArgs, ArgsError>)
    ensures
        match parsed {
            Ok(found) => args@.len() > 0 && !value_missing(texts(args@)) && found@ == parsed_upto(
                texts(args@),
                args@.len(),
            ),
            Err(ArgsError::NoParameters) => args@.len() == 0,
            Err(ArgsError::MissingValue) => value_missing(texts(args@)),
        },
{
    let n = args.len();
    if n == 0 {
        return Err(ArgsError::NoParameters);
    }
    let ghost all = texts(args@);
    let mut found = ToolArgs {
        input1: String::new(),
        input2: String::new(),
        output_file: String::new(),
    };
    let mut i: usize = 0;
    while i < n
        invariant
            n == args@.len(),
            n > 0,
            all == texts(args@),
            i <= n,
            i == n ==> !value_missing(all),
            found@ == parsed_upto(all, i as nat),
        decreases n - i,
    {
        let bare = unquote(args[i].as_str());
        let cut = position_of(&bare, '=');
        let key = string_of(&slice(&bare, 0, cut)).to_lowercase();
        assert(all[i as int] == args@[i as int]@);
        assert(bare@.subrange(0, cut as int) =~= before(bare@, '='));
        assert(key@ == key_of(all[i as int]));
        match parameter_of(key.as_str()) {
            None => {},
            Some(parameter) => {
                let value = if cut < bare.len() {
                    let rest = slice(&bare, cut + 1, bare.len());
                    let end = position_of(&rest, '=');
                    assert(rest@ =~= behind(bare@, '='));
                    assert(rest@.subrange(0, end as int) =~= before(rest@, '='));
                    string_of(&slice(&rest, 0, end))
                } else if i + 1 < n {
                    assert(all[i + 1] == args@[i + 1]@);
                    args[i + 1].clone()
                } else {
                    assert(all.last() == all[i as int]);
                    return Err(ArgsError::MissingValue);
                };
                assert(value@ == value_at(all, i as int));
                match parameter {
                    Parameter::Input1 => {
                        found.input1 = value;
                    },
                    Parameter::Input2 => {
                        found.input2 = value;
                    },
                    Parameter::Output => {
                        found.output_file = value;
                    },
                }
            },
        }
        assert(i + 1 == n ==> all.last() == all[i as int]);
        i = i + 1;
    }
    Ok(found)
}

/// Puts a file name behind the working directory unless it holds a path
/// separator already.
pub fn resolve(path: &str, working_directory: &str, separator: char) -> (full: String)
    ensures
        full@ == resolved(path@, working_directory@, separator),
{
    let name = chars_of(path);
    let mut sep: Vec<char> = Vec::new();
    sep.push(separator);
    assert(sep@ =~= seq![separator]);
    if contains(&name, &sep) {
        string_of(&name)
    } else {
        let mut full = chars_of(working_directory);
        append(&mut full, &name);
        string_of(&full)
    }
}

impl ToolArgs {
    /// Resolves the three file names against the working directory.
    pub fn resolve(&self, working_directory: &str, separator: char) -> (full: ToolArgs)
        ensures
            full@.input1 == resolved(self@.input1, working_directory@, separator),
            full@.input2 == resolved(self@.input2, working_directory@, separator),
            full@.output_file == resolved(self@.output_file, working_directory@, separator),
    {
        ToolArgs {
            input1: resolve(self.input1.as_str(), working_directory, separator),
            input2: resolve(self.input2.as_str(), working_directory, separator),
            output_file: resolve(self.output_file.as_str(), working_directory, separator),
        }
    }
}

} // verus!
