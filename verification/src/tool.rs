//! The tool as its users see it: its name, what it does, the parameters it
//! takes and an example of its use.

use vstd::prelude::*;
use vstd::string::StringExecFns;
use crate::text::{append, chars_of, contains, occurs, replace_all, replaced, string_of};

verus! {

/// The name of the executable as the example shows it: the path of the
/// running executable without the working directory, without dots and
/// separators, and with `.exe` at its end where the path holds that.
pub open spec fn short_exe(current_dir: Seq<char>, current_exe: Seq<char>, separator: char) -> Seq<
    char,
> {
    let bare = replaced(
        replaced(
            replaced(replaced(current_exe, current_dir, Seq::empty()), ".exe"@, Seq::empty()),
            "."@,
            Seq::empty(),
        ),
        seq![separator],
        Seq::empty(),
    );
    if occurs(current_exe, ".exe"@) {
        bare + ".exe"@
    } else {
        bare
    }
}

/// The example of use: a command line in which every `*` has given way to
/// the path separator of the platform.
pub open spec fn usage_text(current_dir: Seq<char>, current_exe: Seq<char>, separator: char) -> Seq<
    char,
> {
    replaced(
        ">>.*"@ + short_exe(current_dir, current_exe, separator) + " -r="@ + "Or"@
            + " --wd=\"*path*to*data*\" --input1='in1.dep' --input2='in2.dep' -o=output.dep"@,
        "*"@,
        seq![separator],
    )
}

/// The list of parameters, as the help shows it.
pub open spec fn parameters_text() -> Seq<char> {
    "--input1       Input raster file."@ + "--input2       Input raster file.\n"@
        + "-o, --output   Output raster file.\n"@
}

/// The texts of the tool, as mathematics.
pub struct OrView {
    pub name: Seq<char>,
    pub description: Seq<char>,
    pub parameters: Seq<char>,
    pub example_usage: Seq<char>,
}

/// The logical OR of two raster images, as a tool with a name and a help
/// text.
#[derive(Debug, PartialEq, Eq)]
pub struct Or {
    name: String,
    description: String,
    parameters: String,
    example_usage: String,
}

impl View for Or {
    type V = OrView;

    closed spec fn view(&self) -> OrView {
        OrView {
            name: self.name@,
            description: self.description@,
            parameters: self.parameters@,
            example_usage: self.example_usage@,
        }
    }
}

impl Or {
    /// The tool, with an example of use made for the place it runs at: the
    /// working directory, the path of the running executable and the path
    /// separator of the platform.
    pub fn new(current_dir: &str, current_exe: &str, separator: char) -> (tool: Or)
        ensures
            tool@.name == "Or"@,
            tool@.description == "Performs a logical OR operator on two Boolean raster images."@,
            tool@.parameters == parameters_text(),
            tool@.example_usage == usage_text(current_dir@, current_exe@, separator),
    {
        let name = "Or".to_owned();
        let description = "Performs a logical OR operator on two Boolean raster images.".to_owned();
        let mut parameters = "--input1       Input raster file.".to_owned();
        parameters.append("--input2       Input raster file.\n");
        parameters.append("-o, --output   Output raster file.\n");

        let nothing: Vec<char> = Vec::new();
        let mut sep: Vec<char> = Vec::new();
        sep.push(separator);
        assert(sep@ =~= seq![separator]);
        let dir = chars_of(current_dir);
        let exe = chars_of(current_exe);
        let dot_exe = chars_of(".exe");
        let without_dir = replace_all(&exe, &dir, &nothing);
        let without_exe = replace_all(&without_dir, &dot_exe, &nothing);
        let without_dots = replace_all(&without_exe, &chars_of("."), &nothing);
        let mut short = replace_all(&without_dots, &sep, &nothing);
        if contains(&exe, &dot_exe) {
            append(&mut short, &dot_exe);
        }
        let mut line = chars_of(">>.*");
        append(&mut line, &short);
        append(&mut line, &chars_of(" -r="));
        append(&mut line, &chars_of(name.as_str()));
        append(
            &mut line,
            &chars_of(
                " --wd=\"*path*to*data*\" --input1='in1.dep' --input2='in2.dep' -o=output.dep",
            ),
        );
        let usage = replace_all(&line, &chars_of("*"), &sep);
        Or { name, description, parameters, example_usage: string_of(&usage) }
    }

    /// The name of the tool.
    pub fn get_tool_name(&self) -> (name: String)
        ensures
            name@ == self@.name,
    {
        self.name.clone()
    }

    /// What the tool does, in a sentence.
    pub fn get_tool_description(&self) -> (description: String)
        ensures
            description@ == self@.description,
    {
        self.description.clone()
    }

    /// The parameters that the tool takes.
    pub fn get_tool_parameters(&self) -> (parameters: String)
        ensures
            parameters@ == self@.parameters,
    {
        self.parameters.clone()
    }

    /// An example of the tool's use.
    pub fn get_example_usage(&self) -> (usage: String)
        ensures
            usage@ == self@.example_usage,
    {
        self.example_usage.clone()
    }
}

} // verus!
