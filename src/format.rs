//! Input and output formats, chosen from a file's extension.

use vstd::prelude::*;
use vstd::string::*;

verus! {

/// The extension of a file path, as `std::path::Path::extension` reads it.
pub uninterp spec fn extension_of(p: Seq<char>) -> Option<Seq<char>>;

/// Relies on `std::path::Path::extension`: the extension of a path depends
/// on the path's text alone. One that is not valid text counts as none.
#[verifier::external_body]
fn path_extension(p: &str) -> (r: Option<String>)
    ensures
        match r {
            Some(e) => extension_of(p@) == Some(e@),
            None => extension_of(p@) is None,
        },
{
    std::path::Path::new(p).extension().and_then(|e| e.to_str()).map(|e| e.to_string())
}

/// Whether `s` is the text of the literal `lit`.
fn is(s: &String, lit: &str) -> (r: bool)
    ensures
        r == (s@ == lit@),
{
    *s == String::from_str(lit)
}

/// Formats a chart description can be read from.
#[derive(Clone, Copy, Debug, PartialEq, Eq, Structural)]
pub enum InputFormat {
    Yaml,
    Lua,
}

pub open spec fn input_of_extension(e: Seq<char>) -> Option<InputFormat> {
    if e == "lua"@ {
        Some(InputFormat::Lua)
    } else if e == "yaml"@ || e == "yml"@ {
        Some(InputFormat::Yaml)
    } else {
        None
    }
}

impl InputFormat {
    /// The format an extension names: `lua`, or `yaml` and `yml`.
    pub fn from_extension(e: &String) -> (r: Option<InputFormat>)
        ensures
            r == input_of_extension(e@),
    {
        if is(e, "lua") {
            Some(InputFormat::Lua)
        } else if is(e, "yaml") || is(e, "yml") {
            Some(InputFormat::Yaml)
        } else {
            None
        }
    }

    /// The format named by the extension of the path `p`, if any.
    pub fn from_path(p: &str) -> (r: Option<InputFormat>)
        ensures
            match extension_of(p@) {
                Some(e) => r == input_of_extension(e),
                None => r is None,
            },
    {
        match path_extension(p) {
            Some(e) => InputFormat::from_extension(&e),
            None => None,
        }
    }
}

/// Formats a chart can be written in.
#[derive(Clone, Copy, Debug, PartialEq, Eq, Structural)]
pub enum OutputFormat {
    Svg,
    Png,
    Pdf,
}

pub open spec fn output_of_extension(e: Seq<char>) -> Option<OutputFormat> {
    if e == "svg"@ {
        Some(OutputFormat::Svg)
    } else if e == "png"@ {
        Some(OutputFormat::Png)
    } else if e == "pdf"@ {
        Some(OutputFormat::Pdf)
    } else {
        None
    }
}

/// The file extension of each output format.
pub open spec fn extension_spec(f: OutputFormat) -> Seq<char> {
    match f {
        OutputFormat::Svg => "svg"@,
        OutputFormat::Png => "png"@,
        OutputFormat::Pdf => "pdf"@,
    }
}

impl OutputFormat {
    /// The file extension of the format.
    pub fn extension(&self) -> (r: &'static str)
        ensures
            r@ == extension_spec(*self),
    {
        match self {
            OutputFormat::Svg => "svg",
            OutputFormat::Png => "png",
            OutputFormat::Pdf => "pdf",
        }
    }

    /// The format an extension names.
    pub fn from_extension(e: &String) -> (r: Option<OutputFormat>)
        ensures
            r == output_of_extension(e@),
    {
        if is(e, "svg") {
            Some(OutputFormat::Svg)
        } else if is(e, "png") {
            Some(OutputFormat::Png)
        } else if is(e, "pdf") {
            Some(OutputFormat::Pdf)
        } else {
            None
        }
    }

    /// The format named by the extension of the path `p`, if any.
    pub fn from_path(p: &str) -> (r: Option<OutputFormat>)
        ensures
            match extension_of(p@) {
                Some(e) => r == output_of_extension(e),
                None => r is None,
            },
    {
        match path_extension(p) {
            Some(e) => OutputFormat::from_extension(&e),
            None => None,
        }
    }
}

} // verus!
