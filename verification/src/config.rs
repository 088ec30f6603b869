//! The configuration of one bundling run.
use crate::paths::{extension_of, file_extension};
use vstd::prelude::*;
use vstd::string::StringExecFns;

verus! {

/// Layout of the bundled output.
///
/// - `Markdown`: a heading and a fenced code block per file.
/// - `Text`: a path line and the content between two rules.
/// - `Console`: laid out like `Text`; the default.
#[derive(Debug, Clone, Copy, PartialEq, Eq, Structural)]
pub enum Format {
    Markdown,
    Text,
    Console,
}

impl Default for Format {
    fn default() -> (format: Format)
        ensures
            format == Format::Console,
    {
        Format::Console
    }
}

/// Configuration options for the file bundling process.
#[derive(Debug, Clone)]
pub struct Config {
    /// The directory to process.
    pub directory: String,
    /// The output file path. Without one the bundle goes to standard output.
    pub output: Option<String>,
    /// File extensions to include in the output.
    pub includes: Vec<String>,
    /// File extensions to exclude from the output.
    pub exclude: Vec<String>,
    /// The layout of the output.
    pub format: Format,
    /// Whether to append the current date to the output file name.
    pub append_date: bool,
    /// Whether to append the current Git hash to the output file name.
    pub append_git_hash: bool,
    /// Whether to prefix each line of content with its number.
    pub line_numbers: bool,
    /// Whether to skip entries whose name begins with a dot.
    pub ignore_hidden: bool,
    /// Whether to honour the ignore rules of the root directory.
    pub respect_gitignore: bool,
}

/// Whether a list of extensions restricts anything. An empty list does not,
/// and neither does the list of one empty string, which is how an empty
/// command-line list arrives.
pub open spec fn filter_active(list: Seq<String>) -> bool {
    !(list.len() == 0 || (list.len() == 1 && list[0]@.len() == 0))
}

/// Whether `text` is one of the strings in `list`.
pub open spec fn lists(list: Seq<String>, text: Seq<char>) -> bool {
    exists|i: int| 0 <= i < list.len() && #[trigger] list[i]@ == text
}

impl Config {
    /// Whether the include list restricts the extensions that are bundled.
    pub open spec fn include_active(&self) -> bool {
        filter_active(self.includes@)
    }

    /// Whether a file with this extension passes the include and exclude
    /// lists: an active include list must hold it, and the exclude list must
    /// not.
    pub open spec fn admits(&self, extension: Seq<char>) -> bool {
        &&& self.include_active() ==> lists(self.includes@, extension)
        &&& !lists(self.exclude@, extension)
    }
}

/// Tells whether `text` occurs in `list`.
pub fn list_contains(list: &Vec<String>, text: &String) -> (found: bool)
    ensures
        found == lists(list@, text@),
{
    let mut i: usize = 0;
    while i < list.len()
        invariant
            i <= list.len(),
            forall|j: int| 0 <= j < i ==> list[j]@ != text@,
        decreases list.len() - i,
    {
        if list[i] == *text {
            return true;
        }
        i += 1;
    }
    false
}

/// Tells whether the include list of `config` is in force.
pub fn include_filter_active(config: &Config) -> (active: bool)
    ensures
        active == config.include_active(),
{
    !(config.includes.len() == 0 || (config.includes.len() == 1 && config.includes[0].as_str().is_empty()))
}

/// Tells whether the extension filter of `config` lets `extension` through.
pub fn extension_admitted(config: &Config, extension: &String) -> (admitted: bool)
    ensures
        admitted == config.admits(extension@),
{
    if include_filter_active(config) && !list_contains(&config.includes, extension) {
        return false;
    }
    !list_contains(&config.exclude, extension)
}

/// The format that a run uses: the chosen one, except that the console
/// format gives way to Markdown for an output path with the extension `md`,
/// and to plain text for one with the extension `txt`.
pub open spec fn effective_format(format: Format, output: Option<String>) -> Format {
    if format == Format::Console && output is Some {
        let extension = extension_of(output->0@);
        if extension == "md"@ {
            Format::Markdown
        } else if extension == "txt"@ {
            Format::Text
        } else {
            Format::Console
        }
    } else {
        format
    }
}

/// Settles the format of a run from the chosen format and the output path.
pub fn resolve_format(format: Format, output: &Option<String>) -> (resolved: Format)
    ensures
        resolved == effective_format(format, *output),
{
    match (format, output) {
        (Format::Console, Some(path)) => {
            let extension = file_extension(path.as_str());
            if extension == String::from_str("md") {
                Format::Markdown
            } else if extension == String::from_str("txt") {
                Format::Text
            } else {
                Format::Console
            }
        },
        _ => format,
    }
}

} // verus!
