//! The pipeline driver: one run from the configuration and the entries of
//! the walk to the output path and the bundled text.
use crate::config::Config;
use crate::decorate::{append_date_and_git_hash, decorated, known_head, HeadLookup, RunError};
use crate::entry::Entry;
use crate::pipeline::{bundle, process_directory};
use ignore::gitignore::Gitignore;
use vstd::prelude::*;

verus! {

/// What a run produces.
#[derive(Debug, Clone)]
pub struct Bundle {
    /// Where the text goes: the decorated output path, or none for standard
    /// output.
    pub output: Option<String>,
    /// What the lookup of HEAD found, where it was made.
    pub head: Option<HeadLookup>,
    /// The bundled text.
    pub text: String,
}

/// Whether a run asks for a decorated output name.
pub open spec fn decorates(config: Config) -> bool {
    config.output is Some && (config.append_date || config.append_git_hash)
}

/// Whether a run looks up HEAD: it has an output path to decorate and is
/// asked for the commit id.
pub open spec fn looks_up_head(config: Config) -> bool {
    config.output is Some && config.append_git_hash
}

/// Whether `resolved` is an output path that a run under `config` may end
/// with, given what the lookup of HEAD found: without a configured path,
/// none; the configured path itself where no decoration is asked for; and
/// else the configured path decorated with some date and with the commit
/// that was found.
pub open spec fn resolves_output(
    config: Config,
    found: Option<HeadLookup>,
    resolved: Option<String>,
) -> bool {
    match config.output {
        None => resolved is None,
        Some(path) => resolved is Some && if decorates(config) {
            exists|date: Seq<char>|
                resolved->0@ == #[trigger] decorated(path@, config, date, known_head(found))
        } else {
            resolved->0@ == path@
        },
    }
}

/// Runs the file bundling process on the entries of one walk: resolves the
/// output path, then bundles the entries in order.
///
/// The run fails only where it looks up HEAD and finds a repository whose
/// HEAD cannot be read. A run that is asked for no commit id, or has no
/// output path, succeeds.
pub fn run(config: Config, gitignore: &Gitignore, entries: &Vec<Entry>) -> (r: Result<
    Bundle,
    RunError,
>)
    ensures
        r matches Ok(b) ==> {
            &&& b.text@ == bundle(entries@, *gitignore, config)
            &&& b.head is Some <==> looks_up_head(config)
            &&& !(b.head matches Some(head) && head is Unreadable)
            &&& resolves_output(config, b.head, b.output)
        },
        r matches Err(e) ==> e == RunError::HeadUnreadable && looks_up_head(config),
        !looks_up_head(config) ==> r is Ok,
{
    let mut output_path = config.output.clone();
    assert(output_path == config.output);
    let mut head: Option<HeadLookup> = None;
    if config.append_date || config.append_git_hash {
        match append_date_and_git_hash(&mut output_path, &config) {
            Err(e) => {
                return Err(e);
            },
            Ok(found) => {
                head = found;
            },
        }
    }
    let mut text = String::new();
    process_directory(&config, gitignore, entries, &mut text);
    assert(Seq::<char>::empty() + bundle(entries@, *gitignore, config) == bundle(
        entries@,
        *gitignore,
        config,
    ));
    Ok(Bundle { output: output_path, head, text })
}

} // verus!
