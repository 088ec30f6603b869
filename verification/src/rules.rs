//! The rule matcher: which entries of the walk are traversed at all.
use crate::config::Config;
use crate::entry::Entry;
use crate::paths::{has_leading_dot, starts_with_dot};
use ignore::gitignore::Gitignore;
use vstd::prelude::*;

verus! {

/// The matcher of the `ignore` crate for the patterns of one ignore file.
#[verifier::external_type_specification]
#[verifier::external_body]
pub struct ExGitignore(Gitignore);

/// The paths that a rule set ignores, each with the flag that says whether it
/// names a directory.
pub uninterp spec fn ignored_paths(rules: Gitignore) -> Set<(Seq<char>, bool)>;

/// Asks `Gitignore::matched` for the verdict on a path and reports whether it
/// is `Match::Ignore`. The verdict rests on the rule set, the path and the
/// directory flag alone, so the answer is membership in the set of paths that
/// the rule set ignores; nothing is claimed about which paths those are.
#[verifier::external_body]
fn rules_ignore(rules: &Gitignore, path: &str, is_dir: bool) -> (ignored: bool)
    ensures
        ignored == ignored_paths(*rules).contains((path@, is_dir)),
{
    rules.matched(path, is_dir).is_ignore()
}

/// Whether the hidden-entry policy rejects an entry: the policy is on and the
/// name of the entry begins with a dot.
pub open spec fn hidden(entry: Entry, config: Config) -> bool {
    config.ignore_hidden && starts_with_dot(entry.file_name@)
}

/// Whether the ignore rules reject an entry: they are respected and the rule
/// set ignores the path of the entry.
pub open spec fn ignored(entry: Entry, rules: Gitignore, config: Config) -> bool {
    config.respect_gitignore && ignored_paths(rules).contains((entry.path@, entry.is_dir))
}

/// Whether the walk traverses an entry: neither check rejects it.
pub open spec fn traversed(entry: Entry, rules: Gitignore, config: Config) -> bool {
    !hidden(entry, config) && !ignored(entry, rules, config)
}

/// Checks if a directory entry is hidden based on the configuration.
pub fn is_hidden(entry: &Entry, config: &Config) -> (r: bool)
    ensures
        r == hidden(*entry, *config),
{
    config.ignore_hidden && has_leading_dot(entry.file_name.as_str())
}

/// Checks if a directory entry is ignored by the ignore rules.
pub fn is_ignored(entry: &Entry, gitignore: &Gitignore, config: &Config) -> (r: bool)
    ensures
        r == ignored(*entry, *gitignore, *config),
{
    if !config.respect_gitignore {
        return false;
    }
    rules_ignore(gitignore, entry.path.as_str(), entry.is_dir)
}

/// Determines if a directory entry should be traversed: a directory that is
/// not is left out together with everything below it.
pub fn should_include_entry(entry: &Entry, gitignore: &Gitignore, config: &Config) -> (r: bool)
    ensures
        r == traversed(*entry, *gitignore, *config),
{
    !is_hidden(entry, config) && !is_ignored(entry, gitignore, config)
}

} // verus!
