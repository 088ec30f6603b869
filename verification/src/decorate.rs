//! Decoration of the output file name: the date and the short commit id that
//! are put in front of its extension.
use crate::config::Config;
use crate::paths::{after_last, file_name_of, find_after_last, lemma_after_last};
use git2::{Oid, Reference, Repository};
use vstd::prelude::*;
use vstd::string::StringExecFns;

verus! {

/// How many characters of a commit id go into a file name.
pub const SHORT_ID_LENGTH: usize = 7;

/// A repository opened by the `git2` crate.
#[verifier::external_type_specification]
#[verifier::external_body]
pub struct ExRepository(Repository);

/// A reference of a repository, as the `git2` crate hands it out.
#[verifier::external_type_specification]
#[verifier::external_body]
pub struct ExReference<'repo>(Reference<'repo>);

/// An object id of the `git2` crate.
#[verifier::external_type_specification]
#[verifier::external_body]
pub struct ExOid(Oid);

/// The error type of the `git2` crate.
#[verifier::external_type_specification]
#[verifier::external_body]
pub struct ExGitError(git2::Error);

/// Why a run failed as a whole.
#[derive(Debug, Clone, Copy, PartialEq, Eq, Structural)]
pub enum RunError {
    /// The directory is a repository, but its HEAD could not be read.
    HeadUnreadable,
}

impl RunError {
    /// The message that goes with the error.
    pub fn message(&self) -> (text: String)
        ensures
            text@ == "Failed to get repository HEAD"@,
    {
        match self {
            RunError::HeadUnreadable => String::from_str("Failed to get repository HEAD"),
        }
    }
}

/// What was found when the HEAD of a directory was looked up.
#[derive(Debug, Clone, PartialEq, Eq)]
pub enum HeadLookup {
    /// The directory is no repository.
    NoRepository,
    /// The directory is a repository whose HEAD could not be read.
    Unreadable,
    /// HEAD names no commit directly.
    NoTarget,
    /// The id of the commit that HEAD names, in hexadecimal.
    Commit(String),
}

/// Today's date in the local time zone as `chrono` formats it with `%Y%m%d`:
/// `Local::now`, then `format` and `to_string`. The result depends on the
/// clock and the time zone, so nothing is claimed about it. `chrono` panics
/// where the system clock stands before 1970.
#[verifier::external_body]
fn local_date_stamp() -> (stamp: String) {
    chrono::Local::now().format("%Y%m%d").to_string()
}

/// `Repository::open` on the directory. Whether it succeeds depends on what
/// is on disk, so nothing is claimed about the result.
#[verifier::external_body]
fn open_repository(directory: &str) -> (opened: Result<Repository, git2::Error>) {
    Repository::open(directory)
}

/// `Repository::head`: the reference that HEAD resolves to, or the error of
/// the lookup. Nothing is claimed about the result.
#[verifier::external_body]
fn repository_head(repository: &Repository) -> (head: Result<Reference<'_>, git2::Error>) {
    repository.head()
}

/// `Reference::target`: the object id that a direct reference names, none
/// for a symbolic one. Nothing is claimed about the result.
#[verifier::external_body]
fn reference_target(reference: &Reference<'_>) -> (target: Option<Oid>) {
    reference.target()
}

/// The hexadecimal text of an object id, through its `Display` impl. Nothing
/// is claimed about the text.
#[verifier::external_body]
fn oid_text(oid: &Oid) -> (text: String) {
    oid.to_string()
}

/// The place in a path where a decoration goes: in front of the last dot of
/// the file name, and at the end where the file name has no dot.
pub open spec fn decoration_point(path: Seq<char>) -> nat {
    let dot = after_last(file_name_of(path), '.');
    if dot == 0 {
        path.len()
    } else {
        (after_last(path, '/') + dot - 1) as nat
    }
}

/// The first characters of a commit id, as many as a file name gets, or all
/// of a shorter one.
pub open spec fn short_id(id: Seq<char>) -> Seq<char> {
    if id.len() <= SHORT_ID_LENGTH {
        id
    } else {
        id.take(SHORT_ID_LENGTH as int)
    }
}

/// What the date adds to the file name: an underscore and the date where the
/// date is asked for.
pub open spec fn date_token(config: Config, date: Seq<char>) -> Seq<char> {
    if config.append_date {
        "_"@ + date
    } else {
        Seq::empty()
    }
}

/// What the commit adds to the file name: an underscore and the short id
/// where the hash is asked for and HEAD names a commit.
pub open spec fn commit_token(config: Config, head: HeadLookup) -> Seq<char> {
    if config.append_git_hash && head is Commit {
        "_"@ + short_id(head->Commit_0@)
    } else {
        Seq::empty()
    }
}

/// The decorated path: the date token and the commit token, in this order,
/// in front of the extension.
pub open spec fn decorated(
    path: Seq<char>,
    config: Config,
    date: Seq<char>,
    head: HeadLookup,
) -> Seq<char> {
    let cut = decoration_point(path) as int;
    path.take(cut) + date_token(config, date) + commit_token(config, head) + path.skip(cut)
}

/// Whether decorating fails: the hash is asked for and the HEAD of the
/// repository could not be read.
pub open spec fn decoration_fails(config: Config, head: HeadLookup) -> bool {
    config.append_git_hash && head is Unreadable
}

/// Looks up the commit that the HEAD of the repository in `directory` names,
/// and tells the outcomes of the lookup apart: no repository, a HEAD that
/// cannot be read, a HEAD without a commit, or the id of its commit. Which of
/// them comes back rests on what is on disk, so nothing is promised of it;
/// what follows from each outcome is stated by `decorate`.
fn read_head(directory: &str) -> (head: HeadLookup) {
    match open_repository(directory) {
        Err(_) => HeadLookup::NoRepository,
        Ok(repository) => match repository_head(&repository) {
            Err(_) => HeadLookup::Unreadable,
            Ok(reference) => match reference_target(&reference) {
                None => HeadLookup::NoTarget,
                Some(oid) => HeadLookup::Commit(oid_text(&oid)),
            },
        },
    }
}

/// Decorates an output path with the date and with what the lookup of HEAD
/// found, as far as the configuration asks for them.
pub fn decorate(path: &str, config: &Config, date: &str, head: &HeadLookup) -> (r: Result<
    String,
    RunError,
>)
    ensures
        decoration_fails(*config, *head) ==> r == Err::<String, RunError>(RunError::HeadUnreadable),
        !decoration_fails(*config, *head) ==> r is Ok && r->Ok_0@ == decorated(
            path@,
            *config,
            date@,
            *head,
        ),
{
    let len = path.unicode_len();
    let start = find_after_last(path, '/');
    proof {
        lemma_after_last(path@, '/');
    }
    let name = path.substring_char(start, len);
    let dot = find_after_last(name, '.');
    proof {
        lemma_after_last(name@, '.');
    }
    let cut = if dot == 0 {
        len
    } else {
        start + dot - 1
    };
    let mut out = String::from_str(path.substring_char(0, cut));
    if config.append_date {
        out.append("_");
        out.append(date);
    }
    assert(out@ == path@.take(cut as int) + date_token(*config, date@));
    if config.append_git_hash {
        match head {
            HeadLookup::Unreadable => {
                return Err(RunError::HeadUnreadable);
            },
            HeadLookup::Commit(id) => {
                let id_len = id.as_str().unicode_len();
                let kept = if id_len <= SHORT_ID_LENGTH {
                    id_len
                } else {
                    SHORT_ID_LENGTH
                };
                out.append("_");
                out.append(id.as_str().substring_char(0, kept));
                assert(id@.subrange(0, id_len as int) == id@);
            },
            _ => {},
        }
    }
    assert(out@ == path@.take(cut as int) + date_token(*config, date@) + commit_token(
        *config,
        *head,
    ));
    out.append(path.substring_char(cut, len));
    Ok(out)
}

/// What a lookup that may not have been made stands for in a decoration:
/// where HEAD was not looked up, no commit is known.
pub open spec fn known_head(found: Option<HeadLookup>) -> HeadLookup {
    match found {
        Some(head) => head,
        None => HeadLookup::NoRepository,
    }
}

/// Appends the current date and the commit id of the directory to the output
/// file name, as far as the configuration asks for them, and hands back what
/// the lookup of HEAD found.
///
/// Without an output path there is nothing to decorate. The date is read only
/// where it is asked for. HEAD is looked up only where the commit id is asked
/// for; where it cannot be read the call fails and the path stays as it was.
pub fn append_date_and_git_hash(output_path: &mut Option<String>, config: &Config) -> (r: Result<
    Option<HeadLookup>,
    RunError,
>)
    ensures
        *old(output_path) is None ==> r == Ok::<Option<HeadLookup>, RunError>(None)
            && *final(output_path) == *old(output_path),
        !config.append_git_hash ==> r == Ok::<Option<HeadLookup>, RunError>(None),
        r is Err ==> r == Err::<Option<HeadLookup>, RunError>(RunError::HeadUnreadable)
            && config.append_git_hash && *old(output_path) is Some && *final(output_path) == *old(
            output_path,
        ),
        *old(output_path) is Some && config.append_git_hash && r is Ok ==> r->Ok_0 is Some,
        *old(output_path) is Some && r is Ok ==> *final(output_path) is Some
            && !decoration_fails(*config, known_head(r->Ok_0)) && exists|date: Seq<char>|
            (*final(output_path))->0@ == #[trigger] decorated(
                (*old(output_path))->0@,
                *config,
                date,
                known_head(r->Ok_0),
            ),
{
    let (decorated_path, found) = match output_path {
        None => {
            return Ok(None);
        },
        Some(path) => {
            let date = if config.append_date {
                local_date_stamp()
            } else {
                String::new()
            };
            let found = if config.append_git_hash {
                Some(read_head(config.directory.as_str()))
            } else {
                None
            };
            let decorated_path = match &found {
                Some(head) => decorate(path.as_str(), config, date.as_str(), head),
                None => decorate(path.as_str(), config, date.as_str(), &HeadLookup::NoRepository),
            };
            match decorated_path {
                Err(e) => {
                    return Err(e);
                },
                Ok(p) => (p, found),
            }
        },
    };
    *output_path = Some(decorated_path);
    Ok(found)
}

} // verus!
