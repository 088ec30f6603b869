//! The pipeline over the entries of one walk: which of them are visited,
//! which of those are rendered, and the bundle that results.
use crate::config::{extension_admitted, Config};
use crate::entry::Entry;
use crate::paths::{extension_of, file_extension, relative_path, relative_to};
use crate::render::{rendered_block, write_file_content};
use crate::rules::{should_include_entry, traversed};
use ignore::gitignore::Gitignore;
use vstd::prelude::*;

verus! {

/// Whether the extension filter lets the file of an entry through: the entry
/// is a regular file and the include and exclude lists admit its extension.
pub open spec fn passes_filter(entry: Entry, config: Config) -> bool {
    entry.is_file && config.admits(extension_of(entry.path@))
}

/// Whether an entry is rendered: it passes the extension filter and its
/// content could be read as text.
pub open spec fn rendered(entry: Entry, config: Config) -> bool {
    passes_filter(entry, config) && entry.content is Some
}

/// What one entry adds to the output: its block, under its path relative to
/// the root, where it is rendered, and nothing where it is not.
pub open spec fn entry_block(entry: Entry, config: Config) -> Seq<char> {
    if rendered(entry, config) {
        rendered_block(
            relative_to(entry.path@, config.directory@),
            entry.content->0@,
            extension_of(entry.path@),
            config.format,
            config.line_numbers,
        )
    } else {
        Seq::empty()
    }
}

/// Whether the directory at index `j` is rejected by the rule matcher and all
/// entries between it and index `i` lie below it, so that a walk that has
/// come to index `i` is still inside the subtree it left out at `j`. The
/// entries stand in the order of a depth-first walk, a directory before what
/// it holds.
pub open spec fn inside_pruned(
    entries: Seq<Entry>,
    rules: Gitignore,
    config: Config,
    j: int,
    i: int,
) -> bool {
    &&& 0 <= j < i <= entries.len()
    &&& entries[j].is_dir
    &&& !traversed(entries[j], rules, config)
    &&& forall|k: int| j < k < i ==> (#[trigger] entries[k]).depth > entries[j].depth
}

/// Whether the entry at index `i` lies below the directory at index `j`, and
/// the rule matcher rejected that directory.
pub open spec fn below_pruned(
    entries: Seq<Entry>,
    rules: Gitignore,
    config: Config,
    j: int,
    i: int,
) -> bool {
    &&& i < entries.len()
    &&& inside_pruned(entries, rules, config, j, i)
    &&& entries[i].depth > entries[j].depth
}

/// Whether the walk visits the entry at index `i`: the rule matcher accepts
/// it, and it lies below no directory that the rule matcher rejected.
pub open spec fn visited(entries: Seq<Entry>, rules: Gitignore, config: Config, i: int) -> bool {
    &&& traversed(entries[i], rules, config)
    &&& forall|j: int| !below_pruned(entries, rules, config, j, i)
}

/// What the entry at index `i` adds to the output of the walk.
pub open spec fn contribution(
    entries: Seq<Entry>,
    rules: Gitignore,
    config: Config,
    i: int,
) -> Seq<char> {
    if visited(entries, rules, config, i) {
        entry_block(entries[i], config)
    } else {
        Seq::empty()
    }
}

/// What the entries add to the output, one element for each entry and in the
/// order of the walk.
pub open spec fn contributions(
    entries: Seq<Entry>,
    rules: Gitignore,
    config: Config,
) -> Seq<Seq<char>> {
    Seq::new(entries.len(), |i: int| contribution(entries, rules, config, i))
}

/// The output of the whole walk: the contributions one after the other.
pub open spec fn bundle(entries: Seq<Entry>, rules: Gitignore, config: Config) -> Seq<char> {
    contributions(entries, rules, config).flatten()
}

/// The extension filter: tells whether the content of an entry is wanted.
pub fn should_render(entry: &Entry, config: &Config) -> (r: bool)
    ensures
        r == passes_filter(*entry, *config),
{
    if !entry.is_file {
        return false;
    }
    let extension = file_extension(entry.path.as_str());
    extension_admitted(config, &extension)
}

/// Processes a single entry of the walk and writes its block to the writer,
/// if it has one.
pub fn process_file_entry(entry: &Entry, writer: &mut String, config: &Config)
    ensures
        final(writer)@ == old(writer)@ + entry_block(*entry, *config),
{
    if !entry.is_file {
        assert(writer@ + Seq::<char>::empty() == writer@);
        return ;
    }
    let extension = file_extension(entry.path.as_str());
    if !extension_admitted(config, &extension) {
        assert(writer@ + Seq::<char>::empty() == writer@);
        return ;
    }
    let relative = relative_path(entry.path.as_str(), config.directory.as_str());
    match &entry.content {
        Some(content) => {
            write_file_content(
                writer,
                relative.as_str(),
                content.as_str(),
                extension.as_str(),
                config,
            );
        },
        None => {
            assert(writer@ + Seq::<char>::empty() == writer@);
        },
    }
}

/// Processes the entries of a walk in order and writes the bundled content to
/// the writer. An entry that the rule matcher rejects is passed over, and
/// with a directory everything that lies below it.
pub fn process_directory(
    config: &Config,
    gitignore: &Gitignore,
    entries: &Vec<Entry>,
    writer: &mut String,
)
    ensures
        final(writer)@ == old(writer)@ + bundle(entries@, *gitignore, *config),
{
    let ghost before = writer@;
    let mut skip_below: Option<usize> = None;
    let mut i: usize = 0;
    let ghost all = contributions(entries@, *gitignore, *config);
    assert(all.take(0).flatten() == Seq::<char>::empty());
    assert(writer@ + Seq::<char>::empty() == writer@);
    while i < entries.len()
        invariant
            i <= entries.len(),
            all == contributions(entries@, *gitignore, *config),
            writer@ == before + all.take(i as int).flatten(),
            skip_below is None ==> forall|j: int|
                !inside_pruned(entries@, *gitignore, *config, j, i as int),
            skip_below matches Some(d) ==> {
                &&& exists|j: int|
                    inside_pruned(entries@, *gitignore, *config, j, i as int)
                        && entries[j].depth == d
                &&& forall|j: int|
                    inside_pruned(entries@, *gitignore, *config, j, i as int)
                        ==> entries[j].depth >= d
            },
        decreases entries.len() - i,
    {
        let entry = &entries[i];
        let ghost head = writer@;
        let ghost es = entries@;
        let ghost next = i as int + 1;
        let below = match skip_below {
            Some(d) => entry.depth > d,
            None => false,
        };
        if below {
            proof {
                let d = skip_below->0;
                let j0 = choose|j: int|
                    inside_pruned(es, *gitignore, *config, j, i as int) && es[j].depth == d;
                assert(inside_pruned(es, *gitignore, *config, j0, next));
                assert(below_pruned(es, *gitignore, *config, j0, i as int));
                assert forall|j: int|
                    inside_pruned(es, *gitignore, *config, j, next) implies es[j].depth >= d by {
                    if j < i {
                        assert(inside_pruned(es, *gitignore, *config, j, i as int));
                    }
                }
                assert(head + Seq::<char>::empty() == head);
            }
        } else {
            proof {
                assert forall|j: int| !below_pruned(es, *gitignore, *config, j, i as int) by {
                    if below_pruned(es, *gitignore, *config, j, i as int) {
                        assert(inside_pruned(es, *gitignore, *config, j, i as int));
                    }
                }
                assert forall|j: int| j < i implies !inside_pruned(
                    es,
                    *gitignore,
                    *config,
                    j,
                    next,
                ) by {
                    if inside_pruned(es, *gitignore, *config, j, next) {
                        assert(inside_pruned(es, *gitignore, *config, j, i as int));
                        assert(es[i as int].depth > es[j].depth);
                        assert(below_pruned(es, *gitignore, *config, j, i as int));
                    }
                }
            }
            if should_include_entry(entry, gitignore, config) {
                skip_below = None;
                process_file_entry(entry, writer, config);
            } else {
                if entry.is_dir {
                    skip_below = Some(entry.depth);
                    assert(inside_pruned(es, *gitignore, *config, i as int, next));
                } else {
                    skip_below = None;
                }
                assert(head + Seq::<char>::empty() == head);
            }
        }
        proof {
            let step = contribution(es, *gitignore, *config, i as int);
            let done = all.take(i as int);
            assert(writer@ == head + step);
            assert(all.take(next) == done.push(step));
            done.lemma_flatten_push(step);
            assert(before + done.flatten() + step == before + (done.flatten() + step));
        }
        i += 1;
    }
    assert(all.take(i as int) == all);
}

} // verus!
