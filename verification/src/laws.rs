//! What holds of every run: laws that relate the functions of the library,
//! each proved from the definitions that the contracts use.
use crate::config::{lists, Config, Format};
use crate::entry::Entry;
use crate::paths::{extension_of, relative_to};
use crate::pipeline::{below_pruned, bundle, contributions, entry_block, visited};
use crate::render::{content_lines, numbered_lines, rendered_block, NUMBER_WIDTH};
use crate::rules::{hidden, ignored, traversed};
use crate::text::{
    decimal, first_newline, lemma_decimal_holds_no_newline, lemma_first_newline,
    lemma_lines_hold_no_newline, lines_of, right_aligned,
};
use ignore::gitignore::Gitignore;
use vstd::prelude::*;
use vstd::seq_lib::lemma_flatten_concat;

verus! {

/// Where the part at index `i` begins in the concatenation of all parts.
pub open spec fn offset_of(parts: Seq<Seq<char>>, i: int) -> int {
    parts.take(i).flatten().len() as int
}

/// Every part stands whole in the concatenation, at its offset, and the
/// concatenation without it is that of the other parts.
pub proof fn lemma_part_of_flatten(parts: Seq<Seq<char>>, i: int)
    requires
        0 <= i < parts.len(),
    ensures
        offset_of(parts, i) + parts[i].len() <= parts.flatten().len(),
        parts.flatten().subrange(offset_of(parts, i), offset_of(parts, i) + parts[i].len())
            == parts[i],
        parts.flatten() == parts.take(i).flatten() + parts[i] + parts.skip(i + 1).flatten(),
{
    let front = parts.take(i);
    let back = parts.skip(i + 1);
    assert(parts == front.push(parts[i]) + back);
    lemma_flatten_concat(front.push(parts[i]), back);
    front.lemma_flatten_push(parts[i]);
    assert(parts.flatten() == front.flatten() + parts[i] + back.flatten());
}

/// The place of the path in a block: behind the heading marks in Markdown,
/// behind `./` otherwise.
pub open spec fn path_offset(format: Format) -> int {
    match format {
        Format::Markdown => 5,
        Format::Text | Format::Console => 2,
    }
}

/// Every block names its path: the path stands in the block at its place.
pub proof fn law_block_names_path(
    path: Seq<char>,
    content: Seq<char>,
    extension: Seq<char>,
    format: Format,
    line_numbers: bool,
)
    ensures
        ({
            let block = rendered_block(path, content, extension, format, line_numbers);
            let at = path_offset(format);
            &&& at + path.len() <= block.len()
            &&& block.subrange(at, at + path.len()) == path
        }),
{
    reveal_strlit("### `");
    reveal_strlit("./");
    let block = rendered_block(path, content, extension, format, line_numbers);
    let at = path_offset(format);
    assert(block.subrange(at, at + path.len()) == path);
}

/// A Markdown block holds, behind its heading, a fence whose language tag is
/// the extension, then the body, then the closing fence; and without line
/// numbers the body begins with the content, character for character.
pub proof fn law_markdown_block(
    path: Seq<char>,
    content: Seq<char>,
    extension: Seq<char>,
    line_numbers: bool,
)
    ensures
        ({
            let block = rendered_block(path, content, extension, Format::Markdown, line_numbers);
            let heading = "### `"@ + path + "`\n\n"@;
            let fence = "```"@ + extension + "\n"@;
            let body = content_lines(content, line_numbers);
            let fence_at = heading.len() as int;
            let body_at = fence_at + fence.len();
            &&& block == heading + fence + body + "```\n\n"@
            &&& block.subrange(fence_at, body_at) == fence
            &&& block.subrange(body_at, body_at + body.len()) == body
            &&& block.skip(body_at + body.len()) == "```\n\n"@
            &&& !line_numbers ==> block.subrange(body_at, body_at + content.len()) == content
        }),
{
    let block = rendered_block(path, content, extension, Format::Markdown, line_numbers);
    let heading = "### `"@ + path + "`\n\n"@;
    let fence = "```"@ + extension + "\n"@;
    let body = content_lines(content, line_numbers);
    let fence_at = heading.len() as int;
    let body_at = fence_at + fence.len();
    assert(block == heading + fence + body + "```\n\n"@);
    assert(block.subrange(fence_at, body_at) == fence);
    assert(block.subrange(body_at, body_at + body.len()) == body);
    assert(block.skip(body_at + body.len()) == "```\n\n"@);
    if !line_numbers {
        assert(body.subrange(0, content.len() as int) == content);
        assert(block.subrange(body_at, body_at + content.len()) == content);
    }
}

/// With line numbers the body holds one numbered line for every line of the
/// content, in order: the line at index `i` stands behind the number `i + 1`,
/// right-aligned in its field, and a bar; each numbered line is one line, its
/// only line feed being its last character; and each stands whole in the
/// body, at the offset that the lines before it give.
pub proof fn law_numbered_lines(content: Seq<char>)
    ensures
        ({
            let lines = lines_of(content);
            let body = content_lines(content, true);
            let parts = numbered_lines(lines);
            &&& parts.len() == lines.len()
            &&& body == parts.flatten()
            &&& forall|i: int|
                0 <= i < lines.len() ==> {
                    &&& #[trigger] parts[i] == right_aligned(
                        decimal((i + 1) as nat),
                        NUMBER_WIDTH as nat,
                    ) + " | "@ + lines[i] + "\n"@
                    &&& first_newline(parts[i]) == parts[i].len() - 1
                    &&& body.subrange(offset_of(parts, i), offset_of(parts, i) + parts[i].len())
                        == parts[i]
                }
        }),
{
    let lines = lines_of(content);
    let body = content_lines(content, true);
    let parts = numbered_lines(lines);
    lemma_lines_hold_no_newline(content);
    reveal_strlit(" | ");
    reveal_strlit("\n");
    assert forall|i: int| 0 <= i < lines.len() implies {
        &&& #[trigger] parts[i] == right_aligned(decimal((i + 1) as nat), NUMBER_WIDTH as nat)
            + " | "@ + lines[i] + "\n"@
        &&& first_newline(parts[i]) == parts[i].len() - 1
        &&& body.subrange(offset_of(parts, i), offset_of(parts, i) + parts[i].len()) == parts[i]
    } by {
        let number = decimal((i + 1) as nat);
        let field = right_aligned(number, NUMBER_WIDTH as nat);
        let part = parts[i];
        lemma_decimal_holds_no_newline((i + 1) as nat);
        assert(part == field + " | "@ + lines[i] + "\n"@);
        let last = part.len() - 1;
        assert(part[last] == '\n');
        assert forall|j: int| 0 <= j < last implies part[j] != '\n' by {
            if j < field.len() {
                if field.len() > number.len() {
                    let pad = field.len() - number.len();
                    if j >= pad {
                        assert(field[j] == number[j - pad]);
                    }
                } else {
                    assert(field[j] == number[j]);
                }
            } else if j < field.len() + 3 {
            } else {
                assert(part[j] == lines[i][j - field.len() - 3]);
            }
        }
        lemma_first_newline(part, last);
        lemma_part_of_flatten(parts, i);
    }
}

/// A file that the walk visits, whose extension the include and exclude lists
/// admit and whose content is text, has one block in the output: the output
/// is one contribution for each entry, in the order of the walk; that of this
/// file is its rendered block, which names the path of the file relative to
/// the root; and the block stands whole in the output, at the offset that the
/// entries before it give.
pub proof fn law_admitted_file_is_bundled(
    entries: Seq<Entry>,
    rules: Gitignore,
    config: Config,
    i: int,
)
    requires
        0 <= i < entries.len(),
        visited(entries, rules, config, i),
        entries[i].is_file,
        entries[i].content is Some,
        config.include_active() ==> lists(config.includes@, extension_of(entries[i].path@)),
        !lists(config.exclude@, extension_of(entries[i].path@)),
    ensures
        ({
            let path = relative_to(entries[i].path@, config.directory@);
            let block = rendered_block(
                path,
                entries[i].content->0@,
                extension_of(entries[i].path@),
                config.format,
                config.line_numbers,
            );
            let parts = contributions(entries, rules, config);
            let at = offset_of(parts, i);
            let name_at = at + path_offset(config.format);
            &&& parts.len() == entries.len()
            &&& parts[i] == block
            &&& bundle(entries, rules, config) == parts.flatten()
            &&& bundle(entries, rules, config).subrange(at, at + block.len()) == block
            &&& bundle(entries, rules, config).subrange(name_at, name_at + path.len()) == path
        }),
{
    let path = relative_to(entries[i].path@, config.directory@);
    let block = rendered_block(
        path,
        entries[i].content->0@,
        extension_of(entries[i].path@),
        config.format,
        config.line_numbers,
    );
    let parts = contributions(entries, rules, config);
    let at = offset_of(parts, i);
    let name_at = at + path_offset(config.format);
    let out = bundle(entries, rules, config);
    assert(parts[i] == block);
    lemma_part_of_flatten(parts, i);
    law_block_names_path(
        path,
        entries[i].content->0@,
        extension_of(entries[i].path@),
        config.format,
        config.line_numbers,
    );
    assert(out.subrange(at, at + block.len()).subrange(
        path_offset(config.format),
        path_offset(config.format) + path.len(),
    ) == out.subrange(name_at, name_at + path.len()));
}

/// Whether the entry at index `i` is left out of the output: its extension is
/// not admitted, or the ignore rules reject it, or the hidden-entry policy
/// does, or it lies below a directory that the rule matcher rejected.
pub open spec fn left_out(entries: Seq<Entry>, rules: Gitignore, config: Config, i: int) -> bool {
    ||| !config.admits(extension_of(entries[i].path@))
    ||| ignored(entries[i], rules, config)
    ||| hidden(entries[i], config)
    ||| exists|j: int| below_pruned(entries, rules, config, j, i)
}

/// An entry that is left out adds nothing to the output: its contribution is
/// empty, and the output is that of the other entries' contributions alone.
pub proof fn law_left_out_file_is_not_bundled(
    entries: Seq<Entry>,
    rules: Gitignore,
    config: Config,
    i: int,
)
    requires
        0 <= i < entries.len(),
        left_out(entries, rules, config, i),
    ensures
        ({
            let parts = contributions(entries, rules, config);
            &&& parts[i] == Seq::<char>::empty()
            &&& bundle(entries, rules, config) == parts.take(i).flatten() + parts.skip(
                i + 1,
            ).flatten()
        }),
{
    let parts = contributions(entries, rules, config);
    if exists|j: int| below_pruned(entries, rules, config, j, i) {
        let j = choose|j: int| below_pruned(entries, rules, config, j, i);
        assert(!visited(entries, rules, config, i));
    }
    assert(parts[i] == Seq::<char>::empty());
    lemma_part_of_flatten(parts, i);
    assert(parts.take(i).flatten() + parts[i] == parts.take(i).flatten());
}

/// Whether two lists hold the same strings.
pub open spec fn same_strings(a: Seq<String>, b: Seq<String>) -> bool {
    &&& a.len() == b.len()
    &&& forall|i: int| 0 <= i < a.len() ==> (#[trigger] a[i])@ == b[i]@
}

/// Whether two configurations agree on all that bears on the content of the
/// output. The output path and the two decorations of its name may differ.
pub open spec fn same_settings(a: Config, b: Config) -> bool {
    &&& a.directory@ == b.directory@
    &&& same_strings(a.includes@, b.includes@)
    &&& same_strings(a.exclude@, b.exclude@)
    &&& a.format == b.format
    &&& a.line_numbers == b.line_numbers
    &&& a.ignore_hidden == b.ignore_hidden
    &&& a.respect_gitignore == b.respect_gitignore
}

/// Whether two entries hold the same values.
pub open spec fn same_entry(a: Entry, b: Entry) -> bool {
    &&& a.path@ == b.path@
    &&& a.file_name@ == b.file_name@
    &&& a.depth == b.depth
    &&& a.is_dir == b.is_dir
    &&& a.is_file == b.is_file
    &&& a.content is Some <==> b.content is Some
    &&& a.content is Some ==> a.content->0@ == b.content->0@
}

/// Whether two walks met the same entries in the same order.
pub open spec fn same_entries(a: Seq<Entry>, b: Seq<Entry>) -> bool {
    &&& a.len() == b.len()
    &&& forall|i: int| 0 <= i < a.len() ==> same_entry(#[trigger] a[i], b[i])
}

proof fn lemma_same_lists(a: Seq<String>, b: Seq<String>, text: Seq<char>)
    requires
        same_strings(a, b),
    ensures
        lists(a, text) == lists(b, text),
{
    if lists(a, text) {
        let i = choose|i: int| 0 <= i < a.len() && #[trigger] a[i]@ == text;
        assert(b[i]@ == text);
    }
    if lists(b, text) {
        let i = choose|i: int| 0 <= i < b.len() && #[trigger] b[i]@ == text;
        assert(a[i]@ == text);
    }
}

proof fn lemma_same_pruning(
    a: Seq<Entry>,
    b: Seq<Entry>,
    rules: Gitignore,
    config_a: Config,
    config_b: Config,
    j: int,
    i: int,
)
    requires
        same_entries(a, b),
        same_settings(config_a, config_b),
        below_pruned(a, rules, config_a, j, i),
    ensures
        below_pruned(b, rules, config_b, j, i),
{
    assert(same_entry(a[j], b[j]));
    assert(same_entry(a[i], b[i]));
    assert forall|k: int| j < k < i implies (#[trigger] b[k]).depth > b[j].depth by {
        assert(same_entry(a[k], b[k]));
        assert(a[k].depth > a[j].depth);
    }
}

/// Two runs over the same entries, under the same rule set and under
/// configurations that agree on all that bears on the content, give the same
/// output, character for character. The output path and the decorations of
/// its name have no part in it.
pub proof fn law_same_input_same_output(
    entries_a: Seq<Entry>,
    entries_b: Seq<Entry>,
    rules: Gitignore,
    config_a: Config,
    config_b: Config,
)
    requires
        same_entries(entries_a, entries_b),
        same_settings(config_a, config_b),
    ensures
        bundle(entries_a, rules, config_a) == bundle(entries_b, rules, config_b),
{
    let parts_a = contributions(entries_a, rules, config_a);
    let parts_b = contributions(entries_b, rules, config_b);
    assert forall|i: int| 0 <= i < entries_a.len() implies parts_a[i] == parts_b[i] by {
        let a = entries_a[i];
        let b = entries_b[i];
        assert(same_entry(a, b));
        let extension = extension_of(a.path@);
        lemma_same_lists(config_a.includes@, config_b.includes@, extension);
        lemma_same_lists(config_a.exclude@, config_b.exclude@, extension);
        assert(config_a.include_active() == config_b.include_active()) by {
            if config_a.includes@.len() == 1 {
                assert(config_a.includes@[0]@ == config_b.includes@[0]@);
            }
        }
        assert(entry_block(a, config_a) == entry_block(b, config_b));
        assert(traversed(a, rules, config_a) == traversed(b, rules, config_b));
        if exists|j: int| below_pruned(entries_a, rules, config_a, j, i) {
            let j = choose|j: int| below_pruned(entries_a, rules, config_a, j, i);
            lemma_same_pruning(entries_a, entries_b, rules, config_a, config_b, j, i);
        }
        if exists|j: int| below_pruned(entries_b, rules, config_b, j, i) {
            let j = choose|j: int| below_pruned(entries_b, rules, config_b, j, i);
            assert(same_entries(entries_b, entries_a)) by {
                assert forall|k: int| 0 <= k < entries_b.len() implies same_entry(
                    #[trigger] entries_b[k],
                    entries_a[k],
                ) by {
                    assert(same_entry(entries_a[k], entries_b[k]));
                }
            }
            assert(same_settings(config_b, config_a)) by {
                assert forall|k: int| 0 <= k < config_b.includes@.len() implies (
                #[trigger] config_b.includes@[k])@ == config_a.includes@[k]@ by {
                    assert(config_a.includes@[k]@ == config_b.includes@[k]@);
                }
                assert forall|k: int| 0 <= k < config_b.exclude@.len() implies (
                #[trigger] config_b.exclude@[k])@ == config_a.exclude@[k]@ by {
                    assert(config_a.exclude@[k]@ == config_b.exclude@[k]@);
                }
            }
            lemma_same_pruning(entries_b, entries_a, rules, config_b, config_a, j, i);
        }
        assert(visited(entries_a, rules, config_a, i) == visited(entries_b, rules, config_b, i));
    }
    assert(parts_a == parts_b);
}

} // verus!
