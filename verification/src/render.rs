//! The content renderer: one formatted block per file.
use crate::config::{Config, Format};
use crate::text::{decimal, lines_of, push_right_aligned, right_aligned, split_lines, views};
use vstd::prelude::*;

verus! {

/// Width of the field that holds a line number.
pub const NUMBER_WIDTH: usize = 4;

/// One numbered line: the number right-aligned in its field, a bar, the line
/// and a line feed.
pub open spec fn numbered_line(number: nat, line: Seq<char>) -> Seq<char> {
    right_aligned(decimal(number), NUMBER_WIDTH as nat) + " | "@ + line + "\n"@
}

/// The given lines, each behind its number, counted from one.
pub open spec fn numbered_lines(lines: Seq<Seq<char>>) -> Seq<Seq<char>> {
    Seq::new(lines.len(), |i: int| numbered_line((i + 1) as nat, lines[i]))
}

/// The numbered lines one after the other.
pub open spec fn numbered(lines: Seq<Seq<char>>) -> Seq<char> {
    numbered_lines(lines).flatten()
}

/// The body of a block: with line numbers every line of the content behind
/// its number, without them the content as it is and one line feed.
pub open spec fn content_lines(content: Seq<char>, line_numbers: bool) -> Seq<char> {
    if line_numbers {
        numbered(lines_of(content))
    } else {
        content + "\n"@
    }
}

/// What opens a block: in Markdown a heading with the path in backticks, a
/// blank line and a fence tagged with the extension; otherwise the path behind
/// `./` and a rule of three dashes.
pub open spec fn block_head(path: Seq<char>, extension: Seq<char>, format: Format) -> Seq<char> {
    match format {
        Format::Markdown => "### `"@ + path + "`\n\n"@ + "```"@ + extension + "\n"@,
        Format::Text | Format::Console => "./"@ + path + "\n---\n"@,
    }
}

/// What closes a block: in Markdown the closing fence and a blank line,
/// otherwise a rule of three dashes.
pub open spec fn block_tail(format: Format) -> Seq<char> {
    match format {
        Format::Markdown => "```\n\n"@,
        Format::Text | Format::Console => "---\n"@,
    }
}

/// The block rendered for one file.
pub open spec fn rendered_block(
    path: Seq<char>,
    content: Seq<char>,
    extension: Seq<char>,
    format: Format,
    line_numbers: bool,
) -> Seq<char> {
    block_head(path, extension, format) + content_lines(content, line_numbers) + block_tail(format)
}

/// Writes content line by line to the writer, optionally with line numbers.
pub fn write_content_lines(writer: &mut String, content: &str, line_numbers: bool)
    ensures
        final(writer)@ == old(writer)@ + content_lines(content@, line_numbers),
{
    let ghost before = writer@;
    if line_numbers {
        let lines = split_lines(content);
        let ghost all = numbered_lines(views(lines@));
        let mut i: usize = 0;
        assert(all.take(0).flatten() == Seq::<char>::empty());
        assert(before + Seq::<char>::empty() == before);
        while i < lines.len()
            invariant
                i <= lines.len(),
                all == numbered_lines(views(lines@)),
                writer@ == before + all.take(i as int).flatten(),
            decreases lines.len() - i,
        {
            let ghost head = writer@;
            push_right_aligned(writer, i + 1, NUMBER_WIDTH);
            writer.append(" | ");
            writer.append(lines[i].as_str());
            writer.append("\n");
            proof {
                let done = all.take(i as int);
                assert(writer@ == head + all[i as int]);
                assert(all.take(i + 1) == done.push(all[i as int]));
                done.lemma_flatten_push(all[i as int]);
                assert(before + done.flatten() + all[i as int] == before + (done.flatten()
                    + all[i as int]));
            }
            i += 1;
        }
        assert(all.take(i as int) == all);
    } else {
        writer.append(content);
        writer.append("\n");
    }
}

/// Writes the block of a single file to the writer in the format that the
/// configuration asks for.
pub fn write_file_content(
    writer: &mut String,
    path: &str,
    content: &str,
    extension: &str,
    config: &Config,
)
    ensures
        final(writer)@ == old(writer)@ + rendered_block(
            path@,
            content@,
            extension@,
            config.format,
            config.line_numbers,
        ),
{
    let ghost before = writer@;
    let ghost body = content_lines(content@, config.line_numbers);
    match config.format {
        Format::Markdown => {
            writer.append("### `");
            writer.append(path);
            writer.append("`\n\n");
            writer.append("```");
            writer.append(extension);
            writer.append("\n");
            write_content_lines(writer, content, config.line_numbers);
            writer.append("```\n\n");
        },
        Format::Text | Format::Console => {
            writer.append("./");
            writer.append(path);
            writer.append("\n---\n");
            write_content_lines(writer, content, config.line_numbers);
            writer.append("---\n");
        },
    }
    assert(writer@ == before + (block_head(path@, extension@, config.format) + body + block_tail(
        config.format,
    )));
}

} // verus!
