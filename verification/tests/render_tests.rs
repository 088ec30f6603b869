use codebase_to_prompt::config::{Config, Format};
use codebase_to_prompt::render::{write_content_lines, write_file_content};
use codebase_to_prompt::text::{push_decimal, push_right_aligned, split_lines};

fn config_with(format: Format, line_numbers: bool) -> Config {
    Config {
        directory: String::from("root"),
        output: None,
        includes: vec![],
        exclude: vec![],
        format,
        append_date: false,
        append_git_hash: false,
        line_numbers,
        ignore_hidden: false,
        respect_gitignore: false,
    }
}

fn lines(content: &str) -> Vec<String> {
    split_lines(content)
}

fn std_lines(content: &str) -> Vec<String> {
    content.lines().map(|l| l.to_string()).collect()
}

#[test]
fn split_lines_of_empty_text_is_empty() {
    assert_eq!(lines(""), Vec::<String>::new());
}

#[test]
fn split_lines_takes_final_terminator_as_optional() {
    assert_eq!(lines("a\nb"), vec!["a".to_string(), "b".to_string()]);
    assert_eq!(lines("a\nb\n"), vec!["a".to_string(), "b".to_string()]);
}

#[test]
fn split_lines_keeps_empty_lines() {
    assert_eq!(lines("\n"), vec!["".to_string()]);
    assert_eq!(lines("a\n\nb"), vec!["a".to_string(), "".to_string(), "b".to_string()]);
    assert_eq!(lines("\n\n"), vec!["".to_string(), "".to_string()]);
}

#[test]
fn split_lines_drops_carriage_return_before_line_feed_only() {
    assert_eq!(lines("a\r\nb\r\n"), vec!["a".to_string(), "b".to_string()]);
    assert_eq!(lines("a\rb"), vec!["a\rb".to_string()]);
    assert_eq!(lines("a\r"), vec!["a\r".to_string()]);
    assert_eq!(lines("a\r\r\n"), vec!["a\r".to_string()]);
    assert_eq!(lines("\r\n"), vec!["".to_string()]);
    assert_eq!(lines("\r"), vec!["\r".to_string()]);
}

#[test]
fn split_lines_agrees_with_std_lines() {
    let samples = [
        "",
        "x",
        "x\n",
        "\nx",
        "a\r\n\r\nb",
        "a\r\r\nb\r",
        "\r\r",
        "ünï\ncödé\r\n→",
        "one\ntwo\nthree\n\n",
    ];
    for sample in samples {
        assert_eq!(lines(sample), std_lines(sample), "sample {:?}", sample);
    }
}

#[test]
fn push_decimal_writes_the_numeral() {
    let mut out = String::from("n=");
    push_decimal(&mut out, 0);
    push_decimal(&mut out, 7);
    push_decimal(&mut out, 10);
    push_decimal(&mut out, 90210);
    assert_eq!(out, "n=071090210");
    let mut max = String::new();
    push_decimal(&mut max, usize::MAX);
    assert_eq!(max, format!("{}", usize::MAX));
}

#[test]
fn push_right_aligned_pads_short_numbers_only() {
    for (n, expected) in [(0, "   0"), (7, "   7"), (42, "  42"), (999, " 999"), (1000, "1000"), (12345, "12345")] {
        let mut out = String::new();
        push_right_aligned(&mut out, n, 4);
        assert_eq!(out, expected);
        assert_eq!(out, format!("{:4}", n));
    }
    let mut out = String::from(">");
    push_right_aligned(&mut out, 5, 0);
    assert_eq!(out, ">5");
}

#[test]
fn content_without_line_numbers_is_verbatim_plus_line_feed() {
    let mut out = String::from("head|");
    write_content_lines(&mut out, "a\r\nb\n", false);
    assert_eq!(out, "head|a\r\nb\n\n");
    let mut empty = String::new();
    write_content_lines(&mut empty, "", false);
    assert_eq!(empty, "\n");
}

#[test]
fn content_with_line_numbers_prefixes_every_line() {
    let mut out = String::new();
    write_content_lines(&mut out, "first\nsecond\n\nfourth", true);
    assert_eq!(out, "   1 | first\n   2 | second\n   3 | \n   4 | fourth\n");
}

#[test]
fn content_with_line_numbers_of_empty_text_is_empty() {
    let mut out = String::from("kept");
    write_content_lines(&mut out, "", true);
    assert_eq!(out, "kept");
}

#[test]
fn line_numbers_count_every_line_in_order() {
    let count = 10001;
    let mut content = String::new();
    for i in 0..count {
        content.push_str(&format!("line {}\n", i));
    }
    let mut out = String::new();
    write_content_lines(&mut out, &content, true);
    let rendered: Vec<&str> = out.split('\n').collect();
    assert_eq!(rendered.len(), count + 1);
    assert_eq!(rendered[count], "");
    for i in 0..count {
        assert_eq!(rendered[i], format!("{:4} | line {}", i + 1, i));
    }
    assert_eq!(rendered[9998], "9999 | line 9998");
    assert_eq!(rendered[9999], "10000 | line 9999");
}

#[test]
fn markdown_block_has_heading_and_tagged_fence() {
    let config = config_with(Format::Markdown, false);
    let mut out = String::new();
    write_file_content(&mut out, "src/example.rs", "fn main() {}\n", "rs", &config);
    assert_eq!(out, "### `src/example.rs`\n\n```rs\nfn main() {}\n\n```\n\n");
}

#[test]
fn markdown_block_with_line_numbers() {
    let config = config_with(Format::Markdown, true);
    let mut out = String::new();
    write_file_content(&mut out, "a.py", "x = 1\ny = 2\n", "py", &config);
    assert_eq!(out, "### `a.py`\n\n```py\n   1 | x = 1\n   2 | y = 2\n```\n\n");
}

#[test]
fn markdown_block_of_file_without_extension_has_bare_fence() {
    let config = config_with(Format::Markdown, false);
    let mut out = String::new();
    write_file_content(&mut out, "Makefile", "all:", "", &config);
    assert_eq!(out, "### `Makefile`\n\n```\nall:\n```\n\n");
}

#[test]
fn text_block_has_path_line_and_rules() {
    let config = config_with(Format::Text, false);
    let mut out = String::new();
    write_file_content(&mut out, "note.txt", "hello", "txt", &config);
    assert_eq!(out, "./note.txt\n---\nhello\n---\n");
}

#[test]
fn console_block_is_laid_out_like_text() {
    let mut text = String::new();
    write_file_content(&mut text, "d/n.txt", "a\nb", "txt", &config_with(Format::Text, true));
    let mut console = String::new();
    write_file_content(&mut console, "d/n.txt", "a\nb", "txt", &config_with(Format::Console, true));
    assert_eq!(text, console);
    assert_eq!(console, "./d/n.txt\n---\n   1 | a\n   2 | b\n---\n");
}

#[test]
fn blocks_are_appended_to_what_the_writer_holds() {
    let config = config_with(Format::Text, false);
    let mut out = String::new();
    write_file_content(&mut out, "a", "1", "", &config);
    write_file_content(&mut out, "b", "2", "", &config);
    assert_eq!(out, "./a\n---\n1\n---\n./b\n---\n2\n---\n");
}

#[test]
fn text_format_numbers_the_example_line() {
    let config = config_with(Format::Text, true);
    let mut out = String::new();
    write_file_content(&mut out, "note.txt", "Example text file content", "txt", &config);
    assert!(out.lines().any(|l| l == "   1 | Example text file content"));
}
