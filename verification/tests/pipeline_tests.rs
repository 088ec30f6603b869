use codebase_to_prompt::pipeline::{process_directory, process_file_entry, should_render};
use codebase_to_prompt::{run, Config, Entry, Format, HeadLookup, RunError};
use ignore::gitignore::{Gitignore, GitignoreBuilder};

fn base_config() -> Config {
    Config {
        directory: String::from("tests/fixtures"),
        output: None,
        includes: vec![],
        exclude: vec![],
        format: Format::Console,
        append_date: false,
        append_git_hash: false,
        line_numbers: false,
        ignore_hidden: true,
        respect_gitignore: true,
    }
}

fn rules(lines: &[&str]) -> Gitignore {
    let mut builder = GitignoreBuilder::new("tests/fixtures");
    for line in lines {
        builder.add_line(None, line).unwrap();
    }
    builder.build().unwrap()
}

fn entry(relative: &str, is_dir: bool, content: Option<&str>) -> Entry {
    let path = if relative.is_empty() {
        String::from("tests/fixtures")
    } else {
        format!("tests/fixtures/{}", relative)
    };
    Entry {
        file_name: path.rsplit('/').next().unwrap().to_string(),
        depth: if relative.is_empty() { 0 } else { relative.matches('/').count() + 1 },
        path,
        is_dir,
        is_file: !is_dir,
        content: content.map(|c| c.to_string()),
    }
}

fn file(relative: &str, content: &str) -> Entry {
    entry(relative, false, Some(content))
}

fn dir(relative: &str) -> Entry {
    entry(relative, true, None)
}

fn fixtures() -> Vec<Entry> {
    vec![
        dir(""),
        file("example.rs", "fn main() {\n    println!(\"Hello\");\n}\n"),
        file("ignored.txt", "this file is not bundled\n"),
        file("note.txt", "Example text file content"),
    ]
}

fn count(haystack: &str, needle: &str) -> usize {
    haystack.matches(needle).count()
}

#[test]
fn test_run_with_markdown_format() {
    let output_file = String::from("/tmp/codebase-to-prompt/output.md");

    let config = Config {
        directory: String::from("tests/fixtures"),
        output: Some(output_file.clone()),
        includes: vec!["rs".to_string()],
        exclude: vec![],
        format: Format::Markdown,
        append_date: false,
        append_git_hash: false,
        line_numbers: false,
        ignore_hidden: true,
        respect_gitignore: true,
    };

    let result = run(config, &rules(&[]), &fixtures());
    assert!(result.is_ok());

    let bundle = result.unwrap();
    assert_eq!(bundle.output, Some(output_file));
    assert_eq!(bundle.head, None);
    let output_content = bundle.text;
    assert!(output_content.contains("### `example.rs`"));
}

#[test]
fn test_run_with_text_format() {
    let output_file = String::from("/tmp/codebase-to-prompt/output.txt");

    let config = Config {
        directory: String::from("tests/fixtures"),
        output: Some(output_file.clone()),
        includes: vec!["txt".to_string()],
        exclude: vec![],
        format: Format::Text,
        append_date: false,
        append_git_hash: false,
        line_numbers: true,
        ignore_hidden: true,
        respect_gitignore: true,
    };

    let result = run(config, &rules(&[]), &fixtures());
    assert!(result.is_ok());

    let output_content = result.unwrap().text;
    assert!(output_content.contains("1 | Example text file content"));
}

#[test]
fn test_run_with_git_hash_append() {
    let output_file = String::from("/tmp/codebase-to-prompt/output.txt");

    let config = Config {
        directory: String::from("tests/fixtures"),
        output: Some(output_file.clone()),
        includes: vec!["txt".to_string()],
        exclude: vec![],
        format: Format::Text,
        append_date: false,
        append_git_hash: true,
        line_numbers: false,
        ignore_hidden: true,
        respect_gitignore: true,
    };

    let result = run(config, &rules(&[]), &fixtures());
    assert!(result.is_ok());

    let output_file_name = output_file.rsplit('/').next().unwrap();
    assert!(output_file_name.contains("output"));
    assert!(output_file_name.len() > "output".len());

    let bundle = result.unwrap();
    assert_eq!(bundle.head, Some(HeadLookup::NoRepository));
    assert_eq!(bundle.output, Some(output_file));
}

#[test]
fn markdown_run_bundles_included_extension_only() {
    let config = Config {
        includes: vec!["rs".to_string()],
        format: Format::Markdown,
        ..base_config()
    };
    let entries = vec![dir(""), file("example.rs", "fn main() {}\n"), file("ignored.txt", "no\n")];
    let text = run(config, &rules(&[]), &entries).unwrap().text;
    assert!(text.contains("### `example.rs`"));
    assert!(text.contains("```rs"));
    assert!(!text.contains("ignored.txt"));
    assert_eq!(text, "### `example.rs`\n\n```rs\nfn main() {}\n\n```\n\n");
}

#[test]
fn text_run_with_line_numbers_numbers_the_note() {
    let config = Config { format: Format::Text, line_numbers: true, ..base_config() };
    let entries = vec![dir(""), file("note.txt", "Example text file content")];
    let text = run(config, &rules(&[]), &entries).unwrap().text;
    assert!(text.lines().any(|l| l == "   1 | Example text file content"));
    assert_eq!(text, "./note.txt\n---\n   1 | Example text file content\n---\n");
}

#[test]
fn run_without_output_path_succeeds_whatever_is_asked() {
    let config = Config { append_date: true, append_git_hash: true, ..base_config() };
    let bundle = run(config, &rules(&[]), &fixtures()).unwrap();
    assert_eq!(bundle.output, None);
    assert_eq!(bundle.head, None);
    assert!(bundle.text.contains("./example.rs\n---\n"));
}

#[test]
fn run_fails_where_head_cannot_be_read() {
    let directory = String::from("/tmp/codebase-to-prompt-test-unborn");
    git2::Repository::init(&directory).unwrap();
    let config = Config {
        directory,
        output: Some(String::from("output.txt")),
        append_git_hash: true,
        ..base_config()
    };
    let result = run(config.clone(), &rules(&[]), &fixtures());
    assert_eq!(result.err(), Some(RunError::HeadUnreadable));
    let without = Config { append_git_hash: false, ..config };
    assert!(run(without, &rules(&[]), &fixtures()).is_ok());
}

#[test]
fn included_text_file_is_bundled_exactly_once() {
    let config = Config { includes: vec!["rs".to_string(), "md".to_string()], ..base_config() };
    let entries = vec![
        dir(""),
        file("a.rs", "alpha"),
        dir("sub"),
        file("sub/b.rs", "beta"),
        file("sub/c.md", "gamma"),
        file("d.txt", "delta"),
    ];
    let text = run(config, &rules(&[]), &entries).unwrap().text;
    assert_eq!(count(&text, "./a.rs\n"), 1);
    assert_eq!(count(&text, "./sub/b.rs\n"), 1);
    assert_eq!(count(&text, "./sub/c.md\n"), 1);
    assert_eq!(count(&text, "d.txt"), 0);
    assert_eq!(
        text,
        "./a.rs\n---\nalpha\n---\n./sub/b.rs\n---\nbeta\n---\n./sub/c.md\n---\ngamma\n---\n"
    );
}

#[test]
fn excluded_extension_is_never_bundled() {
    let config = Config { exclude: vec!["lock".to_string(), "".to_string()], ..base_config() };
    let entries = vec![dir(""), file("Cargo.lock", "x"), file("Makefile", "y"), file("a.rs", "z")];
    let text = run(config, &rules(&[]), &entries).unwrap().text;
    assert_eq!(text, "./a.rs\n---\nz\n---\n");
}

#[test]
fn hidden_entries_and_what_lies_below_them_are_never_bundled() {
    let entries = vec![
        dir(""),
        dir(".git"),
        file(".git/config", "secret"),
        dir(".git/refs"),
        file(".git/refs/head", "ref"),
        file(".env", "KEY=1"),
        file("a.rs", "visible"),
        dir("src"),
        file("src/.hidden.rs", "h"),
        file("src/lib.rs", "lib"),
    ];
    let text = run(base_config(), &rules(&[]), &entries).unwrap().text;
    assert_eq!(text, "./a.rs\n---\nvisible\n---\n./src/lib.rs\n---\nlib\n---\n");
    let shown = Config { ignore_hidden: false, ..base_config() };
    let all = run(shown, &rules(&[]), &entries).unwrap().text;
    for path in [".git/config", ".git/refs/head", ".env", "a.rs", "src/.hidden.rs", "src/lib.rs"] {
        assert_eq!(count(&all, &format!("./{}\n---\n", path)), 1);
    }
}

#[test]
fn ignored_entries_and_what_lies_below_them_are_never_bundled() {
    let set = rules(&["target/", "*.log", "!keep.log"]);
    let entries = vec![
        dir(""),
        dir("target"),
        dir("target/debug"),
        file("target/debug/main.rs", "built"),
        file("target/keep.log", "below a pruned directory"),
        file("a.log", "log"),
        file("keep.log", "kept"),
        file("main.rs", "source"),
    ];
    let text = run(base_config(), &set, &entries).unwrap().text;
    assert_eq!(text, "./keep.log\n---\nkept\n---\n./main.rs\n---\nsource\n---\n");
    let unruled = Config { respect_gitignore: false, ..base_config() };
    let all = run(unruled, &set, &entries).unwrap().text;
    for path in ["target/debug/main.rs", "target/keep.log", "a.log", "keep.log", "main.rs"] {
        assert_eq!(count(&all, &format!("./{}\n---\n", path)), 1);
    }
}

#[test]
fn pruning_ends_where_the_walk_leaves_the_directory() {
    let entries = vec![
        dir(""),
        dir("a"),
        dir("a/.x"),
        file("a/.x/one.rs", "1"),
        dir("a/.x/deep"),
        file("a/.x/deep/two.rs", "2"),
        file("a/three.rs", "3"),
        dir(".y"),
        file(".y/four.rs", "4"),
        file("five.rs", "5"),
    ];
    let text = run(base_config(), &rules(&[]), &entries).unwrap().text;
    assert_eq!(text, "./a/three.rs\n---\n3\n---\n./five.rs\n---\n5\n---\n");
}

#[test]
fn rejected_file_prunes_nothing() {
    let entries = vec![dir(""), file(".hidden", "h"), dir("sub"), file("sub/a.rs", "a")];
    let text = run(base_config(), &rules(&[]), &entries).unwrap().text;
    assert_eq!(text, "./sub/a.rs\n---\na\n---\n");
}

#[test]
fn rejected_root_leaves_nothing() {
    let config = Config { directory: String::from("."), ..base_config() };
    let root = Entry {
        path: String::from("."),
        file_name: String::from("."),
        depth: 0,
        is_dir: true,
        is_file: false,
        content: None,
    };
    let inner = Entry {
        path: String::from("./a.rs"),
        file_name: String::from("a.rs"),
        depth: 1,
        is_dir: false,
        is_file: true,
        content: Some(String::from("a")),
    };
    let entries = vec![root, inner];
    assert_eq!(run(config.clone(), &rules(&[]), &entries).unwrap().text, "");
    let shown = Config { ignore_hidden: false, ..config };
    assert_eq!(run(shown, &rules(&[]), &entries).unwrap().text, "./a.rs\n---\na\n---\n");
}

#[test]
fn unreadable_file_is_passed_over() {
    let entries = vec![dir(""), entry("image.rs", false, None), file("b.rs", "b")];
    let text = run(base_config(), &rules(&[]), &entries).unwrap().text;
    assert_eq!(text, "./b.rs\n---\nb\n---\n");
}

#[test]
fn entry_that_is_no_file_is_passed_over() {
    let mut link = file("link.rs", "content");
    link.is_file = false;
    let entries = vec![dir(""), link, file("b.rs", "b")];
    let text = run(base_config(), &rules(&[]), &entries).unwrap().text;
    assert_eq!(text, "./b.rs\n---\nb\n---\n");
}

#[test]
fn same_input_gives_the_same_text() {
    let set = rules(&["*.log"]);
    let first = run(Config { line_numbers: true, ..base_config() }, &set, &fixtures()).unwrap();
    let second = run(Config { line_numbers: true, ..base_config() }, &set, &fixtures()).unwrap();
    assert_eq!(first.text, second.text);
    let decorated = Config {
        line_numbers: true,
        output: Some(String::from("out.txt")),
        append_date: true,
        ..base_config()
    };
    let third = run(decorated, &set, &fixtures()).unwrap();
    assert_eq!(first.text, third.text);
    assert_ne!(third.output, Some(String::from("out.txt")));
}

#[test]
fn empty_walk_gives_empty_text() {
    assert_eq!(run(base_config(), &rules(&[]), &vec![]).unwrap().text, "");
}

#[test]
fn should_render_wants_a_file_with_an_admitted_extension() {
    let config = Config { includes: vec!["rs".to_string()], ..base_config() };
    assert!(should_render(&file("a.rs", ""), &config));
    assert!(should_render(&entry("a.rs", false, None), &config));
    assert!(!should_render(&file("a.txt", ""), &config));
    assert!(!should_render(&dir("dir.rs"), &config));
}

#[test]
fn process_file_entry_appends_the_block_under_the_relative_path() {
    let config = Config { format: Format::Markdown, ..base_config() };
    let mut out = String::from("before\n");
    process_file_entry(&file("sub/a.rs", "x"), &mut out, &config);
    assert_eq!(out, "before\n### `sub/a.rs`\n\n```rs\nx\n```\n\n");
    process_file_entry(&dir("sub"), &mut out, &config);
    process_file_entry(&entry("b.rs", false, None), &mut out, &config);
    assert_eq!(out, "before\n### `sub/a.rs`\n\n```rs\nx\n```\n\n");
}

#[test]
fn process_file_entry_keeps_a_path_outside_the_root() {
    let mut out = String::new();
    let outside = Entry {
        path: String::from("elsewhere/a.rs"),
        file_name: String::from("a.rs"),
        depth: 1,
        is_dir: false,
        is_file: true,
        content: Some(String::from("x")),
    };
    process_file_entry(&outside, &mut out, &base_config());
    assert_eq!(out, "./elsewhere/a.rs\n---\nx\n---\n");
}

#[test]
fn process_directory_appends_to_the_writer() {
    let mut out = String::from("head\n");
    process_directory(&base_config(), &rules(&[]), &vec![dir(""), file("a.rs", "a")], &mut out);
    assert_eq!(out, "head\n./a.rs\n---\na\n---\n");
}
