use my_claw::tools::glob_search::{resolve_root, GlobSearch, GlobSearchInput};
use my_claw::tools::grep_search::{GrepSearch, GrepSearchInput};
use my_claw::tools::read_file::{
    check_resolved_file, resolve_file_path, run_read_file, ReadFileInput,
};
use my_claw::tools::write_file::{validate_write_path, write_report};

fn input(start_line: Option<usize>, end_line: Option<usize>) -> ReadFileInput {
    ReadFileInput { path: "sample.txt".to_string(), start_line, end_line }
}

#[test]
fn read_file_reads_full_file() {
    let output =
        run_read_file(&input(None, None), "/work/sample.txt", "alpha\nbeta\ngamma\n").unwrap();
    assert_eq!(output.total_lines, 3);
    assert_eq!(output.lines.len(), 3);
    assert_eq!(output.lines[1].text, "beta");
    assert_eq!(output.resolved_path, "/work/sample.txt");
}

#[test]
fn read_file_reads_requested_range() {
    let output = run_read_file(
        &input(Some(2), Some(3)),
        "/work/sample.txt",
        "alpha\nbeta\ngamma\ndelta\n",
    )
    .unwrap();
    assert_eq!(output.start_line, 2);
    assert_eq!(output.end_line, 3);
    assert_eq!(output.lines.len(), 2);
    assert_eq!(output.lines[0].text, "beta");
    assert_eq!(output.lines[1].text, "gamma");
    assert_eq!(output.lines[1].line, 3);
}

#[test]
fn read_file_rejects_path_escape() {
    let err = resolve_file_path("/work", "../Cargo.toml").expect_err("path escape should fail");
    assert!(err.contains("'..' path segments are not allowed"));
}

#[test]
fn read_file_path_errors() {
    assert_eq!(resolve_file_path("/work", "src/main.rs").unwrap(), "/work/src/main.rs");
    assert_eq!(
        resolve_file_path("/work", "/etc/passwd").unwrap_err(),
        "absolute paths are not allowed"
    );
    assert!(resolve_file_path("/work", "a/../b").is_err());
    assert!(resolve_file_path("/work", "a/..b").is_ok());
    assert!(check_resolved_file("/work", "/work/a.txt", true).is_ok());
    assert_eq!(
        check_resolved_file("/work", "/workspace/a.txt", true).unwrap_err(),
        "path escapes the workspace root"
    );
    assert_eq!(
        check_resolved_file("/work", "/work/dir", false).unwrap_err(),
        "path does not point to a regular file: /work/dir"
    );
}

#[test]
fn read_file_range_errors() {
    let content = "one\ntwo\n";
    let fails = |a, b| run_read_file(&input(a, b), "p", content).unwrap_err();
    assert_eq!(
        fails(Some(0), None),
        "start_line and end_line must be 1-based positive integers"
    );
    assert_eq!(
        fails(None, Some(0)),
        "start_line and end_line must be 1-based positive integers"
    );
    assert_eq!(fails(Some(2), Some(1)), "start_line must be less than or equal to end_line");
    assert_eq!(fails(Some(3), None), "start_line 3 is beyond file length 2");
    let clamped = run_read_file(&input(Some(2), Some(9)), "p", content).unwrap();
    assert_eq!(clamped.end_line, 2);
    assert_eq!(clamped.lines.len(), 1);
    let empty = run_read_file(&input(Some(4), Some(9)), "p", "").unwrap();
    assert_eq!((empty.start_line, empty.end_line, empty.total_lines), (4, 9, 0));
    assert!(empty.lines.is_empty());
}

#[test]
fn write_file_paths() {
    assert_eq!(validate_write_path("/work", "docs/a.md").unwrap(), "/work/docs/a.md");
    assert_eq!(validate_write_path("/work", "/tmp/a.md").unwrap(), "/tmp/a.md");
    assert_eq!(
        validate_write_path("/work", "docs/../a.md").unwrap_err(),
        "invalid write_file path: '..' segments are not allowed"
    );
    assert_eq!(
        validate_write_path("/work", "").unwrap_err(),
        "write_file path cannot be empty"
    );
    assert_eq!(
        write_report("/work/a.md"),
        "{\n  \"ok\": true,\n  \"path\": \"/work/a.md\"\n}"
    );
}

fn grep(pattern: &str) -> GrepSearchInput {
    GrepSearchInput {
        pattern: pattern.to_string(),
        path: None,
        glob: None,
        case_insensitive: false,
        is_regexp: true,
        line_numbers: true,
        head_limit: 200,
    }
}

#[test]
fn grep_finds_lines_by_pattern() {
    let mut search = GrepSearch::new(grep("f[no]+ \\w+\\(")).unwrap();
    assert_eq!(search.root(), ".");
    assert!(!search.add_file("./a.rs", "fn main() {\n}\nfn other() {}\n"));
    assert!(!search.add_file("./b.rs", "nothing here\n"));
    let output = search.finish();
    assert_eq!(output.query, "f[no]+ \\w+\\(");
    assert_eq!(output.total_matches, 2);
    assert!(!output.truncated);
    assert_eq!(output.matches[0].path, "./a.rs");
    assert_eq!(output.matches[0].line, Some(1));
    assert_eq!(output.matches[1].text, "fn other() {}");
    assert_eq!(output.matches[1].line, Some(3));
}

#[test]
fn grep_takes_plain_text_literally() {
    let plain = GrepSearchInput { is_regexp: false, ..grep("a.b*(c)") };
    let mut search = GrepSearch::new(plain).unwrap();
    search.add_file("f", "a.b*(c)\naxbb(c)\nxx a.b*(c) yy\nA.B*(C)\n");
    let output = search.finish();
    let lines: Vec<_> = output.matches.iter().map(|m| m.line.unwrap()).collect();
    assert_eq!(lines, vec![1, 3]);
    let folded =
        GrepSearchInput { is_regexp: false, case_insensitive: true, ..grep("a.b*(c)") };
    let mut search = GrepSearch::new(folded).unwrap();
    search.add_file("f", "A.B*(C)\n");
    assert_eq!(search.finish().total_matches, 1);
}

#[test]
fn grep_stops_at_the_limit() {
    let mut search = GrepSearch::new(GrepSearchInput { head_limit: 2, ..grep("x") }).unwrap();
    assert!(search.add_file("f", "x\nx\nx\n"));
    assert!(search.add_file("g", "x\n"));
    let output = search.finish();
    assert!(output.truncated);
    assert_eq!(output.total_matches, 2);

    let mut none = GrepSearch::new(GrepSearchInput { head_limit: 0, ..grep("x") }).unwrap();
    assert!(!none.add_file("f", ""));
    assert!(none.add_file("f", "y\n"));
    assert_eq!(none.finish().total_matches, 0);
    let mut hits = GrepSearch::new(GrepSearchInput { head_limit: 0, ..grep("x") }).unwrap();
    assert!(hits.add_file("f", "x\nx\n"));
    let output = hits.finish();
    assert!(output.truncated);
    assert_eq!(output.total_matches, 0);
    assert!(output.matches.is_empty());
}

#[test]
fn grep_skips_files() {
    let search =
        GrepSearch::new(GrepSearchInput { glob: Some("**/*.rs".to_string()), ..grep("x") })
            .unwrap();
    assert!(search.wants_file("./src/main.rs"));
    assert!(!search.wants_file("./README.md"));
    assert!(!search.wants_file("./.git/hooks/a.rs"));
    assert!(!search.wants_file("./target/debug/a.rs"));
    let all = GrepSearch::new(grep("x")).unwrap();
    assert!(all.wants_file("./README.md"));
    let numbers = GrepSearchInput { line_numbers: false, ..grep("x") };
    let mut search = GrepSearch::new(numbers).unwrap();
    search.add_file("f", "x\n");
    assert_eq!(search.finish().matches[0].line, None);
}

#[test]
fn grep_refuses_bad_patterns() {
    assert_eq!(GrepSearch::new(grep("(")).unwrap_err(), "invalid regex pattern: (");
    let bad = GrepSearchInput { glob: Some("a{".to_string()), ..grep("x") };
    assert_eq!(GrepSearch::new(bad).unwrap_err(), "invalid glob: a{");
}

fn glob(pattern: &str, head_limit: usize) -> GlobSearchInput {
    GlobSearchInput { pattern: pattern.to_string(), path: None, head_limit }
}

#[test]
fn glob_finds_paths() {
    let mut search = GlobSearch::new(&glob("src/*", 100)).unwrap();
    assert!(!search.add_entry("src", true));
    assert!(!search.add_entry("src/main.rs", false));
    assert!(!search.add_entry("src/tools", true));
    assert!(!search.add_entry("README.md", false));
    let output = search.finish(7);
    assert_eq!(output.query, "src/*");
    assert_eq!(output.duration_ms, 7);
    assert_eq!(output.total_matches, 2);
    assert!(!output.truncated);
    assert_eq!((output.matches[0].path.as_str(), output.matches[0].kind.as_str()), ("src/main.rs", "file"));
    assert_eq!((output.matches[1].path.as_str(), output.matches[1].kind.as_str()), ("src/tools", "dir"));
}

#[test]
fn glob_stops_at_the_limit() {
    let mut search = GlobSearch::new(&glob("**/*.rs", 1)).unwrap();
    assert!(!search.add_entry("a.md", false));
    assert!(search.add_entry("a.rs", false));
    assert!(search.add_entry("b.rs", false));
    let output = search.finish(0);
    assert!(output.truncated);
    assert_eq!(output.total_matches, 1);
    let mut none = GlobSearch::new(&glob("*", 0)).unwrap();
    assert!(none.add_entry("a", false));
    let output = none.finish(0);
    assert!(output.truncated);
    assert_eq!(output.total_matches, 0);
    assert!(output.matches.is_empty());
}

#[test]
fn glob_starts_at_a_file() {
    let mut search = GlobSearch::new(&glob("*.md", 100)).unwrap();
    search.add_root_file("README.md");
    let output = search.finish(0);
    assert_eq!(output.matches[0].path, "README.md");
    assert!(!output.truncated);
    let mut none = GlobSearch::new(&glob("*.md", 0)).unwrap();
    none.add_root_file("README.md");
    let output = none.finish(0);
    assert!(output.truncated);
    assert!(output.matches.is_empty());
    assert_eq!(GlobSearch::new(&glob("[", 1)).unwrap_err(), "invalid glob pattern: [");
    assert_eq!(resolve_root(None, "/work"), "/work/.");
    assert_eq!(resolve_root(Some("src"), "/work"), "/work/src");
    assert_eq!(resolve_root(Some("/src"), "/work"), "/src");
}
