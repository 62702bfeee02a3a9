use goose::pattern::{compile_glob, glob_to_regex, Matcher};
use goose::search::{parse_suffix_range, MatchedFile, SearchParams, SearchTool, ToolOutput};

#[test]
fn test_parse_suffix_range() {
    let res = parse_suffix_range("src/main.rs#10-50");
    assert_eq!(res.path, "src/main.rs");
    assert_eq!(res.start_line, Some(10));
    assert_eq!(res.end_line, Some(50));

    let res = parse_suffix_range("src/lib.rs#100");
    assert_eq!(res.path, "src/lib.rs");
    assert_eq!(res.start_line, Some(100));
    assert_eq!(res.end_line, None);

    let res = parse_suffix_range("no_suffix.rs");
    assert_eq!(res.path, "no_suffix.rs");
    assert_eq!(res.start_line, None);
    assert_eq!(res.end_line, None);
}

#[test]
fn test_compile_glob() {
    let re = compile_glob("src/**/*.rs").unwrap();
    assert!(re.is_match("src/main.rs"));
    assert!(re.is_match("src/foo/bar/lib.rs"));
    assert!(!re.is_match("tests/main.rs"));

    let re = compile_glob("src/*.rs").unwrap();
    assert!(re.is_match("src/main.rs"));
    assert!(!re.is_match("src/foo/bar/lib.rs"));
}

#[test]
fn suffix_range_numbers_parse_like_usize() {
    let res = parse_suffix_range("a.rs#+7-x");
    assert_eq!(res.path, "a.rs");
    assert_eq!(res.start_line, Some(7));
    assert_eq!(res.end_line, None);

    let res = parse_suffix_range("a.rs#-5");
    assert_eq!(res.start_line, None);
    assert_eq!(res.end_line, Some(5));

    let res = parse_suffix_range("a.rs#99999999999999999999999");
    assert_eq!(res.start_line, None);

    let res = parse_suffix_range("a#b.rs#3-4-5");
    assert_eq!(res.path, "a");
    assert_eq!(res.start_line, None);
    assert_eq!(res.end_line, None);

    let res = parse_suffix_range("x.rs#");
    assert_eq!(res.path, "x.rs");
    assert_eq!(res.start_line, None);
}

#[test]
fn glob_translation_text() {
    assert_eq!(glob_to_regex("src/**/*.rs"), "^src/(?:.*/)?[^/]*\\.rs$");
    assert_eq!(glob_to_regex("a**b?"), "^a.*b[^/]$");
    assert_eq!(glob_to_regex("x(1)+$"), "^x\\(1\\)\\+\\$$");
    assert_eq!(glob_to_regex("plain_name"), "^plain_name$");
}

#[test]
fn glob_is_case_insensitive_and_anchored() {
    let re = compile_glob("*.RS").unwrap();
    assert!(re.is_match("main.rs"));
    assert!(!re.is_match("dir/main.rs"));
    assert!(!re.is_match("main.rsx"));
}

#[test]
fn invalid_regex_reports_message() {
    let err = Matcher::compile("a(", false, false).err().unwrap();
    assert!(err.message.contains("unclosed group"));
    let m = Matcher::compile("B", true, false).ok().unwrap();
    assert!(m.is_match("abc"));
}

fn params(patterns: &[&str]) -> SearchParams {
    SearchParams {
        file_glob_patterns: patterns.iter().map(|p| p.to_string()).collect(),
        content_regex: None,
        output_mode: None,
        lines_per_file: None,
        file_limit: None,
        multiline: false,
        case_insensitive: false,
    }
}

fn run(p: &SearchParams, exists: &[&str], walked: &[&str], contents: &[(&str, &str)]) -> ToolOutput {
    let tool = SearchTool::new();
    let plan = tool.plan(p, "/root");
    let mut files: Vec<MatchedFile> = Vec::new();
    let mut go_on = true;
    for c in plan.exact_candidates() {
        if exists.contains(&c.path.as_str()) {
            if !plan.record_exact(&mut files, c) {
                go_on = false;
                break;
            }
        }
    }
    let _ = go_on;
    if plan.needs_walk(&files) {
        for w in walked {
            if !plan.record_walked(&mut files, w.to_string()) {
                break;
            }
        }
    }
    let m = match plan.prepare(&files) {
        Ok(m) => m,
        Err(out) => return out,
    };
    let texts: Vec<Option<String>> = files
        .iter()
        .map(|f| contents.iter().find(|(p, _)| *p == f.path).map(|(_, t)| t.to_string()))
        .collect();
    plan.render(&files, &m, &texts)
}

#[test]
fn renders_numbered_lines_of_exact_file() {
    let p = params(&["src/a.rs#2-3"]);
    let out = run(&p, &["/root/src/a.rs"], &[], &[("/root/src/a.rs", "one\ntwo\r\nthree\nfour\n")]);
    assert!(!out.is_error);
    assert_eq!(out.text, "--- src/a.rs ---\n   2: two\n   3: three\n\n");
}

#[test]
fn truncates_to_lines_per_file() {
    let mut p = params(&["f.txt"]);
    p.lines_per_file = Some(2);
    let text: String = (1..=12).map(|i| format!("l{}\n", i)).collect();
    let out = run(&p, &["/root/f.txt"], &[], &[("/root/f.txt", &text)]);
    assert_eq!(out.text, "--- f.txt ---\n   1: l1\n   2: l2\n... (10 more matches)\n\n");

    p.output_mode = Some("file_paths_with_content".to_string());
    let out = run(&p, &["/root/f.txt"], &[], &[("/root/f.txt", &text)]);
    assert_eq!(out.text, "=== File: f.txt ===\n   1: l1\n   2: l2\n... (10 lines truncated)\n\n");
}

#[test]
fn wide_line_numbers_are_not_padded() {
    let p = params(&["f.txt#12345"]);
    let text: String = (1..=12345).map(|i| format!("{}\n", i)).collect();
    let out = run(&p, &["/root/f.txt"], &[], &[("/root/f.txt", &text)]);
    assert_eq!(out.text, "--- f.txt ---\n12345: 12345\n\n");
}

#[test]
fn content_regex_filters_lines_and_files() {
    let mut p = params(&["*.rs"]);
    p.content_regex = Some("fn\\s+main".to_string());
    let out = run(
        &p,
        &[],
        &["/root/a.rs", "/root/b.rs", "/root/sub/c.rs"],
        &[("/root/a.rs", "use x;\nfn main() {}\n"), ("/root/b.rs", "nothing\n")],
    );
    assert_eq!(out.text, "--- a.rs ---\n   2: fn main() {}\n\n");

    p.output_mode = Some("file_paths_only".to_string());
    let out = run(
        &p,
        &[],
        &["/root/a.rs", "/root/b.rs"],
        &[("/root/a.rs", "use x;\nfn main() {}\n"), ("/root/b.rs", "nothing\n")],
    );
    assert_eq!(out.text, "a.rs\n");
}

#[test]
fn no_files_and_no_matches_messages() {
    let p = params(&["missing.rs"]);
    let out = run(&p, &[], &[], &[]);
    assert!(!out.is_error);
    assert_eq!(out.text, "No files matched the specified patterns.");

    let mut p = params(&["a.rs"]);
    p.content_regex = Some("zzz".to_string());
    let out = run(&p, &["/root/a.rs"], &[], &[("/root/a.rs", "abc\n")]);
    assert_eq!(out.text, "No content matches found inside the files.");
}

#[test]
fn invalid_content_regex_is_an_error() {
    let mut p = params(&["a.rs"]);
    p.content_regex = Some("(".to_string());
    let out = run(&p, &["/root/a.rs"], &[], &[("/root/a.rs", "abc\n")]);
    assert!(out.is_error);
    assert!(out.text.starts_with("Invalid content_regex: "));
}

#[test]
fn unknown_output_mode_prints_nothing() {
    let mut p = params(&["a.rs"]);
    p.output_mode = Some("other".to_string());
    let out = run(&p, &["/root/a.rs"], &[], &[("/root/a.rs", "abc\n")]);
    assert!(!out.is_error);
    assert_eq!(out.text, "");
}

#[test]
fn file_limit_and_duplicates() {
    let mut p = params(&["a.rs", "*.rs"]);
    p.file_limit = Some(2);
    let tool = SearchTool::new();
    let plan = tool.plan(&p, "/root");
    let mut files = Vec::new();
    for c in plan.exact_candidates() {
        assert_eq!(c.path, "/root/a.rs");
        assert!(plan.record_exact(&mut files, c));
    }
    assert!(plan.needs_walk(&files));
    assert!(plan.record_walked(&mut files, "/root/./a.rs".to_string()));
    assert_eq!(files.len(), 1);
    assert!(plan.record_walked(&mut files, "/elsewhere/b.rs".to_string()));
    assert_eq!(files.len(), 1);
    assert!(!plan.record_walked(&mut files, "/root/b.rs".to_string()));
    assert_eq!(files.len(), 2);
    assert!(!plan.needs_walk(&files));

    let mut p = params(&["a.rs", "b.rs"]);
    p.file_limit = Some(0);
    let plan = tool.plan(&p, "/root");
    let mut files = Vec::new();
    let cands = plan.exact_candidates();
    assert_eq!(cands.len(), 2);
    let mut it = cands.into_iter();
    assert!(!plan.record_exact(&mut files, it.next().unwrap()));
    assert_eq!(files.len(), 0);
}

#[test]
fn file_limit_zero_takes_no_file() {
    let mut p = params(&["a.rs", "*.rs"]);
    p.file_limit = Some(0);
    let out = run(&p, &["/root/a.rs"], &["/root/b.rs"], &[("/root/a.rs", "x\n"), ("/root/b.rs", "y\n")]);
    assert!(!out.is_error);
    assert_eq!(out.text, "No files matched the specified patterns.");

    p.file_limit = Some(1);
    let out = run(&p, &["/root/a.rs"], &["/root/b.rs"], &[("/root/a.rs", "x\n"), ("/root/b.rs", "y\n")]);
    assert_eq!(out.text, "--- a.rs ---\n   1: x\n\n");
}

#[test]
fn empty_file_and_missing_content() {
    let p = params(&["a.rs", "b.rs"]);
    let out = run(&p, &["/root/a.rs", "/root/b.rs"], &[], &[("/root/a.rs", "")]);
    assert_eq!(out.text, "No content matches found inside the files.");
}

#[test]
fn trailing_carriage_return_of_last_line_is_kept() {
    let p = params(&["a.rs"]);
    let out = run(&p, &["/root/a.rs"], &[], &[("/root/a.rs", "x\r\ny\r")]);
    assert_eq!(out.text, "--- a.rs ---\n   1: x\n   2: y\r\n\n");
}
