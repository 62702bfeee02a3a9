//! The file search tool: patterns with optional line ranges, the choice of
//! the files to show, and the text of the result.
//!
//! A search runs in steps; the caller does the file-system work between them:
//! `SearchTool::plan` reads the parameters; the caller checks which of
//! `SearchPlan::exact_candidates` are files and hands them to
//! `SearchPlan::record_exact`; if `SearchPlan::needs_walk`, it walks the
//! directory and hands each file to `SearchPlan::record_walked` until told to
//! stop; `SearchPlan::prepare` then either ends the search or gives the
//! content matcher; the caller reads the chosen files and
//! `SearchPlan::render` builds the answer.

use vstd::prelude::*;
use crate::pattern::{Matcher, MatcherView, compile_glob, glob_regex, glob_body, is_regex_meta, regex_build_error, regex_is_match};
use crate::paths::{path_join, path_eq, path_strip_prefix, join_path, same_path, strip_path_prefix};
use crate::text::{split_lines, strip_cr, contains_char, lines, lines_of, decimal, pad_left, push_decimal, push_padded_decimal, chars_of, string_of, find_char, first_index_of, lemma_first_index_of, parse_usize, parse_usize_spec};

verus! {

/// The parameters of a search.
#[derive(Debug)]
pub struct SearchParams {
    /// Glob patterns of files to match (e.g., `src/**/*.rs` or `src/lib.rs#10-50`).
    pub file_glob_patterns: Vec<String>,
    /// Optional regex to search for inside the matched files.
    pub content_regex: Option<String>,
    /// `paths_with_content` (the default), `file_paths_with_content` or `file_paths_only`.
    pub output_mode: Option<String>,
    /// Maximum number of lines to return per file.
    pub lines_per_file: Option<usize>,
    /// Maximum number of files to inspect.
    pub file_limit: Option<usize>,
    /// Whether the regex should match across multiple lines.
    pub multiline: bool,
    /// Whether the regex ignores case.
    pub case_insensitive: bool,
}

/// The search tool.
pub struct SearchTool;

impl SearchTool {
    pub fn new() -> (t: SearchTool) {
        SearchTool
    }
}

/// A pattern split into its path and its optional line range.
pub struct SuffixRange {
    pub path: String,
    pub start_line: Option<usize>,
    pub end_line: Option<usize>,
}

pub struct SuffixRangeView {
    pub path: Seq<char>,
    pub start_line: Option<usize>,
    pub end_line: Option<usize>,
}

impl View for SuffixRange {
    type V = SuffixRangeView;

    open spec fn view(&self) -> SuffixRangeView {
        SuffixRangeView { path: self.path@, start_line: self.start_line, end_line: self.end_line }
    }
}

/// The split of `p`: the path is what stands before the first `#`; after it
/// comes `start-end` (split at the first `-`) or `start` alone, each number
/// `None` where it does not parse.
pub open spec fn suffix_range_of(p: Seq<char>) -> SuffixRangeView {
    match first_index_of(p, '#') {
        None => SuffixRangeView { path: p, start_line: None, end_line: None },
        Some(h) => {
            let range = p.skip(h + 1);
            match first_index_of(range, '-') {
                Some(d) => SuffixRangeView {
                    path: p.take(h),
                    start_line: parse_usize_spec(range.take(d)),
                    end_line: parse_usize_spec(range.skip(d + 1)),
                },
                None => SuffixRangeView {
                    path: p.take(h),
                    start_line: parse_usize_spec(range),
                    end_line: None,
                },
            }
        },
    }
}

/// The characters of `v` from `from` up to `to`.
fn sub_chars(v: &Vec<char>, from: usize, to: usize) -> (r: Vec<char>)
    requires
        from <= to <= v.len(),
    ensures
        r@ == v@.subrange(from as int, to as int),
{
    let mut r: Vec<char> = Vec::new();
    let mut i = from;
    while i < to
        invariant
            from <= i <= to <= v.len(),
            r@ == v@.subrange(from as int, i as int),
        decreases to - i,
    {
        r.push(v[i]);
        i = i + 1;
        assert(r@ =~= v@.subrange(from as int, i as int));
    }
    r
}

/// Splits a pattern such as `src/lib.rs#10-50` into its path and line range.
pub fn parse_suffix_range(pattern: &str) -> (r: SuffixRange)
    ensures
        r@ == suffix_range_of(pattern@),
{
    let p = chars_of(pattern);
    match find_char(&p, '#') {
        None => SuffixRange { path: pattern.to_string(), start_line: None, end_line: None },
        Some(h) => {
            proof { lemma_first_index_of(p@, '#'); }
            let path = string_of(&sub_chars(&p, 0, h));
            let range = sub_chars(&p, h + 1, p.len());
            assert(range@ == p@.skip(h + 1));
            assert(path@ == p@.take(h as int));
            match find_char(&range, '-') {
                Some(d) => {
                    proof { lemma_first_index_of(range@, '-'); }
                    let start = sub_chars(&range, 0, d);
                    let end = sub_chars(&range, d + 1, range.len());
                    assert(start@ == range@.take(d as int));
                    assert(end@ == range@.skip(d + 1));
                    SuffixRange { path, start_line: parse_usize(&start), end_line: parse_usize(&end) }
                },
                None => SuffixRange { path, start_line: parse_usize(&range), end_line: None },
            }
        },
    }
}


/// Whether a pattern's path is a glob rather than the path of one file.
pub open spec fn has_wildcard(p: Seq<char>) -> bool {
    p.contains('*') || p.contains('?')
}

/// The compiled globs of the wildcard targets, in order; a glob that does
/// not compile is left out.
pub open spec fn glob_matchers(ts: Seq<SuffixRangeView>) -> Seq<MatcherView>
    decreases ts.len(),
{
    if ts.len() == 0 {
        seq![]
    } else {
        let rest = glob_matchers(ts.drop_last());
        let p = ts.last().path;
        if has_wildcard(p) && regex_build_error(glob_regex(p), true, false) is None {
            rest.push(MatcherView { source: glob_regex(p), case_insensitive: true, multi_line: false })
        } else {
            rest
        }
    }
}

/// A file chosen by a search, with the line range of the pattern that named
/// it exactly (none for a file that a glob found).
pub struct MatchedFile {
    pub path: String,
    pub start_line: Option<usize>,
    pub end_line: Option<usize>,
}

pub struct MatchedFileView {
    pub path: Seq<char>,
    pub start_line: Option<usize>,
    pub end_line: Option<usize>,
}

impl View for MatchedFile {
    type V = MatchedFileView;

    open spec fn view(&self) -> MatchedFileView {
        MatchedFileView { path: self.path@, start_line: self.start_line, end_line: self.end_line }
    }
}

pub open spec fn files_view(files: Seq<MatchedFile>) -> Seq<MatchedFileView> {
    files.map_values(|f: MatchedFile| f@)
}

/// The answer of the tool: a text, and whether it reports an error.
pub struct ToolOutput {
    pub is_error: bool,
    pub text: String,
}

/// A search, once its parameters are read.
pub struct SearchPlan {
    /// The directory the patterns are relative to.
    pub root: String,
    pub targets: Vec<SuffixRange>,
    pub globs: Vec<Matcher>,
    pub file_limit: usize,
    pub content_regex: Option<String>,
    pub case_insensitive: bool,
    pub multiline: bool,
    pub output_mode: String,
    pub lines_per_file: usize,
}

pub struct PlanView {
    pub root: Seq<char>,
    pub targets: Seq<SuffixRangeView>,
    pub globs: Seq<MatcherView>,
    pub file_limit: nat,
    pub content_regex: Option<Seq<char>>,
    pub case_insensitive: bool,
    pub multiline: bool,
    pub output_mode: Seq<char>,
    pub lines_per_file: nat,
}

pub open spec fn opt_string_view(o: Option<String>) -> Option<Seq<char>> {
    match o {
        Some(s) => Some(s@),
        None => None,
    }
}

impl View for SearchPlan {
    type V = PlanView;

    open spec fn view(&self) -> PlanView {
        PlanView {
            root: self.root@,
            targets: self.targets@.map_values(|t: SuffixRange| t@),
            globs: self.globs@.map_values(|m: Matcher| m@),
            file_limit: self.file_limit as nat,
            content_regex: opt_string_view(self.content_regex),
            case_insensitive: self.case_insensitive,
            multiline: self.multiline,
            output_mode: self.output_mode@,
            lines_per_file: self.lines_per_file as nat,
        }
    }
}

/// The plan of a search of `params` under `root`.
pub open spec fn plan_of(params: SearchParams, root: Seq<char>) -> PlanView {
    let targets = params.file_glob_patterns@.map_values(|p: String| suffix_range_of(p@));
    PlanView {
        root,
        targets,
        globs: glob_matchers(targets),
        file_limit: match params.file_limit { Some(n) => n as nat, None => 500 },
        content_regex: opt_string_view(params.content_regex),
        case_insensitive: params.case_insensitive,
        multiline: params.multiline,
        output_mode: match params.output_mode { Some(m) => m@, None => "paths_with_content"@ },
        lines_per_file: match params.lines_per_file { Some(n) => n as nat, None => 200 },
    }
}

/// The files that the non-glob patterns name, joined to `root`, in order.
pub open spec fn exact_files(root: Seq<char>, ts: Seq<SuffixRangeView>) -> Seq<MatchedFileView>
    decreases ts.len(),
{
    if ts.len() == 0 {
        seq![]
    } else {
        let rest = exact_files(root, ts.drop_last());
        if has_wildcard(ts.last().path) {
            rest
        } else {
            rest.push(MatchedFileView {
                path: path_join(root, ts.last().path),
                start_line: ts.last().start_line,
                end_line: ts.last().end_line,
            })
        }
    }
}

/// Whether some glob matches the relative path `rel`.
pub open spec fn any_glob_matches(globs: Seq<MatcherView>, rel: Seq<char>) -> bool {
    exists|i: int| 0 <= i < globs.len()
        && regex_is_match(#[trigger] globs[i].source, globs[i].case_insensitive, globs[i].multi_line, rel)
}

/// Whether `files` holds a path equal to `full`.
pub open spec fn already_chosen(files: Seq<MatchedFileView>, full: Seq<char>) -> bool {
    exists|k: int| 0 <= k < files.len() && #[trigger] path_eq(files[k].path, full)
}

/// Whether the walk adds the file `full`: it lies under the root, a glob
/// matches its path relative to the root, and it is not chosen yet.
pub open spec fn walk_takes(plan: PlanView, files: Seq<MatchedFileView>, full: Seq<char>) -> bool {
    match path_strip_prefix(full, plan.root) {
        None => false,
        Some(rel) => any_glob_matches(plan.globs, rel) && !already_chosen(files, full),
    }
}

fn has_wildcard_exec(p: &String) -> (r: bool)
    ensures
        r == has_wildcard(p@),
{
    contains_char(p.as_str(), '*') || contains_char(p.as_str(), '?')
}

fn clone_opt_string(o: &Option<String>) -> (r: Option<String>)
    ensures
        opt_string_view(r) == opt_string_view(*o),
{
    match o {
        Some(s) => Some(s.clone()),
        None => None,
    }
}

impl SearchTool {
    /// Reads the parameters of a search under `root`: splits the patterns,
    /// compiles the globs and settles the defaults.
    pub fn plan(&self, params: &SearchParams, root: &str) -> (plan: SearchPlan)
        ensures
            plan@ == plan_of(*params, root@),
    {
        let pats = &params.file_glob_patterns;
        let ghost targets = pats@.map_values(|p: String| suffix_range_of(p@));
        let mut ts: Vec<SuffixRange> = Vec::new();
        let mut globs: Vec<Matcher> = Vec::new();
        let mut i: usize = 0;
        while i < pats.len()
            invariant
                i <= pats.len(),
                targets == pats@.map_values(|p: String| suffix_range_of(p@)),
                ts@.map_values(|t: SuffixRange| t@) == targets.take(i as int),
                globs@.map_values(|m: Matcher| m@) == glob_matchers(targets.take(i as int)),
            decreases pats.len() - i,
        {
            let t = parse_suffix_range(pats[i].as_str());
            let ghost before_globs = globs@.map_values(|m: Matcher| m@);
            assert(targets.take(i + 1).drop_last() == targets.take(i as int));
            assert(targets.take(i + 1).last() == t@);
            if has_wildcard_exec(&t.path) {
                match compile_glob(t.path.as_str()) {
                    Ok(m) => {
                        globs.push(m);
                        assert(globs@.map_values(|m: Matcher| m@) == before_globs.push(m@));
                    },
                    Err(_) => {},
                }
            }
            let ghost before_ts = ts@.map_values(|t: SuffixRange| t@);
            ts.push(t);
            assert(ts@.map_values(|t: SuffixRange| t@) == before_ts.push(t@));
            i = i + 1;
        }
        assert(targets.take(pats.len() as int) == targets);
        let file_limit = match params.file_limit { Some(n) => n, None => 500 };
        let output_mode = match &params.output_mode {
            Some(m) => m.clone(),
            None => "paths_with_content".to_string(),
        };
        let lines_per_file = match params.lines_per_file { Some(n) => n, None => 200 };
        SearchPlan {
            root: root.to_string(),
            targets: ts,
            globs,
            file_limit,
            content_regex: clone_opt_string(&params.content_regex),
            case_insensitive: params.case_insensitive,
            multiline: params.multiline,
            output_mode,
            lines_per_file,
        }
    }
}

impl SearchPlan {
    /// The files that the non-glob patterns name, in the order of the patterns.
    pub fn exact_candidates(&self) -> (r: Vec<MatchedFile>)
        ensures
            files_view(r@) == exact_files(self@.root, self@.targets),
    {
        let ghost ts = self@.targets;
        let mut r: Vec<MatchedFile> = Vec::new();
        let mut i: usize = 0;
        while i < self.targets.len()
            invariant
                i <= self.targets.len(),
                ts == self@.targets,
                files_view(r@) == exact_files(self@.root, ts.take(i as int)),
            decreases self.targets.len() - i,
        {
            assert(ts.take(i + 1).drop_last() == ts.take(i as int));
            assert(ts.take(i + 1).last() == self.targets[i as int]@);
            let ghost before = files_view(r@);
            if !has_wildcard_exec(&self.targets[i].path) {
                let path = join_path(self.root.as_str(), self.targets[i].path.as_str());
                let f = MatchedFile {
                    path,
                    start_line: self.targets[i].start_line,
                    end_line: self.targets[i].end_line,
                };
                r.push(f);
                assert(files_view(r@) == before.push(f@));
            }
            i = i + 1;
        }
        assert(ts.take(self.targets.len() as int) == ts);
        r
    }

    /// Records the exact file `file`, which exists, unless `file_limit`
    /// files are taken already; tells whether the search may take more files.
    pub fn record_exact(&self, files: &mut Vec<MatchedFile>, file: MatchedFile) -> (more: bool)
        ensures
            final(files)@ == (if old(files)@.len() < self.file_limit {
                old(files)@.push(file)
            } else {
                old(files)@
            }),
            more == (final(files)@.len() < self.file_limit),
    {
        if files.len() < self.file_limit {
            files.push(file);
        }
        files.len() < self.file_limit
    }

    /// Whether the directory must be walked for the globs.
    pub fn needs_walk(&self, files: &Vec<MatchedFile>) -> (r: bool)
        ensures
            r == (self@.globs.len() > 0 && files@.len() < self.file_limit),
    {
        self.globs.len() > 0 && files.len() < self.file_limit
    }

    /// Offers the file `full` that the walk found; it is added when
    /// `walk_takes` says so. Tells whether the walk may go on.
    pub fn record_walked(&self, files: &mut Vec<MatchedFile>, full: String) -> (more: bool)
        ensures
            walk_takes(self@, files_view(old(files)@), full@) ==> {
                &&& final(files)@ == old(files)@.push(MatchedFile { path: full, start_line: None, end_line: None })
                &&& more == (final(files)@.len() < self.file_limit)
            },
            !walk_takes(self@, files_view(old(files)@), full@) ==> {
                &&& final(files)@ == old(files)@
                &&& more
            },
    {
        let rel = match strip_path_prefix(full.as_str(), self.root.as_str()) {
            Some(rel) => rel,
            None => return true,
        };
        let mut hit = false;
        let mut i: usize = 0;
        while i < self.globs.len()
            invariant
                i <= self.globs.len(),
                hit == (exists|j: int| 0 <= j < i && regex_is_match(
                    #[trigger] self@.globs[j].source, self@.globs[j].case_insensitive,
                    self@.globs[j].multi_line, rel@)),
            decreases self.globs.len() - i,
        {
            let m = self.globs[i].is_match(rel.as_str());
            assert(self@.globs[i as int] == self.globs[i as int]@);
            if m {
                hit = true;
            }
            i = i + 1;
        }
        if !hit {
            return true;
        }
        let mut seen = false;
        let mut k: usize = 0;
        while k < files.len()
            invariant
                k <= files.len(),
                seen == (exists|j: int| 0 <= j < k && #[trigger] path_eq(files_view(files@)[j].path, full@)),
            decreases files.len() - k,
        {
            assert(files_view(files@)[k as int].path == files@[k as int].path@);
            if same_path(files[k].path.as_str(), full.as_str()) {
                seen = true;
            }
            k = k + 1;
        }
        if seen {
            return true;
        }
        files.push(MatchedFile { path: full, start_line: None, end_line: None });
        files.len() < self.file_limit
    }
}


pub open spec fn opt_matcher_view(m: Option<Matcher>) -> Option<MatcherView> {
    match m {
        Some(x) => Some(x@),
        None => None,
    }
}

/// What the search does once the files are chosen: end with a message when
/// there are none or the content regex does not compile (`Err`), else go on
/// with the content matcher, if any (`Ok`).
pub open spec fn prepared(plan: PlanView, n_files: nat) -> Result<Option<MatcherView>, (bool, Seq<char>)> {
    if n_files == 0 {
        Err((false, "No files matched the specified patterns."@))
    } else {
        match plan.content_regex {
            None => Ok(None),
            Some(r) => match regex_build_error(r, plan.case_insensitive, plan.multiline) {
                None => Ok(Some(MatcherView { source: r, case_insensitive: plan.case_insensitive, multi_line: plan.multiline })),
                Some(msg) => Err((true, "Invalid content_regex: "@ + msg)),
            },
        }
    }
}

/// Whether `text` passes the content filter (every text passes when there is none).
pub open spec fn passes(m: Option<MatcherView>, text: Seq<char>) -> bool {
    match m {
        Some(mv) => regex_is_match(mv.source, mv.case_insensitive, mv.multi_line, text),
        None => true,
    }
}

/// How a chosen file is named in the output: relative to the root where it lies under it.
pub open spec fn shown_path(root: Seq<char>, path: Seq<char>) -> Seq<char> {
    match path_strip_prefix(path, root) {
        Some(r) => r,
        None => path,
    }
}

/// The lines to look at, out of `n`, as 0-based `(from, to)`: the requested
/// range (1-based, `end` inclusive), cut to the file, starting at line 1 at
/// the earliest; the whole file when no range was asked for.
pub open spec fn line_window(start: Option<usize>, end: Option<usize>, n: nat) -> (int, int) {
    let s: int = match start { Some(v) => v as int, None => 1 };
    let e: int = match end { Some(v) => v as int, None => n as int };
    let hi: int = if e < n { e } else { n as int };
    let lo: int = if s < hi { s } else { hi };
    let lo1: int = if lo > 1 { lo } else { 1 };
    (lo1 - 1, hi)
}

/// The lines `from..to` of `ls` that pass the filter, with their 1-based numbers.
pub open spec fn hits(ls: Seq<Seq<char>>, from: int, to: int, m: Option<MatcherView>) -> Seq<(nat, Seq<char>)>
    decreases to - from,
{
    if to <= from {
        seq![]
    } else {
        hits(ls, from, to - 1, m) + (if passes(m, ls[to - 1]) { seq![(to as nat, ls[to - 1])] } else { seq![] })
    }
}

/// Each line as `{number:4}: {text}` and a newline.
pub open spec fn numbered(hs: Seq<(nat, Seq<char>)>) -> Seq<char>
    decreases hs.len(),
{
    if hs.len() == 0 {
        seq![]
    } else {
        numbered(hs.drop_last()) + pad_left(decimal(hs.last().0), 4) + ": "@ + hs.last().1 + "\n"@
    }
}

/// At most `limit` numbered lines, then a note of how many were left out.
pub open spec fn listing(hs: Seq<(nat, Seq<char>)>, limit: nat, note: Seq<char>) -> Seq<char> {
    let count = if hs.len() < limit { hs.len() } else { limit };
    numbered(hs.take(count as int)) + (if hs.len() > count {
        "... ("@ + decimal((hs.len() - count) as nat) + note
    } else {
        seq![]
    })
}

/// The part of the output for one chosen file with the text `content`
/// (`None` when it could not be read), or `None` when the file shows nothing.
pub open spec fn section(plan: PlanView, f: MatchedFileView, content: Option<Seq<char>>, m: Option<MatcherView>) -> Option<Seq<char>> {
    match content {
        None => None,
        Some(c) => {
            let name = shown_path(plan.root, f.path);
            if plan.output_mode == "file_paths_only"@ {
                if passes(m, c) { Some(name + "\n"@) } else { None }
            } else {
                let ls = lines_of(c);
                let w = line_window(f.start_line, f.end_line, ls.len());
                let hs = hits(ls, w.0, w.1, m);
                if hs.len() == 0 {
                    None
                } else if plan.output_mode == "paths_with_content"@ {
                    Some("--- "@ + name + " ---\n"@ + listing(hs, plan.lines_per_file, " more matches)\n"@) + "\n"@)
                } else if plan.output_mode == "file_paths_with_content"@ {
                    Some("=== File: "@ + name + " ===\n"@ + listing(hs, plan.lines_per_file, " lines truncated)\n"@) + "\n"@)
                } else {
                    Some(seq![])
                }
            }
        },
    }
}

/// The sections of the files, one after the other, and how many files showed something.
pub open spec fn sections(plan: PlanView, files: Seq<MatchedFileView>, contents: Seq<Option<Seq<char>>>, m: Option<MatcherView>) -> (Seq<char>, nat)
    decreases files.len(),
{
    if files.len() == 0 {
        (seq![], 0)
    } else {
        let before = sections(plan, files.drop_last(), contents.drop_last(), m);
        match section(plan, files.last(), contents[files.len() - 1], m) {
            Some(t) => (before.0 + t, before.1 + 1),
            None => before,
        }
    }
}

/// The answer of the search: the sections, or a note when no file showed anything.
pub open spec fn rendered(plan: PlanView, files: Seq<MatchedFileView>, contents: Seq<Option<Seq<char>>>, m: Option<MatcherView>) -> (bool, Seq<char>) {
    let r = sections(plan, files, contents, m);
    if r.1 == 0 {
        (false, "No content matches found inside the files."@)
    } else {
        (false, r.0)
    }
}

pub open spec fn contents_view(cs: Seq<Option<String>>) -> Seq<Option<Seq<char>>> {
    cs.map_values(|c: Option<String>| opt_string_view(c))
}

pub open spec fn hits_view(hs: Seq<(usize, String)>) -> Seq<(nat, Seq<char>)> {
    hs.map_values(|h: (usize, String)| (h.0 as nat, h.1@))
}

fn filter_passes(m: &Option<Matcher>, text: &str) -> (r: bool)
    ensures
        r == passes(opt_matcher_view(*m), text@),
{
    match m {
        Some(x) => x.is_match(text),
        None => true,
    }
}

/// The lines `from..to` of `ls` that pass the filter.
fn collect_hits(ls: &Vec<String>, from: usize, to: usize, m: &Option<Matcher>) -> (r: Vec<(usize, String)>)
    requires
        from <= to <= ls.len(),
    ensures
        hits_view(r@) == hits(ls@.map_values(|l: String| l@), from as int, to as int, opt_matcher_view(*m)),
{
    let ghost lv = ls@.map_values(|l: String| l@);
    let ghost mv = opt_matcher_view(*m);
    let mut r: Vec<(usize, String)> = Vec::new();
    let mut i = from;
    while i < to
        invariant
            from <= i <= to <= ls.len(),
            lv == ls@.map_values(|l: String| l@),
            mv == opt_matcher_view(*m),
            hits_view(r@) == hits(lv, from as int, i as int, mv),
        decreases to - i,
    {
        assert(lv[i as int] == ls@[i as int]@);
        let ghost before = hits_view(r@);
        if filter_passes(m, ls[i].as_str()) {
            r.push((i + 1, ls[i].clone()));
            assert(hits_view(r@) == before.push(((i + 1) as nat, lv[i as int])));
        }
        i = i + 1;
        assert(hits_view(r@) == hits(lv, from as int, i as int, mv));
    }
    r
}

/// Appends `listing(hs, limit, note)` to `out`.
fn push_listing(out: &mut String, hs: &Vec<(usize, String)>, limit: usize, note: &str)
    ensures
        final(out)@ == old(out)@ + listing(hits_view(hs@), limit as nat, note@),
{
    let ghost hv = hits_view(hs@);
    let count = if hs.len() < limit { hs.len() } else { limit };
    let ghost start = out@;
    let mut k: usize = 0;
    while k < count
        invariant
            count <= hs.len(),
            k <= count,
            hv == hits_view(hs@),
            out@ == start + numbered(hv.take(k as int)),
        decreases count - k,
    {
        assert(hv.take(k + 1).drop_last() == hv.take(k as int));
        assert(hv.take(k + 1).last() == (hs@[k as int].0 as nat, hs@[k as int].1@));
        push_padded_decimal(out, hs[k].0, 4);
        out.append(": ");
        out.append(hs[k].1.as_str());
        out.append("\n");
        k = k + 1;
    }
    if hs.len() > count {
        out.append("... (");
        push_decimal(out, hs.len() - count);
        out.append(note);
    }
    assert(out@ =~= old(out)@ + listing(hv, limit as nat, note@));
}

impl SearchPlan {
    /// Ends the search when no file was chosen or the content regex does not
    /// compile; else gives the content matcher, if there is one.
    pub fn prepare(&self, files: &Vec<MatchedFile>) -> (r: Result<Option<Matcher>, ToolOutput>)
        ensures
            match (r, prepared(self@, files@.len())) {
                (Ok(m), Ok(mv)) => opt_matcher_view(m) == mv,
                (Err(o), Err(e)) => o.is_error == e.0 && o.text@ == e.1,
                _ => false,
            },
    {
        if files.len() == 0 {
            return Err(ToolOutput { is_error: false, text: "No files matched the specified patterns.".to_string() });
        }
        match &self.content_regex {
            None => Ok(None),
            Some(r) => match Matcher::compile(r.as_str(), self.case_insensitive, self.multiline) {
                Ok(m) => Ok(Some(m)),
                Err(e) => {
                    let mut text = "Invalid content_regex: ".to_string();
                    text.append(e.message.as_str());
                    Err(ToolOutput { is_error: true, text })
                },
            },
        }
    }

    /// The part of the output for one file.
    fn section_of(&self, f: &MatchedFile, content: &Option<String>, m: &Option<Matcher>) -> (r: Option<String>)
        ensures
            opt_string_view(r) == section(self@, f@, opt_string_view(*content), opt_matcher_view(*m)),
    {
        let c = match content {
            None => return None,
            Some(c) => c,
        };
        let name = match strip_path_prefix(f.path.as_str(), self.root.as_str()) {
            Some(rel) => rel,
            None => f.path.clone(),
        };
        if self.output_mode == "file_paths_only".to_string() {
            if filter_passes(m, c.as_str()) {
                let mut t = name;
                t.append("\n");
                return Some(t);
            } else {
                return None;
            }
        }
        let ls = lines(c.as_str());
        let n = ls.len();
        let s: usize = match f.start_line { Some(v) => v, None => 1 };
        let e: usize = match f.end_line { Some(v) => v, None => n };
        let hi: usize = if e < n { e } else { n };
        let lo: usize = if s < hi { s } else { hi };
        let lo1: usize = if lo > 1 { lo } else { 1 };
        let hs = collect_hits(&ls, lo1 - 1, hi, m);
        if hs.len() == 0 {
            return None;
        }
        if self.output_mode == "paths_with_content".to_string() {
            let mut t = "--- ".to_string();
            t.append(name.as_str());
            t.append(" ---\n");
            push_listing(&mut t, &hs, self.lines_per_file, " more matches)\n");
            t.append("\n");
            Some(t)
        } else if self.output_mode == "file_paths_with_content".to_string() {
            let mut t = "=== File: ".to_string();
            t.append(name.as_str());
            t.append(" ===\n");
            push_listing(&mut t, &hs, self.lines_per_file, " lines truncated)\n");
            t.append("\n");
            Some(t)
        } else {
            Some(String::new())
        }
    }

    /// Builds the answer from the chosen files and their contents (`None` for
    /// a file that could not be read as text).
    pub fn render(&self, files: &Vec<MatchedFile>, m: &Option<Matcher>, contents: &Vec<Option<String>>) -> (r: ToolOutput)
        requires
            contents.len() == files.len(),
        ensures
            (r.is_error, r.text@) == rendered(self@, files_view(files@), contents_view(contents@), opt_matcher_view(*m)),
    {
        let ghost fv = files_view(files@);
        let ghost cv = contents_view(contents@);
        let ghost mv = opt_matcher_view(*m);
        let mut text = String::new();
        let mut count: usize = 0;
        let mut i: usize = 0;
        while i < files.len()
            invariant
                contents.len() == files.len(),
                i <= files.len(),
                count <= i,
                fv == files_view(files@),
                cv == contents_view(contents@),
                mv == opt_matcher_view(*m),
                (text@, count as nat) == sections(self@, fv.take(i as int), cv.take(i as int), mv),
            decreases files.len() - i,
        {
            assert(fv.take(i + 1).drop_last() == fv.take(i as int));
            assert(cv.take(i + 1).drop_last() == cv.take(i as int));
            assert(fv.take(i + 1).last() == files@[i as int]@);
            assert(cv.take(i + 1)[i as int] == opt_string_view(contents@[i as int]));
            match self.section_of(&files[i], &contents[i], m) {
                Some(t) => {
                    text.append(t.as_str());
                    count = count + 1;
                },
                None => {},
            }
            i = i + 1;
        }
        assert(fv.take(files.len() as int) == fv);
        assert(cv.take(files.len() as int) == cv);
        if count == 0 {
            ToolOutput { is_error: false, text: "No content matches found inside the files.".to_string() }
        } else {
            ToolOutput { is_error: false, text }
        }
    }
}


/// The path of a pattern is what stands before its first `#`: it holds no
/// `#`, and is the whole pattern, with no line range, when there is none.
pub proof fn law_suffix_path_before_hash(p: Seq<char>)
    ensures
        !suffix_range_of(p).path.contains('#'),
        !p.contains('#') ==> suffix_range_of(p) == (SuffixRangeView { path: p, start_line: None, end_line: None }),
        p.contains('#') ==> {
            let n = suffix_range_of(p).path.len() as int;
            &&& n < p.len()
            &&& p.take(n) == suffix_range_of(p).path
            &&& p[n] == '#'
        },
{
    crate::text::lemma_first_index_of(p, '#');
    match first_index_of(p, '#') {
        Some(h) => {
            assert(p[h] == '#');
            assert forall|j: int| 0 <= j < p.take(h).len() implies p.take(h)[j] != '#' by {}
        },
        None => {
            if p.contains('#') {
                let j = choose|j: int| 0 <= j < p.len() && p[j] == '#';
                assert(p[j] != '#');
            }
        },
    }
}

/// A glob with no wildcard and no regex metacharacter matches just itself:
/// its regex is the glob between the anchors.
pub proof fn law_plain_glob_is_literal(g: Seq<char>)
    requires
        forall|i: int| 0 <= i < g.len() ==> g[i] != '*' && g[i] != '?' && !is_regex_meta(#[trigger] g[i]),
    ensures
        glob_regex(g) == seq!['^'] + g + seq!['$'],
{
    lemma_plain_glob_body(g);
}

proof fn lemma_plain_glob_body(g: Seq<char>)
    requires
        forall|i: int| 0 <= i < g.len() ==> g[i] != '*' && g[i] != '?' && !is_regex_meta(#[trigger] g[i]),
    ensures
        glob_body(g) == g,
    decreases g.len(),
{
    if g.len() > 0 {
        assert(g[0] != '*' && g[0] != '?' && !is_regex_meta(g[0]));
        assert forall|i: int| 0 <= i < g.skip(1).len() implies g.skip(1)[i] != '*' && g.skip(1)[i] != '?' && !is_regex_meta(#[trigger] g.skip(1)[i]) by {
            assert(g.skip(1)[i] == g[i + 1]);
        }
        lemma_plain_glob_body(g.skip(1));
        assert(seq![g[0]] + g.skip(1) =~= g);
    }
}


/// The files taken from the exact candidates `cands` after `acc`, where
/// `is_file[i]` tells whether `cands[i]` exists: as `record_exact` is used,
/// each existing one is added while fewer than `limit` are taken, and the
/// taking stops once `record_exact` says no more may be taken.
pub open spec fn take_exact(limit: nat, acc: Seq<MatchedFileView>, cands: Seq<MatchedFileView>, is_file: Seq<bool>) -> Seq<MatchedFileView>
    decreases cands.len(),
{
    if cands.len() == 0 {
        acc
    } else if is_file[0] {
        let next = if acc.len() < limit { acc.push(cands[0]) } else { acc };
        if next.len() < limit { take_exact(limit, next, cands.drop_first(), is_file.drop_first()) } else { next }
    } else {
        take_exact(limit, acc, cands.drop_first(), is_file.drop_first())
    }
}

/// The files after offering the walked files `walked` to `record_walked`
/// in order, stopping when it says so.
pub open spec fn take_walked(plan: PlanView, acc: Seq<MatchedFileView>, walked: Seq<Seq<char>>) -> Seq<MatchedFileView>
    decreases walked.len(),
{
    if walked.len() == 0 {
        acc
    } else if walk_takes(plan, acc, walked[0]) {
        let next = acc.push(MatchedFileView { path: walked[0], start_line: None, end_line: None });
        if next.len() < plan.file_limit { take_walked(plan, next, walked.drop_first()) } else { next }
    } else {
        take_walked(plan, acc, walked.drop_first())
    }
}

/// The files a search chooses, given which exact candidates exist and the
/// files the walk finds, in walk order.
pub open spec fn chosen_files(plan: PlanView, is_file: Seq<bool>, walked: Seq<Seq<char>>) -> Seq<MatchedFileView> {
    let exact = take_exact(plan.file_limit, seq![], exact_files(plan.root, plan.targets), is_file);
    if plan.globs.len() > 0 && exact.len() < plan.file_limit {
        take_walked(plan, exact, walked)
    } else {
        exact
    }
}

proof fn lemma_take_exact_bound(limit: nat, acc: Seq<MatchedFileView>, cands: Seq<MatchedFileView>, is_file: Seq<bool>)
    requires
        acc.len() <= limit,
    ensures
        take_exact(limit, acc, cands, is_file).len() <= limit,
    decreases cands.len(),
{
    if cands.len() > 0 {
        if is_file[0] {
            let next = if acc.len() < limit { acc.push(cands[0]) } else { acc };
            if next.len() < limit {
                lemma_take_exact_bound(limit, next, cands.drop_first(), is_file.drop_first());
            }
        } else {
            lemma_take_exact_bound(limit, acc, cands.drop_first(), is_file.drop_first());
        }
    }
}

proof fn lemma_take_walked(plan: PlanView, acc: Seq<MatchedFileView>, walked: Seq<Seq<char>>)
    requires
        acc.len() < plan.file_limit,
    ensures
        take_walked(plan, acc, walked).len() <= plan.file_limit,
        acc.is_prefix_of(take_walked(plan, acc, walked)),
        forall|k: int, j: int| acc.len() <= k < take_walked(plan, acc, walked).len() && 0 <= j < k
            ==> !path_eq(#[trigger] take_walked(plan, acc, walked)[j].path, #[trigger] take_walked(plan, acc, walked)[k].path),
    decreases walked.len(),
{
    let r = take_walked(plan, acc, walked);
    if walked.len() > 0 {
        if walk_takes(plan, acc, walked[0]) {
            let f = MatchedFileView { path: walked[0], start_line: None, end_line: None };
            let next = acc.push(f);
            assert(!already_chosen(acc, walked[0]));
            if next.len() < plan.file_limit {
                lemma_take_walked(plan, next, walked.drop_first());
                assert forall|k: int, j: int| acc.len() <= k < r.len() && 0 <= j < k
                    implies !path_eq(#[trigger] r[j].path, #[trigger] r[k].path) by {
                    if k == acc.len() {
                        assert(r.subrange(0, next.len() as int)[k] == r[k]);
                        assert(r.subrange(0, next.len() as int)[j] == r[j]);
                        assert(next[j] == acc[j]);
                        if path_eq(acc[j].path, walked[0]) {
                            assert(already_chosen(acc, walked[0]));
                        }
                    }
                }
            } else {
                assert forall|k: int, j: int| acc.len() <= k < r.len() && 0 <= j < k
                    implies !path_eq(#[trigger] r[j].path, #[trigger] r[k].path) by {
                    assert(k == acc.len());
                    assert(r[j] == acc[j]);
                    if path_eq(acc[j].path, walked[0]) {
                        assert(already_chosen(acc, walked[0]));
                    }
                }
            }
        } else {
            lemma_take_walked(plan, acc, walked.drop_first());
        }
    }
}

/// A search chooses at most `file_limit` files (none when the limit is 0).
/// Each file the walk adds differs, as a path, from every file before it.
pub proof fn law_chosen_files(plan: PlanView, is_file: Seq<bool>, walked: Seq<Seq<char>>)
    ensures
        chosen_files(plan, is_file, walked).len() <= plan.file_limit,
        ({
            let exact = take_exact(plan.file_limit, seq![], exact_files(plan.root, plan.targets), is_file);
            let all = chosen_files(plan, is_file, walked);
            &&& exact.is_prefix_of(all)
            &&& forall|k: int, j: int| exact.len() <= k < all.len() && 0 <= j < k
                ==> !path_eq(#[trigger] all[j].path, #[trigger] all[k].path)
        }),
{
    let exact = take_exact(plan.file_limit, seq![], exact_files(plan.root, plan.targets), is_file);
    lemma_take_exact_bound(plan.file_limit, seq![], exact_files(plan.root, plan.targets), is_file);
    if plan.globs.len() > 0 && exact.len() < plan.file_limit {
        lemma_take_walked(plan, exact, walked);
    } else {
        assert(exact.is_prefix_of(exact));
    }
}


/// How many times `c` occurs in `s`.
pub open spec fn count_char(s: Seq<char>, c: char) -> nat
    decreases s.len(),
{
    if s.len() == 0 {
        0
    } else {
        count_char(s.drop_last(), c) + (if s.last() == c { 1nat } else { 0nat })
    }
}

proof fn lemma_count_concat(a: Seq<char>, b: Seq<char>, c: char)
    ensures
        count_char(a + b, c) == count_char(a, c) + count_char(b, c),
    decreases b.len(),
{
    if b.len() > 0 {
        lemma_count_concat(a, b.drop_last(), c);
        assert((a + b).drop_last() =~= a + b.drop_last());
    }
}

proof fn lemma_count_absent(s: Seq<char>, c: char)
    requires
        !s.contains(c),
    ensures
        count_char(s, c) == 0,
    decreases s.len(),
{
    if s.len() > 0 {
        assert(s.drop_last().len() < s.len());
        assert(!s.drop_last().contains(c)) by {
            if s.drop_last().contains(c) {
                let j = choose|j: int| 0 <= j < s.drop_last().len() && s.drop_last()[j] == c;
                assert(s[j] == c);
            }
        }
        assert(s.last() != c) by {
            assert(s[s.len() - 1] == s.last());
        }
        lemma_count_absent(s.drop_last(), c);
    }
}

proof fn lemma_split_lines_plain(pending: Seq<char>, rest: Seq<char>)
    requires
        !pending.contains('\n'),
    ensures
        forall|k: int| 0 <= k < split_lines(pending, rest).len()
            ==> !(#[trigger] split_lines(pending, rest)[k]).contains('\n'),
    decreases rest.len(),
{
    if rest.len() == 0 {
        let r = split_lines(pending, rest);
        assert forall|k: int| 0 <= k < r.len() implies !(#[trigger] r[k]).contains('\n') by {
            assert(r[k] == pending);
        }
    } else if rest[0] == '\n' {
        let e: Seq<char> = seq![];
        assert(!e.contains('\n'));
        lemma_split_lines_plain(e, rest.drop_first());
        let t = strip_cr(pending);
        assert(!t.contains('\n')) by {
            if t.contains('\n') {
                let j = choose|j: int| 0 <= j < t.len() && t[j] == '\n';
                assert(pending[j] == '\n');
            }
        }
        let r = split_lines(pending, rest);
        assert forall|k: int| 0 <= k < r.len() implies !(#[trigger] r[k]).contains('\n') by {
            if k > 0 {
                assert(r[k] == split_lines(e, rest.drop_first())[k - 1]);
            }
        }
    } else {
        let p2 = pending.push(rest[0]);
        assert(!p2.contains('\n')) by {
            if p2.contains('\n') {
                let j = choose|j: int| 0 <= j < p2.len() && p2[j] == '\n';
                if j < pending.len() {
                    assert(pending[j] == '\n');
                }
            }
        }
        lemma_split_lines_plain(p2, rest.drop_first());
        assert(split_lines(pending, rest) == split_lines(p2, rest.drop_first()));
    }
}

proof fn lemma_hits_plain(ls: Seq<Seq<char>>, from: int, to: int, m: Option<MatcherView>)
    requires
        0 <= from,
        to <= ls.len(),
        forall|k: int| 0 <= k < ls.len() ==> !(#[trigger] ls[k]).contains('\n'),
    ensures
        forall|k: int| 0 <= k < hits(ls, from, to, m).len() ==> !(#[trigger] hits(ls, from, to, m)[k]).1.contains('\n'),
    decreases to - from,
{
    if to > from {
        lemma_hits_plain(ls, from, to - 1, m);
        let h = hits(ls, from, to, m);
        let before = hits(ls, from, to - 1, m);
        assert forall|k: int| 0 <= k < h.len() implies !(#[trigger] h[k]).1.contains('\n') by {
            if k < before.len() {
                assert(h[k] == before[k]);
            } else {
                assert(h[k].1 == ls[to - 1]);
            }
        }
    }
}

proof fn lemma_numbered_count(hs: Seq<(nat, Seq<char>)>)
    requires
        forall|k: int| 0 <= k < hs.len() ==> !(#[trigger] hs[k]).1.contains('\n'),
    ensures
        count_char(numbered(hs), '\n') == hs.len(),
    decreases hs.len(),
{
    if hs.len() > 0 {
        let rest = hs.drop_last();
        assert forall|k: int| 0 <= k < rest.len() implies !(#[trigger] rest[k]).1.contains('\n') by {
            assert(rest[k] == hs[k]);
        }
        lemma_numbered_count(rest);
        let last = hs.last();
        assert(!last.1.contains('\n')) by {
            assert(hs[hs.len() - 1] == last);
        }
        crate::text::lemma_decimal_lacks(last.0, '\n');
        let num = pad_left(decimal(last.0), 4);
        assert(!num.contains('\n')) by {
            if num.contains('\n') {
                let j = choose|j: int| 0 <= j < num.len() && num[j] == '\n';
                let d = decimal(last.0);
                if d.len() < 4 {
                    let sp = Seq::new((4 - d.len()) as nat, |i: int| ' ');
                    if j >= sp.len() {
                        assert(d[j - sp.len()] == '\n');
                    }
                }
            }
        }
        reveal_strlit(": ");
        reveal_strlit("\n");
        let sep = ": "@;
        let nl = "\n"@;
        assert(!sep.contains('\n')) by {
            if sep.contains('\n') {
                let j = choose|j: int| 0 <= j < sep.len() && sep[j] == '\n';
            }
        }
        lemma_count_absent(num, '\n');
        lemma_count_absent(sep, '\n');
        lemma_count_absent(last.1, '\n');
        lemma_count_concat(numbered(rest), num, '\n');
        lemma_count_concat(numbered(rest) + num, sep, '\n');
        lemma_count_concat(numbered(rest) + num + sep, last.1, '\n');
        lemma_count_concat(numbered(rest) + num + sep + last.1, nl, '\n');
        assert(nl.len() == 1);
        assert(nl[0] == '\n');
        assert(nl.drop_last() =~= Seq::<char>::empty());
        assert(count_char(nl.drop_last(), '\n') == 0);
        assert(nl.last() == '\n');
        assert(count_char(nl, '\n') == 1);
    }
}

/// A file's listing holds at most `lines_per_file` numbered lines, one line
/// of output each: the lines of a file never contain a line break.
pub proof fn law_lines_per_file(plan: PlanView, f: MatchedFileView, c: Seq<char>, m: Option<MatcherView>)
    ensures
        ({
            let ls = lines_of(c);
            let w = line_window(f.start_line, f.end_line, ls.len());
            let hs = hits(ls, w.0, w.1, m);
            let n = if hs.len() < plan.lines_per_file { hs.len() } else { plan.lines_per_file };
            &&& n <= plan.lines_per_file
            &&& count_char(numbered(hs.take(n as int)), '\n') == n
        }),
{
    let ls = lines_of(c);
    let e: Seq<char> = seq![];
    assert(!e.contains('\n'));
    lemma_split_lines_plain(e, c);
    let w = line_window(f.start_line, f.end_line, ls.len());
    lemma_hits_plain(ls, w.0, w.1, m);
    let hs = hits(ls, w.0, w.1, m);
    let n = if hs.len() < plan.lines_per_file { hs.len() } else { plan.lines_per_file };
    let t = hs.take(n as int);
    assert forall|k: int| 0 <= k < t.len() implies !(#[trigger] t[k]).1.contains('\n') by {
        assert(t[k] == hs[k]);
    }
    lemma_numbered_count(t);
}


/// Writing a path without `#` with a line range and splitting it again
/// gives back the path and the numbers: `p#s-e`, `p#s` and `p` alone.
pub proof fn law_suffix_range_round_trip(p: Seq<char>, s: usize, e: usize)
    requires
        !p.contains('#'),
    ensures
        suffix_range_of(p + seq!['#'] + decimal(s as nat) + seq!['-'] + decimal(e as nat))
            == (SuffixRangeView { path: p, start_line: Some(s), end_line: Some(e) }),
        suffix_range_of(p + seq!['#'] + decimal(s as nat))
            == (SuffixRangeView { path: p, start_line: Some(s), end_line: None }),
        suffix_range_of(p) == (SuffixRangeView { path: p, start_line: None, end_line: None }),
{
    let ds = decimal(s as nat);
    let de = decimal(e as nat);
    crate::text::lemma_parse_decimal(s);
    crate::text::lemma_parse_decimal(e);
    crate::text::lemma_decimal_lacks(s as nat, '-');
    crate::text::lemma_decimal_lacks(s as nat, '#');
    crate::text::lemma_first_index_of_absent(p, '#');

    // p#s-e
    let r1 = ds + seq!['-'] + de;
    let w1 = p + seq!['#'] + ds + seq!['-'] + de;
    assert(w1 == p + (seq!['#'] + r1));
    crate::text::lemma_first_index_of_concat(p, seq!['#'] + r1, '#');
    assert(first_index_of(seq!['#'] + r1, '#') == Some(0int));
    assert(w1.skip(p.len() as int + 1) == r1);
    assert(w1.take(p.len() as int) == p);
    assert(r1 == ds + (seq!['-'] + de));
    crate::text::lemma_first_index_of_concat(ds, seq!['-'] + de, '-');
    assert(first_index_of(seq!['-'] + de, '-') == Some(0int));
    assert(r1.take(ds.len() as int) == ds);
    assert(r1.skip(ds.len() as int + 1) == de);

    // p#s
    let w2 = p + seq!['#'] + ds;
    assert(w2 == p + (seq!['#'] + ds));
    crate::text::lemma_first_index_of_concat(p, seq!['#'] + ds, '#');
    assert(first_index_of(seq!['#'] + ds, '#') == Some(0int));
    assert(w2.skip(p.len() as int + 1) == ds);
    assert(w2.take(p.len() as int) == p);
    crate::text::lemma_first_index_of_absent(ds, '-');
}


/// With a start line and no end line, the lines looked at run from the start
/// line to the last line of the file; with neither, the whole file.
pub proof fn law_open_range_runs_to_end(s: usize, n: nat)
    requires
        1 <= s <= n,
    ensures
        line_window(Some(s), None, n) == (s - 1, n as int),
        line_window(None, None, n) == (0int, n as int),
{
}

/// Without a content filter, the lines `from..to` are all listed, in order,
/// each with its 1-based number.
pub proof fn law_unfiltered_hits(ls: Seq<Seq<char>>, from: int, to: int)
    requires
        0 <= from <= to <= ls.len(),
    ensures
        hits(ls, from, to, None).len() == to - from,
        forall|i: int| 0 <= i < to - from ==> #[trigger] hits(ls, from, to, None)[i] == ((from + i + 1) as nat, ls[from + i]),
    decreases to - from,
{
    if to > from {
        law_unfiltered_hits(ls, from, to - 1);
        let h = hits(ls, from, to, None);
        let before = hits(ls, from, to - 1, None);
        assert forall|i: int| 0 <= i < to - from implies #[trigger] h[i] == ((from + i + 1) as nat, ls[from + i]) by {
            if i < to - 1 - from {
                assert(h[i] == before[i]);
            }
        }
    }
}

/// A file named with a start line `s` and no end line lists, without a
/// content filter, its lines `s` to the last one: `n - s + 1` lines, the
/// `i`-th being line `s + i`.
pub proof fn law_start_line_lists_to_end(c: Seq<char>, s: usize)
    requires
        1 <= s <= lines_of(c).len(),
    ensures
        ({
            let ls = lines_of(c);
            let w = line_window(Some(s), None, ls.len());
            let hs = hits(ls, w.0, w.1, None);
            &&& hs.len() == ls.len() - s + 1
            &&& forall|i: int| 0 <= i < hs.len() ==> #[trigger] hs[i] == ((s + i) as nat, ls[s - 1 + i])
        }),
{
    let ls = lines_of(c);
    law_open_range_runs_to_end(s, ls.len());
    law_unfiltered_hits(ls, s - 1, ls.len() as int);
}

/// The walk adds a file under the root exactly when one of the globs, any of
/// them, matches its path relative to the root and no chosen file has the
/// same path.
pub proof fn law_walk_takes_any_glob(plan: PlanView, files: Seq<MatchedFileView>, full: Seq<char>)
    ensures
        walk_takes(plan, files, full) <==> (exists|rel: Seq<char>| {
            &&& path_strip_prefix(full, plan.root) == Some(rel)
            &&& exists|i: int| 0 <= i < plan.globs.len() && #[trigger] regex_is_match(
                plan.globs[i].source, plan.globs[i].case_insensitive, plan.globs[i].multi_line, rel)
            &&& !exists|k: int| 0 <= k < files.len() && #[trigger] path_eq(files[k].path, full)
        }),
{
    match path_strip_prefix(full, plan.root) {
        Some(rel) => {
            if walk_takes(plan, files, full) {
                let i = choose|i: int| 0 <= i < plan.globs.len() && regex_is_match(
                    #[trigger] plan.globs[i].source, plan.globs[i].case_insensitive, plan.globs[i].multi_line, rel);
                assert(regex_is_match(plan.globs[i].source, plan.globs[i].case_insensitive, plan.globs[i].multi_line, rel));
            }
        },
        None => {},
    }
}

/// The content matcher is compiled from the content regex with the search's
/// own case and multi-line flags, each in its place; it exists exactly when
/// some file was chosen, a content regex is given, and it compiles with
/// those flags.
pub proof fn law_prepare_keeps_flags(plan: PlanView, n: nat)
    ensures
        prepared(plan, n) matches Ok(Some(m)) ==> {
            &&& plan.content_regex == Some(m.source)
            &&& m.case_insensitive == plan.case_insensitive
            &&& m.multi_line == plan.multiline
        },
        n > 0 ==> match plan.content_regex {
            None => prepared(plan, n) == Ok::<Option<MatcherView>, (bool, Seq<char>)>(None),
            Some(r) => match regex_build_error(r, plan.case_insensitive, plan.multiline) {
                None => prepared(plan, n) == Ok::<Option<MatcherView>, (bool, Seq<char>)>(Some(
                    MatcherView { source: r, case_insensitive: plan.case_insensitive, multi_line: plan.multiline },
                )),
                Some(msg) => prepared(plan, n) == Err::<Option<MatcherView>, (bool, Seq<char>)>(
                    (true, "Invalid content_regex: "@ + msg),
                ),
            },
        },
{
}

} // verus!
