//! Compiled regular expressions and the translation of file globs into them.

use vstd::prelude::*;
use crate::text::push_char;

verus! {

#[verifier::external_type_specification]
#[verifier::external_body]
pub struct ExRegex(regex::Regex);

/// The error message that `regex::RegexBuilder::build` gives for `pattern`
/// with the case-insensitive and multi-line flags, or `None` when the
/// pattern compiles.
pub uninterp spec fn regex_build_error(pattern: Seq<char>, case_insensitive: bool, multi_line: bool) -> Option<Seq<char>>;

/// Whether the regex compiled from `pattern` with the two flags finds a
/// match anywhere in `haystack` (`regex::Regex::is_match`).
pub uninterp spec fn regex_is_match(pattern: Seq<char>, case_insensitive: bool, multi_line: bool, haystack: Seq<char>) -> bool;

/// What a compiled expression stands for: its source and its flags.
pub struct MatcherView {
    pub source: Seq<char>,
    pub case_insensitive: bool,
    pub multi_line: bool,
}

/// A regular expression compiled from `source` with the two flags.
pub struct Matcher {
    regex: regex::Regex,
    source: String,
    case_insensitive: bool,
    multi_line: bool,
}

impl View for Matcher {
    type V = MatcherView;

    closed spec fn view(&self) -> MatcherView {
        MatcherView {
            source: self.source@,
            case_insensitive: self.case_insensitive,
            multi_line: self.multi_line,
        }
    }
}

/// An expression that does not compile, with the message of the regex crate.
#[derive(Debug)]
pub struct PatternError {
    pub message: String,
}

/// Compiles `pattern` with `regex::RegexBuilder`, setting
/// `case_insensitive` and `multi_line`, and keeps the compiled regex together
/// with the source and flags it was built from; on failure gives the error's
/// `Display` text. Claimed: the call fails exactly when `regex_build_error`
/// names a message, and that message is the one given.
#[verifier::external_body]
fn build_regex(pattern: &str, case_insensitive: bool, multi_line: bool) -> (r: Result<Matcher, String>)
    ensures
        match r {
            Ok(m) => regex_build_error(pattern@, case_insensitive, multi_line) is None
                && m@ == (MatcherView { source: pattern@, case_insensitive, multi_line }),
            Err(msg) => regex_build_error(pattern@, case_insensitive, multi_line) == Some(msg@),
        },
{
    match regex::RegexBuilder::new(pattern)
        .case_insensitive(case_insensitive)
        .multi_line(multi_line)
        .build()
    {
        Ok(regex) => Ok(Matcher { regex, source: pattern.to_string(), case_insensitive, multi_line }),
        Err(e) => Err(e.to_string()),
    }
}

/// Calls `regex::Regex::is_match` on the expression that `m` holds. Claimed:
/// the answer is `regex_is_match` of the source and flags that `m` was
/// compiled from (`build_regex` is the only place that makes a `Matcher`,
/// and it keeps the two together).
#[verifier::external_body]
fn regex_find(m: &Matcher, haystack: &str) -> (b: bool)
    ensures
        b == regex_is_match(m@.source, m@.case_insensitive, m@.multi_line, haystack@),
{
    m.regex.is_match(haystack)
}

impl Matcher {
    /// Compiles `pattern` with the given flags.
    pub fn compile(pattern: &str, case_insensitive: bool, multi_line: bool) -> (r: Result<Matcher, PatternError>)
        ensures
            match r {
                Ok(m) => regex_build_error(pattern@, case_insensitive, multi_line) is None
                    && m@ == (MatcherView { source: pattern@, case_insensitive, multi_line }),
                Err(e) => regex_build_error(pattern@, case_insensitive, multi_line) == Some(e.message@),
            },
    {
        match build_regex(pattern, case_insensitive, multi_line) {
            Ok(m) => Ok(m),
            Err(message) => Err(PatternError { message }),
        }
    }

    /// Whether the expression matches somewhere in `haystack`.
    pub fn is_match(&self, haystack: &str) -> (b: bool)
        ensures
            b == regex_is_match(self@.source, self@.case_insensitive, self@.multi_line, haystack@),
    {
        regex_find(self, haystack)
    }
}

/// Characters that stand for themselves in a glob but have a meaning in a regex.
pub open spec fn is_regex_meta(c: char) -> bool {
    c == '.' || c == '+' || c == '(' || c == ')' || c == '|' || c == '[' || c == ']'
        || c == '{' || c == '}' || c == '\\' || c == '^' || c == '$'
}

/// The regex text for the glob `g`: `**/` is any run of directories, `**`
/// any text, `*` any text within one path segment, `?` one character other
/// than `/`, regex metacharacters are escaped, and the rest stands for itself.
pub open spec fn glob_body(g: Seq<char>) -> Seq<char>
    decreases g.len(),
{
    if g.len() == 0 {
        seq![]
    } else if g[0] == '*' {
        if g.len() > 1 && g[1] == '*' {
            if g.len() > 2 && g[2] == '/' {
                seq!['(', '?', ':', '.', '*', '/', ')', '?'] + glob_body(g.skip(3))
            } else {
                seq!['.', '*'] + glob_body(g.skip(2))
            }
        } else {
            seq!['[', '^', '/', ']', '*'] + glob_body(g.skip(1))
        }
    } else if g[0] == '?' {
        seq!['[', '^', '/', ']'] + glob_body(g.skip(1))
    } else if is_regex_meta(g[0]) {
        seq!['\\', g[0]] + glob_body(g.skip(1))
    } else {
        seq![g[0]] + glob_body(g.skip(1))
    }
}

/// The anchored regex text for the glob `g`: it must match a whole path.
pub open spec fn glob_regex(g: Seq<char>) -> Seq<char> {
    seq!['^'] + glob_body(g) + seq!['$']
}

fn push_all(out: &mut String, piece: &[char])
    ensures
        final(out)@ == old(out)@ + piece@,
{
    let mut k: usize = 0;
    while k < piece.len()
        invariant
            k <= piece.len(),
            out@ == old(out)@ + piece@.take(k as int),
        decreases piece.len() - k,
    {
        push_char(out, piece[k]);
        k = k + 1;
        assert(piece@.take(k as int) == piece@.take((k - 1) as int).push(piece@[k - 1]));
    }
    assert(piece@.take(piece.len() as int) == piece@);
}

/// Translates the glob `glob` into the text of an anchored regex.
pub fn glob_to_regex(glob: &str) -> (r: String)
    ensures
        r@ == glob_regex(glob@),
{
    let g = crate::text::chars_of(glob);
    let mut out = String::new();
    push_char(&mut out, '^');
    let mut i: usize = 0;
    assert(g@.skip(0) == g@);
    while i < g.len()
        invariant
            g@ == glob@,
            i <= g.len(),
            seq!['^'] + glob_body(g@) == out@ + glob_body(g@.skip(i as int)),
        decreases g.len() - i,
    {
        let ghost rest = g@.skip(i as int);
        let ghost before = out@;
        assert(rest[0] == g@[i as int]);
        let c = g[i];
        if c == '*' {
            if i + 1 < g.len() && g[i + 1] == '*' {
                assert(rest[1] == g@[i + 1]);
                if i + 2 < g.len() && g[i + 2] == '/' {
                    assert(rest[2] == g@[i + 2]);
                    push_all(&mut out, &['(', '?', ':', '.', '*', '/', ')', '?']);
                    assert(rest.skip(3) == g@.skip(i + 3));
                    i = i + 3;
                } else {
                    push_all(&mut out, &['.', '*']);
                    assert(rest.skip(2) == g@.skip(i + 2));
                    i = i + 2;
                }
            } else {
                push_all(&mut out, &['[', '^', '/', ']', '*']);
                assert(rest.skip(1) == g@.skip(i + 1));
                i = i + 1;
            }
        } else if c == '?' {
            push_all(&mut out, &['[', '^', '/', ']']);
            assert(rest.skip(1) == g@.skip(i + 1));
            i = i + 1;
        } else {
            if c == '.' || c == '+' || c == '(' || c == ')' || c == '|' || c == '[' || c == ']'
                || c == '{' || c == '}' || c == '\\' || c == '^' || c == '$' {
                push_char(&mut out, '\\');
            }
            push_char(&mut out, c);
            assert(rest.skip(1) == g@.skip(i + 1));
            i = i + 1;
        }
        assert(before + glob_body(rest) == out@ + glob_body(g@.skip(i as int)));
    }
    push_char(&mut out, '$');
    out
}

/// Compiles the glob `glob` into a case-insensitive regex that must match a
/// whole path.
pub fn compile_glob(glob: &str) -> (r: Result<Matcher, PatternError>)
    ensures
        match r {
            Ok(m) => regex_build_error(glob_regex(glob@), true, false) is None
                && m@ == (MatcherView { source: glob_regex(glob@), case_insensitive: true, multi_line: false }),
            Err(e) => regex_build_error(glob_regex(glob@), true, false) == Some(e.message@),
        },
{
    let source = glob_to_regex(glob);
    Matcher::compile(source.as_str(), true, false)
}


/// Every glob's regex is its translation between the two anchors, wherever
/// a `**/` stands; a leading `**/` becomes the optional group `(?:.*/)?`, so
/// it also stands for no directory at all.
pub proof fn law_glob_anchored(g: Seq<char>)
    ensures
        glob_regex(g) == seq!['^'] + glob_body(g) + seq!['$'],
        glob_regex(seq!['*', '*', '/'] + g)
            == seq!['^', '(', '?', ':', '.', '*', '/', ')', '?'] + glob_body(g) + seq!['$'],
{
    let h = seq!['*', '*', '/'] + g;
    assert(h[0] == '*' && h[1] == '*' && h[2] == '/');
    assert(h.skip(3) =~= g);
    assert(seq!['^'] + (seq!['(', '?', ':', '.', '*', '/', ')', '?'] + glob_body(g)) + seq!['$']
        =~= seq!['^', '(', '?', ':', '.', '*', '/', ')', '?'] + glob_body(g) + seq!['$']);
}

/// A part without `*` translates on its own: the translation of `a` followed
/// by `b` is that of `a` followed by that of `b`.
pub proof fn law_glob_body_concat(a: Seq<char>, b: Seq<char>)
    requires
        !a.contains('*'),
    ensures
        glob_body(a + b) == glob_body(a) + glob_body(b),
    decreases a.len(),
{
    if a.len() == 0 {
        assert(a + b =~= b);
    } else {
        assert(a[0] != '*');
        assert((a + b)[0] == a[0]);
        assert((a + b).skip(1) =~= a.skip(1) + b);
        assert(!a.skip(1).contains('*')) by {
            if a.skip(1).contains('*') {
                let j = choose|j: int| 0 <= j < a.skip(1).len() && a.skip(1)[j] == '*';
                assert(a[j + 1] == '*');
            }
        }
        law_glob_body_concat(a.skip(1), b);
    }
}

} // verus!
