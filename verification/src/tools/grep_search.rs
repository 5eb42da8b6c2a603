//! Searching the lines of files.
use crate::patterns;
use crate::text;
use crate::tools::registry;
use crate::tools::registry::{HandlerModel, ToolAction, ToolHandler};
use vstd::prelude::*;

verus! {

/// How many lines are given where nothing else is said.
pub const DEFAULT_GREP_LIMIT: usize = 200;

pub const GREP_DESCRIPTION: &'static str = "Search file contents with a regex pattern for code discovery.";

pub const GREP_SCHEMA: &'static str = r#"{
  "type": "object",
  "properties": {
    "pattern": {
      "type": "string",
      "description": "Required search pattern as a JSON string. Example: \".*\" or \"README\". Use plain text when is_regexp=false."
    },
    "path": {
      "type": "string",
      "description": "Root path to search recursively. Example: \".\". Defaults to current directory."
    },
    "glob": {
      "type": "string",
      "description": "Optional glob filter as a JSON string. Example: \"**/*.rs\""
    },
    "case_insensitive": {
      "type": "boolean",
      "description": "Case-insensitive matching. Use true or false."
    },
    "is_regexp": {
      "type": "boolean",
      "description": "If false, pattern is treated as plain text and escaped before matching. Use true or false."
    },
    "line_numbers": {
      "type": "boolean",
      "description": "Include matched line number. Use true or false."
    },
    "head_limit": {
      "type": "integer",
      "description": "Maximum number of matches returned. Use an integer such as 10 or 30."
    }
  },
  "required": ["pattern"],
  "additionalProperties": false
}"#;

/// What is searched for, and where.
#[derive(Debug)]
pub struct GrepSearchInput {
    pub pattern: String,
    pub path: Option<String>,
    pub glob: Option<String>,
    pub case_insensitive: bool,
    pub is_regexp: bool,
    pub line_numbers: bool,
    pub head_limit: usize,
}

/// What is searched for, and where.
#[verifier::ext_equal]
pub struct GrepInputModel {
    pub pattern: Seq<char>,
    pub path: Option<Seq<char>>,
    pub glob: Option<Seq<char>>,
    pub case_insensitive: bool,
    pub is_regexp: bool,
    pub line_numbers: bool,
    pub head_limit: int,
}

impl DeepView for GrepSearchInput {
    type V = GrepInputModel;

    open spec fn deep_view(&self) -> GrepInputModel {
        GrepInputModel {
            pattern: self.pattern@,
            path: self.path.deep_view(),
            glob: self.glob.deep_view(),
            case_insensitive: self.case_insensitive,
            is_regexp: self.is_regexp,
            line_numbers: self.line_numbers,
            head_limit: self.head_limit as int,
        }
    }
}

/// A line that was found.
#[derive(Debug)]
pub struct GrepSearchMatch {
    pub path: String,
    pub line: Option<usize>,
    pub text: String,
}

/// A line that was found.
#[verifier::ext_equal]
pub struct GrepMatchModel {
    pub path: Seq<char>,
    pub line: Option<int>,
    pub text: Seq<char>,
}

impl DeepView for GrepSearchMatch {
    type V = GrepMatchModel;

    open spec fn deep_view(&self) -> GrepMatchModel {
        GrepMatchModel {
            path: self.path@,
            line: match self.line {
                Some(n) => Some(n as int),
                None => None,
            },
            text: self.text@,
        }
    }
}

/// The lines that were found.
#[derive(Debug)]
pub struct GrepSearchOutput {
    pub query: String,
    pub total_matches: usize,
    pub truncated: bool,
    pub matches: Vec<GrepSearchMatch>,
}

/// The pattern that lines are held against.
pub open spec fn line_pattern(input: GrepInputModel) -> Seq<char> {
    if input.is_regexp {
        input.pattern
    } else {
        patterns::regex_escaped(input.pattern)
    }
}

/// A line is found. A plain text that is searched for with regard to case is
/// found where it stands.
pub open spec fn line_hits(input: GrepInputModel, line: Seq<char>) -> bool {
    if !input.is_regexp && !input.case_insensitive {
        text::has_text(line, input.pattern)
    } else {
        patterns::regex_finds(line_pattern(input), input.case_insensitive, line)
    }
}

/// A file is looked at: it lies in no directory of version control or of build
/// results, and its path matches the filter, if there is one.
pub open spec fn file_wanted(input: GrepInputModel, path: Seq<char>) -> bool {
    &&& !text::has_text(path, "/.git/"@)
    &&& !text::has_text(path, "/target/"@)
    &&& match input.glob {
        Some(glob) => patterns::glob_matches(glob, path),
        None => true,
    }
}

/// The line at position `i` of a file as it is given.
pub open spec fn match_at(
    input: GrepInputModel,
    path: Seq<char>,
    file_lines: Seq<Seq<char>>,
    i: int,
) -> GrepMatchModel {
    GrepMatchModel {
        path,
        line: if input.line_numbers {
            Some(i + 1)
        } else {
            None
        },
        text: file_lines[i],
    }
}

/// The lines that are found once the lines of a file from position `at` on have
/// been looked at, and whether there are enough. No more are taken than may be
/// given.
pub open spec fn scanned(
    input: GrepInputModel,
    path: Seq<char>,
    file_lines: Seq<Seq<char>>,
    at: int,
    found: Seq<GrepMatchModel>,
) -> (Seq<GrepMatchModel>, bool)
    decreases file_lines.len() - at,
{
    if at >= file_lines.len() {
        (found, false)
    } else {
        let next = if line_hits(input, file_lines[at]) && found.len() < input.head_limit {
            found.push(match_at(input, path, file_lines, at))
        } else {
            found
        };
        if next.len() >= input.head_limit {
            (next, true)
        } else {
            scanned(input, path, file_lines, at + 1, next)
        }
    }
}

/// Why a search cannot be made.
pub open spec fn grep_problem(input: GrepInputModel) -> Option<Seq<char>> {
    if !patterns::regex_compiles(line_pattern(input), input.case_insensitive) {
        Some("invalid regex pattern: "@ + input.pattern)
    } else {
        match input.glob {
            Some(glob) => if !patterns::glob_parses(glob) {
                Some("invalid glob: "@ + glob)
            } else if !patterns::glob_compiles(glob) {
                Some("failed to compile glob filter"@)
            } else {
                None
            },
            None => None,
        }
    }
}

/// A search under way.
#[derive(Debug)]
pub struct GrepSearch {
    input: GrepSearchInput,
    regex: regex::Regex,
    filter: Option<globset::GlobSet>,
    matches: Vec<GrepSearchMatch>,
    truncated: bool,
}

/// A search under way.
#[verifier::ext_equal]
pub struct GrepModel {
    pub input: GrepInputModel,
    pub matches: Seq<GrepMatchModel>,
    pub truncated: bool,
}

impl View for GrepSearch {
    type V = GrepModel;

    closed spec fn view(&self) -> GrepModel {
        GrepModel {
            input: self.input.deep_view(),
            matches: self.matches.deep_view(),
            truncated: self.truncated,
        }
    }
}

/// A search after a file; one that has enough lines stays as it is.
pub open spec fn after_file(s: GrepModel, path: Seq<char>, content: Seq<char>) -> GrepModel {
    if s.truncated {
        s
    } else {
        let (matches, truncated) = scanned(s.input, path, text::lines(content), 0, s.matches);
        GrepModel { matches, truncated, ..s }
    }
}

impl GrepSearch {
    #[verifier::type_invariant]
    spec fn built_from_input(self) -> bool {
        &&& patterns::regex_source(self.regex) == (
            line_pattern(self.input.deep_view()),
            self.input.case_insensitive,
        )
        &&& match self.filter {
            Some(set) => self.input.deep_view().glob == Some(patterns::glob_of_set(set)),
            None => self.input.deep_view().glob is None,
        }
    }

    /// A search that has found nothing yet.
    pub fn new(input: GrepSearchInput) -> (r: Result<GrepSearch, String>)
        ensures
            match r {
                Ok(s) => grep_problem(input.deep_view()) is None && s@ == (GrepModel {
                    input: input.deep_view(),
                    matches: seq![],
                    truncated: false,
                }),
                Err(e) => grep_problem(input.deep_view()) == Some(e@),
            },
    {
        let pattern = if input.is_regexp {
            input.pattern.clone()
        } else {
            patterns::escape(input.pattern.as_str())
        };
        let regex = match patterns::compile(pattern.as_str(), input.case_insensitive) {
            Some(regex) => regex,
            None => {
                return Err(text::concat("invalid regex pattern: ", input.pattern.as_str()));
            },
        };
        let filter = match &input.glob {
            Some(glob) => match patterns::parse_glob(glob.as_str()) {
                Some(parsed) => match patterns::compile_glob(parsed) {
                    Some(set) => Some(set),
                    None => {
                        return Err(text::owned("failed to compile glob filter"));
                    },
                },
                None => {
                    return Err(text::concat("invalid glob: ", glob.as_str()));
                },
            },
            None => None,
        };
        let matches: Vec<GrepSearchMatch> = Vec::new();
        assert(matches.deep_view() =~= seq![]);
        Ok(GrepSearch { input, regex, filter, matches, truncated: false })
    }

    /// The directory in which the search starts.
    pub fn root(&self) -> (r: String)
        ensures
            r@ == match self@.input.path {
                Some(p) => p,
                None => "."@,
            },
    {
        match &self.input.path {
            Some(p) => p.clone(),
            None => text::owned("."),
        }
    }

    /// Whether a file is looked at.
    pub fn wants_file(&self, path: &str) -> (r: bool)
        ensures
            r == file_wanted(self@.input, path@),
    {
        proof {
            use_type_invariant(self);
        }
        if text::contains(path, "/.git/") || text::contains(path, "/target/") {
            return false;
        }
        match &self.filter {
            Some(set) => patterns::path_matches(set, path),
            None => true,
        }
    }

    /// Looks at the lines of a file. Returns whether there are enough.
    pub fn add_file(&mut self, path: &str, content: &str) -> (stop: bool)
        ensures
            final(self)@ == after_file(old(self)@, path@, content@),
            stop == final(self)@.truncated,
    {
        proof {
            use_type_invariant(&*self);
        }
        if self.truncated {
            return true;
        }
        let file_lines = text::lines_of(content);
        let ghost all = file_lines.deep_view();
        let ghost input = self@.input;
        let ghost start = self@.matches;
        let mut found: Vec<GrepSearchMatch> = Vec::new();
        std::mem::swap(&mut found, &mut self.matches);
        let mut i: usize = 0;
        while i < file_lines.len()
            invariant
                i <= file_lines@.len(),
                all == file_lines.deep_view(),
                all == text::lines(content@),
                input == self.input.deep_view(),
                start == old(self)@.matches,
                input == old(self)@.input,
                !old(self)@.truncated,
                self.truncated == old(self)@.truncated,
                self.built_from_input(),
                scanned(input, path@, all, 0, start) == scanned(
                    input,
                    path@,
                    all,
                    i as int,
                    found.deep_view(),
                ),
            decreases file_lines@.len() - i,
        {
            let ghost before = found.deep_view();
            assert(all[i as int] == file_lines@[i as int]@);
            if found.len() < self.input.head_limit && patterns::finds(
                &self.regex,
                file_lines[i].as_str(),
            ) {
                let line = if self.input.line_numbers {
                    Some(i + 1)
                } else {
                    None
                };
                let hit = GrepSearchMatch {
                    path: text::owned(path),
                    line,
                    text: file_lines[i].clone(),
                };
                let ghost model = hit.deep_view();
                found.push(hit);
                proof {
                    assert(found.deep_view() =~= before.push(model));
                    assert(model =~= match_at(input, path@, all, i as int));
                }
            }
            if found.len() >= self.input.head_limit {
                self.matches = found;
                self.truncated = true;
                return true;
            }
            i = i + 1;
        }
        self.matches = found;
        false
    }

    /// What the search has found.
    pub fn finish(self) -> (r: GrepSearchOutput)
        ensures
            r.query@ == self@.input.pattern,
            r.total_matches == self@.matches.len(),
            r.truncated == self@.truncated,
            r.matches.deep_view() == self@.matches,
    {
        GrepSearchOutput {
            query: self.input.pattern.clone(),
            total_matches: self.matches.len(),
            truncated: self.truncated,
            matches: self.matches,
        }
    }
}

/// Every line that a file adds is a line of that file which is found, under its
/// number if numbers are asked for, and those that were there before stay.
pub proof fn lemma_scanned_lines_hit(
    input: GrepInputModel,
    path: Seq<char>,
    file_lines: Seq<Seq<char>>,
    at: int,
    found: Seq<GrepMatchModel>,
    k: int,
)
    requires
        0 <= at,
        0 <= k < scanned(input, path, file_lines, at, found).0.len(),
    ensures
        ({
            let (out, _) = scanned(input, path, file_lines, at, found);
            if k < found.len() {
                out[k] == found[k]
            } else {
                exists|i: int|
                    at <= i < file_lines.len() && line_hits(input, file_lines[i]) && out[k]
                        == #[trigger] match_at(input, path, file_lines, i)
            }
        }),
    decreases file_lines.len() - at,
{
    if at < file_lines.len() {
        let here = match_at(input, path, file_lines, at);
        let next = if line_hits(input, file_lines[at]) && found.len() < input.head_limit {
            found.push(here)
        } else {
            found
        };
        if next.len() < input.head_limit {
            lemma_scanned_lines_hit(input, path, file_lines, at + 1, next, k);
        }
    }
}

/// A search that is not cut short misses no line of a file.
pub proof fn lemma_no_line_is_missed(
    input: GrepInputModel,
    path: Seq<char>,
    file_lines: Seq<Seq<char>>,
    at: int,
    found: Seq<GrepMatchModel>,
    i: int,
)
    requires
        0 <= at <= i < file_lines.len(),
        line_hits(input, file_lines[i]),
        !scanned(input, path, file_lines, at, found).1,
    ensures
        scanned(input, path, file_lines, at, found).0.contains(
            match_at(input, path, file_lines, i),
        ),
    decreases file_lines.len() - at,
{
    let here = match_at(input, path, file_lines, at);
    let next = if line_hits(input, file_lines[at]) && found.len() < input.head_limit {
        found.push(here)
    } else {
        found
    };
    let out = scanned(input, path, file_lines, at, found).0;
    if i == at {
        lemma_scanned_grows(input, path, file_lines, at + 1, next);
        lemma_scanned_lines_hit(input, path, file_lines, at + 1, next, found.len() as int);
        assert(out[found.len() as int] == here);
    } else {
        lemma_no_line_is_missed(input, path, file_lines, at + 1, next, i);
    }
}

proof fn lemma_scanned_grows(
    input: GrepInputModel,
    path: Seq<char>,
    file_lines: Seq<Seq<char>>,
    at: int,
    found: Seq<GrepMatchModel>,
)
    ensures
        scanned(input, path, file_lines, at, found).0.len() >= found.len(),
    decreases file_lines.len() - at,
{
    if at < file_lines.len() {
        let next = if line_hits(input, file_lines[at]) && found.len() < input.head_limit {
            found.push(match_at(input, path, file_lines, at))
        } else {
            found
        };
        if next.len() < input.head_limit {
            lemma_scanned_grows(input, path, file_lines, at + 1, next);
        }
    }
}

/// A search gives no more lines than it may, and one that is cut short has as
/// many as it may.
pub proof fn lemma_search_is_bounded(s: GrepModel, path: Seq<char>, content: Seq<char>)
    requires
        s.matches.len() <= s.input.head_limit,
        !s.truncated ==> s.matches.len() < s.input.head_limit || s.input.head_limit == 0,
        s.truncated ==> s.matches.len() == s.input.head_limit,
    ensures
        ({
            let t = after_file(s, path, content);
            &&& t.input == s.input
            &&& t.matches.len() <= t.input.head_limit
            &&& !t.truncated ==> t.matches.len() < t.input.head_limit || t.input.head_limit == 0
            &&& t.truncated ==> t.matches.len() == t.input.head_limit
        }),
{
    if !s.truncated {
        lemma_scanned_is_bounded(s.input, path, text::lines(content), 0, s.matches);
    }
}

proof fn lemma_scanned_is_bounded(
    input: GrepInputModel,
    path: Seq<char>,
    file_lines: Seq<Seq<char>>,
    at: int,
    found: Seq<GrepMatchModel>,
)
    requires
        found.len() <= input.head_limit,
        found.len() < input.head_limit || input.head_limit == 0,
    ensures
        ({
            let (out, full) = scanned(input, path, file_lines, at, found);
            &&& out.len() <= input.head_limit
            &&& !full ==> out.len() < input.head_limit || input.head_limit == 0
            &&& full ==> out.len() == input.head_limit
        }),
    decreases file_lines.len() - at,
{
    if at < file_lines.len() {
        let next = if line_hits(input, file_lines[at]) && found.len() < input.head_limit {
            found.push(match_at(input, path, file_lines, at))
        } else {
            found
        };
        if next.len() < input.head_limit {
            lemma_scanned_is_bounded(input, path, file_lines, at + 1, next);
        }
    }
}

/// A regular expression is held against lines as it was given, with or without
/// regard to case as was asked: what a file adds are lines of it in which the
/// expression occurs, each with its path, its text and, if asked for, its number,
/// and unless the search is cut short no such line is missed.
pub proof fn lemma_expression_finds_lines(s: GrepModel, path: Seq<char>, content: Seq<char>)
    requires
        s.input.is_regexp,
        !s.truncated,
    ensures
        ({
            let t = after_file(s, path, content);
            let all = text::lines(content);
            &&& s.matches.len() <= t.matches.len()
            &&& t.matches.take(s.matches.len() as int) == s.matches
            &&& forall|k: int|
                s.matches.len() <= k < t.matches.len() ==> exists|i: int|
                    0 <= i < all.len() && patterns::regex_finds(
                        s.input.pattern,
                        s.input.case_insensitive,
                        all[i],
                    ) && #[trigger] t.matches[k] == #[trigger] given_line(
                        path,
                        i + 1,
                        all[i],
                        s.input.line_numbers,
                    )
            &&& forall|i: int|
                !t.truncated && 0 <= i < all.len() && patterns::regex_finds(
                    s.input.pattern,
                    s.input.case_insensitive,
                    #[trigger] all[i],
                ) ==> t.matches.contains(given_line(path, i + 1, all[i], s.input.line_numbers))
        }),
{
    lemma_file_is_searched(s, path, content);
}

/// A plain text is searched for as a text, in which no character has a meaning
/// of its own: what a file adds are the lines in which it stands.
pub proof fn lemma_plain_text_finds_lines(s: GrepModel, path: Seq<char>, content: Seq<char>)
    requires
        !s.input.is_regexp,
        !s.truncated,
    ensures
        ({
            let t = after_file(s, path, content);
            let all = text::lines(content);
            &&& s.matches.len() <= t.matches.len()
            &&& t.matches.take(s.matches.len() as int) == s.matches
            &&& forall|k: int|
                s.matches.len() <= k < t.matches.len() ==> exists|i: int|
                    0 <= i < all.len() && (if s.input.case_insensitive {
                        patterns::regex_finds(
                            patterns::regex_escaped(s.input.pattern),
                            true,
                            all[i],
                        )
                    } else {
                        text::has_text(all[i], s.input.pattern)
                    }) && #[trigger] t.matches[k] == #[trigger] given_line(
                        path,
                        i + 1,
                        all[i],
                        s.input.line_numbers,
                    )
            &&& forall|i: int|
                !t.truncated && 0 <= i < all.len() && (if s.input.case_insensitive {
                    patterns::regex_finds(
                        patterns::regex_escaped(s.input.pattern),
                        true,
                        #[trigger] all[i],
                    )
                } else {
                    text::has_text(all[i], s.input.pattern)
                }) ==> t.matches.contains(given_line(path, i + 1, all[i], s.input.line_numbers))
        }),
{
    lemma_file_is_searched(s, path, content);
}

/// A line as it is given: where it stands, what it says, and its number if
/// numbers are asked for.
pub open spec fn given_line(path: Seq<char>, number: int, line: Seq<char>, numbers: bool) -> GrepMatchModel {
    GrepMatchModel {
        path,
        line: if numbers {
            Some(number)
        } else {
            None
        },
        text: line,
    }
}

proof fn lemma_file_is_searched(s: GrepModel, path: Seq<char>, content: Seq<char>)
    requires
        !s.truncated,
    ensures
        ({
            let t = after_file(s, path, content);
            let all = text::lines(content);
            &&& s.matches.len() <= t.matches.len()
            &&& t.matches.take(s.matches.len() as int) == s.matches
            &&& forall|k: int|
                s.matches.len() <= k < t.matches.len() ==> exists|i: int|
                    0 <= i < all.len() && line_hits(s.input, all[i]) && #[trigger] t.matches[k]
                        == #[trigger] given_line(path, i + 1, all[i], s.input.line_numbers)
            &&& forall|i: int|
                !t.truncated && 0 <= i < all.len() && line_hits(s.input, #[trigger] all[i])
                    ==> t.matches.contains(given_line(path, i + 1, all[i], s.input.line_numbers))
        }),
{
    let t = after_file(s, path, content);
    let all = text::lines(content);
    lemma_scanned_grows(s.input, path, all, 0, s.matches);
    assert forall|k: int| 0 <= k < s.matches.len() implies t.matches[k] == s.matches[k] by {
        lemma_scanned_lines_hit(s.input, path, all, 0, s.matches, k);
    }
    assert(t.matches.take(s.matches.len() as int) =~= s.matches);
    assert forall|k: int| s.matches.len() <= k < t.matches.len() implies exists|i: int|
        0 <= i < all.len() && line_hits(s.input, all[i]) && #[trigger] t.matches[k]
            == #[trigger] given_line(path, i + 1, all[i], s.input.line_numbers) by {
        lemma_scanned_lines_hit(s.input, path, all, 0, s.matches, k);
        let i = choose|i: int|
            0 <= i < all.len() && line_hits(s.input, all[i]) && t.matches[k]
                == #[trigger] match_at(s.input, path, all, i);
        assert(t.matches[k] == given_line(path, i + 1, all[i], s.input.line_numbers));
    }
    assert forall|i: int|
        !t.truncated && 0 <= i < all.len() && line_hits(
            s.input,
            #[trigger] all[i],
        ) implies t.matches.contains(
        given_line(path, i + 1, all[i], s.input.line_numbers),
    ) by {
        lemma_no_line_is_missed(s.input, path, all, 0, s.matches, i);
        assert(match_at(s.input, path, all, i) == given_line(
            path,
            i + 1,
            all[i],
            s.input.line_numbers,
        ));
    }
}

/// The lines of a file come in the order in which they stand in it, none twice.
pub proof fn lemma_lines_come_in_order(s: GrepModel, path: Seq<char>, content: Seq<char>)
    requires
        s.input.line_numbers,
        !s.truncated,
    ensures
        ({
            let t = after_file(s, path, content);
            forall|k: int, m: int|
                s.matches.len() <= k < m < t.matches.len() ==> {
                    &&& (#[trigger] t.matches[k]).line is Some
                    &&& (#[trigger] t.matches[m]).line is Some
                    &&& t.matches[k].line->0 < t.matches[m].line->0
                }
        }),
{
    lemma_scanned_in_order(s.input, path, text::lines(content), 0, s.matches);
}

proof fn lemma_scanned_in_order(
    input: GrepInputModel,
    path: Seq<char>,
    file_lines: Seq<Seq<char>>,
    at: int,
    found: Seq<GrepMatchModel>,
)
    requires
        0 <= at,
        input.line_numbers,
    ensures
        ({
            let out = scanned(input, path, file_lines, at, found).0;
            &&& forall|k: int|
                found.len() <= k < out.len() ==> (#[trigger] out[k]).line is Some
                    && out[k].line->0 > at
            &&& forall|k: int, m: int|
                found.len() <= k < m < out.len() ==> (#[trigger] out[k]).line->0 < (
                #[trigger] out[m]).line->0
        }),
    decreases file_lines.len() - at,
{
    if at < file_lines.len() {
        let next = if line_hits(input, file_lines[at]) && found.len() < input.head_limit {
            found.push(match_at(input, path, file_lines, at))
        } else {
            found
        };
        if next.len() < input.head_limit {
            lemma_scanned_in_order(input, path, file_lines, at + 1, next);
            let out = scanned(input, path, file_lines, at, found).0;
            if next.len() > found.len() {
                lemma_scanned_grows(input, path, file_lines, at + 1, next);
                lemma_scanned_lines_hit(
                    input,
                    path,
                    file_lines,
                    at + 1,
                    next,
                    found.len() as int,
                );
                assert(out[found.len() as int] == next[found.len() as int]);
            }
        }
    }
}

/// A search that is cut short has looked at all lines before the last one that
/// it gives: none of those in which something is found is missed.
pub proof fn lemma_cut_search_misses_nothing_before(
    s: GrepModel,
    path: Seq<char>,
    content: Seq<char>,
    i: int,
)
    requires
        s.input.line_numbers,
        s.input.is_regexp,
        !s.truncated,
        after_file(s, path, content).matches.len() > s.matches.len(),
        0 <= i < text::lines(content).len(),
        i + 1 < after_file(s, path, content).matches.last().line->0,
        patterns::regex_finds(
            s.input.pattern,
            s.input.case_insensitive,
            text::lines(content)[i],
        ),
    ensures
        after_file(s, path, content).matches.contains(
            given_line(path, i + 1, text::lines(content)[i], true),
        ),
{
    lemma_nothing_before_is_missed(s.input, path, text::lines(content), 0, s.matches, i);
}

proof fn lemma_nothing_before_is_missed(
    input: GrepInputModel,
    path: Seq<char>,
    file_lines: Seq<Seq<char>>,
    at: int,
    found: Seq<GrepMatchModel>,
    i: int,
)
    requires
        input.line_numbers,
        0 <= at <= i < file_lines.len(),
        line_hits(input, file_lines[i]),
        scanned(input, path, file_lines, at, found).0.len() > found.len(),
        i + 1 < scanned(input, path, file_lines, at, found).0.last().line->0,
    ensures
        scanned(input, path, file_lines, at, found).0.contains(
            match_at(input, path, file_lines, i),
        ),
    decreases file_lines.len() - at,
{
    let here = match_at(input, path, file_lines, at);
    let next = if line_hits(input, file_lines[at]) && found.len() < input.head_limit {
        found.push(here)
    } else {
        found
    };
    let out = scanned(input, path, file_lines, at, found).0;
    if i == at {
        if next.len() < input.head_limit {
            lemma_scanned_grows(input, path, file_lines, at + 1, next);
            lemma_scanned_lines_hit(input, path, file_lines, at + 1, next, found.len() as int);
        }
        assert(out[found.len() as int] == here);
    } else if next.len() < input.head_limit {
        lemma_scanned_grows(input, path, file_lines, at + 1, next);
        if out.len() == next.len() {
            lemma_scanned_lines_hit(input, path, file_lines, at + 1, next, out.len() - 1);
            assert(out.last() == here);
        }
        lemma_nothing_before_is_missed(input, path, file_lines, at + 1, next, i);
    }
}

/// A search is refused exactly where its expression or its filter is none: a
/// plain text is escaped before it is read.
pub proof fn lemma_only_bad_patterns_are_refused(input: GrepInputModel)
    ensures
        grep_problem(input) is None <==> {
            &&& input.is_regexp ==> patterns::regex_compiles(
                input.pattern,
                input.case_insensitive,
            )
            &&& !input.is_regexp ==> patterns::regex_compiles(
                patterns::regex_escaped(input.pattern),
                input.case_insensitive,
            )
            &&& input.glob is Some ==> patterns::glob_parses(input.glob->0)
                && patterns::glob_compiles(input.glob->0)
        },
{
}

/// Files of version control and of build results are passed over; of the others
/// those that the filter matches are looked at, and all where there is none.
pub proof fn lemma_files_that_are_searched(input: GrepInputModel, path: Seq<char>)
    ensures
        text::has_text(path, "/.git/"@) || text::has_text(path, "/target/"@) ==> !file_wanted(
            input,
            path,
        ),
        !text::has_text(path, "/.git/"@) && !text::has_text(path, "/target/"@) ==> (file_wanted(
            input,
            path,
        ) <==> (input.glob is None || patterns::glob_matches(input.glob->0, path))),
{
}

/// The tool that searches the lines of files.
pub fn grep_search_handler() -> (r: ToolHandler)
    ensures
        r@ == (HandlerModel {
            definition: registry::definition_of("grep_search"@, GREP_DESCRIPTION@, GREP_SCHEMA@),
            action: ToolAction::GrepSearch,
        }),
{
    registry::new_handler("grep_search", GREP_DESCRIPTION, GREP_SCHEMA, ToolAction::GrepSearch)
}

} // verus!
