//! Searching for files and directories by their paths.
use crate::paths;
use crate::patterns;
use crate::text;
use crate::tools::registry;
use crate::tools::registry::{HandlerModel, ToolAction, ToolHandler};
use vstd::prelude::*;

verus! {

/// How many paths are given where nothing else is said.
pub const DEFAULT_GLOB_LIMIT: usize = 100;

pub const GLOB_DESCRIPTION: &'static str = "Search for files and directories by glob pattern for path discovery.";

pub const GLOB_SCHEMA: &'static str = r#"{
  "type": "object",
  "properties": {
    "pattern": {
      "type": "string",
      "description": "Glob pattern for file or directory paths. Example: \"src/*\" or \"**/*.rs\"."
    },
    "path": {
      "type": "string",
      "description": "Base path to search from. Example: \".\". Defaults to current directory."
    },
    "head_limit": {
      "type": "integer",
      "description": "Maximum number of matches returned. Use an integer such as 20 or 100."
    }
  },
  "required": ["pattern"],
  "additionalProperties": false
}"#;

/// What is searched for, and where.
#[derive(Debug)]
pub struct GlobSearchInput {
    pub pattern: String,
    pub path: Option<String>,
    pub head_limit: usize,
}

/// A path that was found.
#[derive(Debug)]
pub struct GlobSearchMatch {
    pub path: String,
    pub kind: String,
}

/// A path that was found.
#[verifier::ext_equal]
pub struct GlobMatchModel {
    pub path: Seq<char>,
    pub kind: Seq<char>,
}

impl DeepView for GlobSearchMatch {
    type V = GlobMatchModel;

    open spec fn deep_view(&self) -> GlobMatchModel {
        GlobMatchModel { path: self.path@, kind: self.kind@ }
    }
}

/// The paths that were found.
#[derive(Debug)]
pub struct GlobSearchOutput {
    pub query: String,
    pub total_matches: usize,
    pub truncated: bool,
    pub duration_ms: u128,
    pub matches: Vec<GlobSearchMatch>,
}

/// Where a search starts: the given path, taken from the working directory
/// unless it starts at the root.
pub open spec fn search_root(path: Option<Seq<char>>, current_dir: Seq<char>) -> Seq<char> {
    let candidate = match path {
        Some(p) => p,
        None => "."@,
    };
    if paths::is_absolute(candidate) {
        candidate
    } else {
        paths::path_joined(current_dir, candidate)
    }
}

/// Where a search starts, before its links are followed.
pub fn resolve_root(path: Option<&str>, current_dir: &str) -> (r: String)
    ensures
        r@ == search_root(
            match path {
                Some(p) => Some(p@),
                None => None,
            },
            current_dir@,
        ),
{
    let candidate = match path {
        Some(p) => p,
        None => ".",
    };
    if paths::starts_at_root(candidate) {
        text::owned(candidate)
    } else {
        paths::path_join(current_dir, candidate)
    }
}

/// A search under way.
#[derive(Debug)]
pub struct GlobSearch {
    pattern: String,
    head_limit: usize,
    set: globset::GlobSet,
    matches: Vec<GlobSearchMatch>,
    truncated: bool,
}

/// A search under way.
#[verifier::ext_equal]
pub struct GlobModel {
    pub pattern: Seq<char>,
    pub head_limit: int,
    pub matches: Seq<GlobMatchModel>,
    pub truncated: bool,
}

impl View for GlobSearch {
    type V = GlobModel;

    closed spec fn view(&self) -> GlobModel {
        GlobModel {
            pattern: self.pattern@,
            head_limit: self.head_limit as int,
            matches: self.matches.deep_view(),
            truncated: self.truncated,
        }
    }
}

/// What an entry of a directory is called.
pub open spec fn entry_kind(is_dir: bool) -> Seq<char> {
    if is_dir {
        "dir"@
    } else {
        "file"@
    }
}

/// A search with a path that matches: one that may give no more stays without it
/// and is cut short.
pub open spec fn with_hit(s: GlobModel, path: Seq<char>, is_dir: bool) -> GlobModel {
    if s.matches.len() < s.head_limit {
        GlobModel {
            matches: s.matches.push(GlobMatchModel { path, kind: entry_kind(is_dir) }),
            ..s
        }
    } else {
        GlobModel { truncated: true, ..s }
    }
}

/// A search that starts at a file has only that file's name to look at.
pub open spec fn after_root_file(s: GlobModel, name: Seq<char>) -> GlobModel {
    if patterns::glob_matches(s.pattern, name) {
        with_hit(s, name, false)
    } else {
        s
    }
}

/// A search after an entry below the directory in which it started. One that
/// has as many paths as it may give is cut short, and then stays as it is.
pub open spec fn after_entry(s: GlobModel, relative_path: Seq<char>, is_dir: bool) -> GlobModel {
    if !s.truncated && patterns::glob_matches(s.pattern, relative_path) {
        let next = with_hit(s, relative_path, is_dir);
        GlobModel { truncated: next.matches.len() >= s.head_limit, ..next }
    } else {
        s
    }
}

impl GlobSearch {
    #[verifier::type_invariant]
    spec fn built_from_pattern(self) -> bool {
        patterns::glob_of_set(self.set) == self.pattern@
    }

    /// A search that has found nothing yet. It cannot be made without a pattern
    /// that can be read and compiled.
    pub fn new(input: &GlobSearchInput) -> (r: Result<GlobSearch, String>)
        ensures
            ({
                let usable = patterns::glob_parses(input.pattern@) && patterns::glob_compiles(
                    input.pattern@,
                );
                match r {
                    Ok(s) => usable && s@ == (GlobModel {
                        pattern: input.pattern@,
                        head_limit: input.head_limit as int,
                        matches: seq![],
                        truncated: false,
                    }),
                    Err(e) => !usable && e@ == "invalid glob pattern: "@ + input.pattern@,
                }
            }),
    {
        let compiled = match patterns::parse_glob(input.pattern.as_str()) {
            Some(glob) => patterns::compile_glob(glob),
            None => None,
        };
        match compiled {
            Some(set) => {
                let matches: Vec<GlobSearchMatch> = Vec::new();
                assert(matches.deep_view() =~= seq![]);
                Ok(
                    GlobSearch {
                        pattern: input.pattern.clone(),
                        head_limit: input.head_limit,
                        set,
                        matches,
                        truncated: false,
                    },
                )
            },
            None => Err(text::concat("invalid glob pattern: ", input.pattern.as_str())),
        }
    }

    fn add_hit(&mut self, path: &str, is_dir: bool)
        ensures
            final(self)@ == with_hit(old(self)@, path@, is_dir),
    {
        proof {
            use_type_invariant(&*self);
        }
        if self.matches.len() >= self.head_limit {
            self.truncated = true;
            return;
        }
        let kind = if is_dir {
            "dir"
        } else {
            "file"
        };
        let ghost before = self.matches.deep_view();
        let hit = GlobSearchMatch { path: text::owned(path), kind: text::owned(kind) };
        let ghost model = hit.deep_view();
        let mut matches: Vec<GlobSearchMatch> = Vec::new();
        std::mem::swap(&mut matches, &mut self.matches);
        matches.push(hit);
        assert(matches.deep_view() =~= before.push(model));
        self.matches = matches;
    }

    /// Looks at the name of the file at which the search starts.
    pub fn add_root_file(&mut self, name: &str)
        ensures
            final(self)@ == after_root_file(old(self)@, name@),
    {
        proof {
            use_type_invariant(&*self);
        }
        if patterns::path_matches(&self.set, name) {
            self.add_hit(name, false);
        }
    }

    /// Looks at an entry below the directory in which the search started.
    /// Returns whether there are enough paths.
    pub fn add_entry(&mut self, relative_path: &str, is_dir: bool) -> (stop: bool)
        ensures
            final(self)@ == after_entry(old(self)@, relative_path@, is_dir),
            stop == final(self)@.truncated,
    {
        proof {
            use_type_invariant(&*self);
        }
        if self.truncated {
            return true;
        }
        if patterns::path_matches(&self.set, relative_path) {
            self.add_hit(relative_path, is_dir);
            proof {
                use_type_invariant(&*self);
            }
            self.truncated = self.matches.len() >= self.head_limit;
        }
        self.truncated
    }

    /// What the search has found.
    pub fn finish(self, duration_ms: u128) -> (r: GlobSearchOutput)
        ensures
            r.query@ == self@.pattern,
            r.total_matches == self@.matches.len(),
            r.truncated == self@.truncated,
            r.duration_ms == duration_ms,
            r.matches.deep_view() == self@.matches,
    {
        GlobSearchOutput {
            query: self.pattern,
            total_matches: self.matches.len(),
            truncated: self.truncated,
            duration_ms,
            matches: self.matches,
        }
    }
}

/// The paths that are found among entries, from the first on.
pub open spec fn after_entries(s: GlobModel, entries: Seq<(Seq<char>, bool)>) -> GlobModel
    decreases entries.len(),
{
    if entries.len() == 0 {
        s
    } else {
        let (path, is_dir) = entries.last();
        after_entry(after_entries(s, entries.drop_last()), path, is_dir)
    }
}

/// Whatever entries a search looks at, it gives no more paths than it may, each
/// of them matches the pattern, and one that is cut short has as many as it
/// may.
pub proof fn lemma_search_is_bounded(pattern: Seq<char>, limit: int, entries: Seq<(Seq<char>, bool)>)
    requires
        0 <= limit,
    ensures
        ({
            let start = GlobModel {
                pattern,
                head_limit: limit,
                matches: seq![],
                truncated: false,
            };
            let s = after_entries(start, entries);
            &&& s.matches.len() <= limit
            &&& s.truncated ==> s.matches.len() == limit
            &&& !s.truncated ==> s.matches.len() < limit || limit == 0
            &&& forall|k: int|
                0 <= k < s.matches.len() ==> patterns::glob_matches(
                    pattern,
                    #[trigger] s.matches[k].path,
                )
            &&& s.pattern == pattern && s.head_limit == limit
        }),
    decreases entries.len(),
{
    if entries.len() > 0 {
        lemma_search_is_bounded(pattern, limit, entries.drop_last());
    }
}

/// A search that starts at a file gives no more paths than it may either.
pub proof fn lemma_root_search_is_bounded(s: GlobModel, name: Seq<char>)
    requires
        s.matches.len() <= s.head_limit,
    ensures
        after_root_file(s, name).matches.len() <= s.head_limit,
        after_root_file(s, name).head_limit == s.head_limit,
{
}

/// The tool that searches for paths.
pub fn glob_search_handler() -> (r: ToolHandler)
    ensures
        r@ == (HandlerModel {
            definition: registry::definition_of("glob_search"@, GLOB_DESCRIPTION@, GLOB_SCHEMA@),
            action: ToolAction::GlobSearch,
        }),
{
    registry::new_handler("glob_search", GLOB_DESCRIPTION, GLOB_SCHEMA, ToolAction::GlobSearch)
}

/// An entry is found exactly where its path matches the pattern: unless the
/// search has as many paths as it may give, it is added, with its kind, behind
/// those that were found before.
pub proof fn lemma_matching_entry_is_found(s: GlobModel, path: Seq<char>, is_dir: bool)
    requires
        !s.truncated,
        s.matches.len() < s.head_limit,
    ensures
        patterns::glob_matches(s.pattern, path) ==> after_entry(s, path, is_dir).matches
            == s.matches.push(
            GlobMatchModel {
                path,
                kind: if is_dir {
                    "dir"@
                } else {
                    "file"@
                },
            },
        ),
        !patterns::glob_matches(s.pattern, path) ==> after_entry(s, path, is_dir) == s,
        after_entry(s, path, is_dir).truncated <==> patterns::glob_matches(s.pattern, path)
            && s.matches.len() + 1 == s.head_limit,
{
}

/// A file at which a search starts is found exactly where its name matches.
pub proof fn lemma_matching_root_file_is_found(s: GlobModel, name: Seq<char>)
    requires
        s.matches.len() < s.head_limit,
    ensures
        patterns::glob_matches(s.pattern, name) ==> after_root_file(s, name).matches
            == s.matches.push(GlobMatchModel { path: name, kind: "file"@ }),
        !patterns::glob_matches(s.pattern, name) ==> after_root_file(s, name).matches
            == s.matches,
{
}

/// A search that is not cut short misses no entry whose path matches, and gives
/// each with its kind.
pub proof fn lemma_no_entry_is_missed(
    pattern: Seq<char>,
    limit: int,
    entries: Seq<(Seq<char>, bool)>,
    i: int,
)
    requires
        0 < limit,
        0 <= i < entries.len(),
        patterns::glob_matches(pattern, entries[i].0),
        !after_entries(
            GlobModel { pattern, head_limit: limit, matches: seq![], truncated: false },
            entries,
        ).truncated,
    ensures
        after_entries(
            GlobModel { pattern, head_limit: limit, matches: seq![], truncated: false },
            entries,
        ).matches.contains(
            GlobMatchModel {
                path: entries[i].0,
                kind: if entries[i].1 {
                    "dir"@
                } else {
                    "file"@
                },
            },
        ),
    decreases entries.len(),
{
    let start = GlobModel { pattern, head_limit: limit, matches: seq![], truncated: false };
    let head = entries.drop_last();
    let before = after_entries(start, head);
    let after = after_entries(start, entries);
    lemma_search_is_bounded(pattern, limit, head);
    lemma_search_is_bounded(pattern, limit, entries);
    if i == entries.len() - 1 {
        assert(after.matches[before.matches.len() as int].path == entries[i].0);
    } else {
        assert(head[i] == entries[i]);
        lemma_no_entry_is_missed(pattern, limit, head, i);
        let hit = GlobMatchModel {
            path: entries[i].0,
            kind: if entries[i].1 {
                "dir"@
            } else {
                "file"@
            },
        };
        let k = choose|k: int| 0 <= k < before.matches.len() && before.matches[k] == hit;
        assert(after.matches[k] == hit);
    }
}

/// A search starts where it is told to: at a path from the root as it stands, at
/// any other from the working directory, and in that directory where nothing is
/// said.
pub proof fn lemma_search_starts_where_told(path: Seq<char>, current_dir: Seq<char>)
    ensures
        path.len() > 0 && path[0] == '/' ==> search_root(Some(path), current_dir) == path,
        !(path.len() > 0 && path[0] == '/') ==> search_root(Some(path), current_dir)
            == paths::path_joined(current_dir, path),
        search_root(None, current_dir) == search_root(Some("."@), current_dir),
{
}

} // verus!
