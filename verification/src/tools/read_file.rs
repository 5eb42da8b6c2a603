//! Reading a part of a file of the workspace.
use crate::paths;
use crate::text;
use crate::tools::registry;
use crate::tools::registry::{HandlerModel, ToolAction, ToolHandler};
use vstd::prelude::*;

verus! {

pub const READ_FILE_DESCRIPTION: &'static str = "Read a local file from the workspace, optionally with line bounds, for exact code inspection.";

pub const READ_FILE_SCHEMA: &'static str = r#"{
  "type": "object",
  "properties": {
    "path": {
      "type": "string",
      "description": "Workspace-relative file path. Absolute paths and '..' segments are rejected."
    },
    "start_line": {
      "type": "integer",
      "description": "Optional 1-based start line, inclusive. Defaults to the first line."
    },
    "end_line": {
      "type": "integer",
      "description": "Optional 1-based end line, inclusive. Defaults to the end of the file."
    }
  },
  "required": ["path"],
  "additionalProperties": false
}"#;

/// Which lines of which file are asked for.
#[derive(Debug)]
pub struct ReadFileInput {
    pub path: String,
    pub start_line: Option<usize>,
    pub end_line: Option<usize>,
}

/// A line and its number.
#[derive(Debug)]
pub struct ReadFileLine {
    pub line: usize,
    pub text: String,
}

/// A line and its number.
#[verifier::ext_equal]
pub struct LineModel {
    pub line: int,
    pub text: Seq<char>,
}

impl DeepView for ReadFileLine {
    type V = LineModel;

    open spec fn deep_view(&self) -> LineModel {
        LineModel { line: self.line as int, text: self.text@ }
    }
}

/// The lines that were read.
#[derive(Debug)]
pub struct ReadFileOutput {
    pub path: String,
    pub resolved_path: String,
    pub start_line: usize,
    pub end_line: usize,
    pub total_lines: usize,
    pub lines: Vec<ReadFileLine>,
}

/// The lines that were read.
#[verifier::ext_equal]
pub struct ReadingModel {
    pub path: Seq<char>,
    pub resolved_path: Seq<char>,
    pub start_line: int,
    pub end_line: int,
    pub total_lines: int,
    pub lines: Seq<LineModel>,
}

impl DeepView for ReadFileOutput {
    type V = ReadingModel;

    open spec fn deep_view(&self) -> ReadingModel {
        ReadingModel {
            path: self.path@,
            resolved_path: self.resolved_path@,
            start_line: self.start_line as int,
            end_line: self.end_line as int,
            total_lines: self.total_lines as int,
            lines: self.lines.deep_view(),
        }
    }
}

// ---------------------------------------------------------------------------
// Which file

/// Where to look for a file, or why not to: it has to be named from the
/// workspace, and without a step to a parent directory.
pub open spec fn file_path_of(root: Seq<char>, path: Seq<char>) -> Result<Seq<char>, Seq<char>> {
    if paths::is_absolute(path) {
        Err("absolute paths are not allowed"@)
    } else if paths::climbs(path) {
        Err("'..' path segments are not allowed"@)
    } else {
        Ok(paths::path_joined(root, path))
    }
}

/// Where to look for a file, or why not to.
pub fn resolve_file_path(workspace_root: &str, path: &str) -> (r: Result<String, String>)
    ensures
        match r {
            Ok(p) => file_path_of(workspace_root@, path@) == Ok::<Seq<char>, Seq<char>>(p@),
            Err(e) => file_path_of(workspace_root@, path@) == Err::<Seq<char>, Seq<char>>(e@),
        },
{
    if paths::starts_at_root(path) {
        return Err(text::owned("absolute paths are not allowed"));
    }
    if paths::has_parent_part(path) {
        return Err(text::owned("'..' path segments are not allowed"));
    }
    Ok(paths::path_join(workspace_root, path))
}

/// A file that is looked for lies in the workspace, and no step of its path leads
/// to a parent directory that the path of the workspace does not lead to.
pub proof fn lemma_files_are_looked_for_in_workspace(root: Seq<char>, path: Seq<char>)
    requires
        file_path_of(root, path) is Ok,
    ensures
        paths::is_within(root, file_path_of(root, path)->Ok_0),
        !paths::climbs(root) ==> !paths::climbs(file_path_of(root, path)->Ok_0),
{
    paths::lemma_joined_path_lies_within(root, path);
    let all = paths::names(root) + paths::names(path);
    if all.contains(seq!['.', '.']) {
        let i = choose|i: int| 0 <= i < all.len() && all[i] == seq!['.', '.'];
        if i < paths::names(root).len() {
            assert(paths::names(root)[i] == seq!['.', '.']);
        } else {
            assert(paths::names(path)[i - paths::names(root).len()] == seq!['.', '.']);
        }
    }
}

/// What is wrong with the file that a path leads to once its links are
/// followed: it lies outside the workspace, or is no regular file.
pub open spec fn file_problem(root: Seq<char>, canonical: Seq<char>, is_file: bool) -> Option<
    Seq<char>,
> {
    if !paths::is_within(root, canonical) {
        Some("path escapes the workspace root"@)
    } else if !is_file {
        Some("path does not point to a regular file: "@ + canonical)
    } else {
        None
    }
}

/// Accepts the file that a path leads to, or says what is wrong with it.
pub fn check_resolved_file(workspace_root: &str, canonical: &str, is_file: bool) -> (r: Result<
    (),
    String,
>)
    ensures
        match r {
            Ok(_) => file_problem(workspace_root@, canonical@, is_file) is None,
            Err(e) => file_problem(workspace_root@, canonical@, is_file) == Some(e@),
        },
{
    if !paths::lies_within(workspace_root, canonical) {
        return Err(text::owned("path escapes the workspace root"));
    }
    if !is_file {
        return Err(text::concat("path does not point to a regular file: ", canonical));
    }
    Ok(())
}

// ---------------------------------------------------------------------------
// Which lines

/// The lines from `start` to `end` that are asked for, counted from one.
pub open spec fn asked_lines(start_line: Option<usize>, end_line: Option<usize>, total: int) -> (
    int,
    int,
) {
    let start = match start_line {
        Some(n) => n as int,
        None => 1,
    };
    let end = match end_line {
        Some(n) => n as int,
        None => if total > start {
            total
        } else {
            start
        },
    };
    (start, end)
}

/// What is wrong with the lines that are asked for.
pub open spec fn range_problem(start: int, end: int, total: int) -> Option<Seq<char>> {
    if start == 0 || end == 0 {
        Some("start_line and end_line must be 1-based positive integers"@)
    } else if start > end {
        Some("start_line must be less than or equal to end_line"@)
    } else if total > 0 && start > total {
        Some(
            "start_line "@ + text::decimal(start as nat) + " is beyond file length "@
                + text::decimal(total as nat),
        )
    } else {
        None
    }
}

/// The lines from `start` to `end`, counted from one, with their numbers.
pub open spec fn numbered(file_lines: Seq<Seq<char>>, start: int, end: int) -> Seq<LineModel> {
    Seq::new(
        (end - start + 1) as nat,
        |k: int| LineModel { line: start + k, text: file_lines[start + k - 1] },
    )
}

/// What is read of a file; an empty one has no lines whatever is asked for.
pub open spec fn reading(
    path: Seq<char>,
    resolved_path: Seq<char>,
    start: int,
    end: int,
    file_lines: Seq<Seq<char>>,
) -> ReadingModel {
    let total = file_lines.len() as int;
    let last = if total > 0 && end > total {
        total
    } else {
        end
    };
    ReadingModel {
        path,
        resolved_path,
        start_line: start,
        end_line: last,
        total_lines: total,
        lines: if total == 0 {
            seq![]
        } else {
            numbered(file_lines, start, last)
        },
    }
}

/// The lines of the file that are asked for.
pub fn run_read_file(input: &ReadFileInput, resolved_path: &str, content: &str) -> (r: Result<
    ReadFileOutput,
    String,
>)
    ensures
        ({
            let file_lines = text::lines(content@);
            let total = file_lines.len() as int;
            let (start, end) = asked_lines(input.start_line, input.end_line, total);
            match r {
                Ok(out) => range_problem(start, end, total) is None && out.deep_view() == reading(
                    input.path@,
                    resolved_path@,
                    start,
                    end,
                    file_lines,
                ),
                Err(e) => range_problem(start, end, total) == Some(e@),
            }
        }),
        ({
            let file_lines = text::lines(content@);
            let first = input.start_line.unwrap_or(1);
            input.end_line is None && 1 <= first <= file_lines.len() ==> r is Ok
                && r->Ok_0.start_line == first && r->Ok_0.end_line == file_lines.len()
                && r->Ok_0.lines.deep_view() == Seq::new(
                (file_lines.len() - first + 1) as nat,
                |k: int| LineModel { line: first + k, text: file_lines[first + k - 1] },
            )
        }),
        r is Ok <==> (input.start_line != Some(0usize) && input.end_line != Some(0usize) && (
        input.end_line matches Some(last) ==> input.start_line.unwrap_or(1) <= last) && (
        text::lines(content@).len() > 0 ==> input.start_line.unwrap_or(1) <= text::lines(
            content@,
        ).len())),
{
    let file_lines = text::lines_of(content);
    let ghost all = file_lines.deep_view();
    let total_lines = file_lines.len();
    let start_line: usize = match input.start_line {
        Some(n) => n,
        None => 1,
    };
    let end_line: usize = match input.end_line {
        Some(n) => n,
        None => if total_lines > start_line {
            total_lines
        } else {
            start_line
        },
    };
    if start_line == 0 || end_line == 0 {
        return Err(text::owned("start_line and end_line must be 1-based positive integers"));
    }
    if start_line > end_line {
        return Err(text::owned("start_line must be less than or equal to end_line"));
    }
    if total_lines > 0 && start_line > total_lines {
        let start = text::decimal_of(start_line as u128);
        let total = text::decimal_of(total_lines as u128);
        let mut e = text::concat3("start_line ", start.as_str(), " is beyond file length ");
        e.append(total.as_str());
        return Err(e);
    }
    let mut lines: Vec<ReadFileLine> = Vec::new();
    if total_lines == 0 {
        assert(lines.deep_view() =~= seq![]);
        return Ok(
            ReadFileOutput {
                path: input.path.clone(),
                resolved_path: text::owned(resolved_path),
                start_line,
                end_line,
                total_lines,
                lines,
            },
        );
    }
    let last = if end_line > total_lines {
        total_lines
    } else {
        end_line
    };
    let ghost wanted = numbered(all, start_line as int, last as int);
    let mut at: usize = start_line - 1;
    while at < last
        invariant
            1 <= start_line <= last <= file_lines@.len(),
            start_line - 1 <= at <= last,
            all == file_lines.deep_view(),
            wanted == numbered(all, start_line as int, last as int),
            lines.deep_view() == wanted.take(at - (start_line - 1)),
        decreases last - at,
    {
        let ghost k = at - (start_line - 1);
        let ghost before = lines.deep_view();
        let line = ReadFileLine { line: at + 1, text: file_lines[at].clone() };
        let ghost model = line.deep_view();
        lines.push(line);
        proof {
            assert(lines.deep_view() =~= before.push(model));
            assert(all[at as int] == file_lines@[at as int]@);
            assert(model == wanted[k]);
            assert(wanted.take(k + 1) =~= wanted.take(k).push(wanted[k]));
        }
        at = at + 1;
    }
    assert(wanted.take(wanted.len() as int) =~= wanted);
    Ok(
        ReadFileOutput {
            path: input.path.clone(),
            resolved_path: text::owned(resolved_path),
            start_line,
            end_line: last,
            total_lines,
            lines,
        },
    )
}

/// Without bounds every line of a file is read, and each under its number.
pub proof fn lemma_whole_file_is_read(
    path: Seq<char>,
    resolved_path: Seq<char>,
    file_lines: Seq<Seq<char>>,
    i: int,
)
    requires
        0 <= i < file_lines.len(),
    ensures
        ({
            let total = file_lines.len() as int;
            let (start, end) = asked_lines(None, None, total);
            let out = reading(path, resolved_path, start, end, file_lines);
            &&& range_problem(start, end, total) is None
            &&& out.lines.len() == total
            &&& out.lines[i] == (LineModel { line: i + 1, text: file_lines[i] })
        }),
{
}

/// What is read with the given bounds, or nothing where the bounds are refused.
pub open spec fn read_with(
    start_line: Option<usize>,
    end_line: Option<usize>,
    path: Seq<char>,
    resolved_path: Seq<char>,
    file_lines: Seq<Seq<char>>,
) -> Option<ReadingModel> {
    let total = file_lines.len() as int;
    let (start, end) = asked_lines(start_line, end_line, total);
    match range_problem(start, end, total) {
        Some(_) => None,
        None => Some(reading(path, resolved_path, start, end, file_lines)),
    }
}

/// With a first line and no last one, all lines from the first to the end of the
/// file are read, each under its number.
pub proof fn lemma_rest_of_file_is_read(
    n: usize,
    path: Seq<char>,
    resolved_path: Seq<char>,
    file_lines: Seq<Seq<char>>,
)
    requires
        1 <= n <= file_lines.len(),
    ensures
        read_with(Some(n), None, path, resolved_path, file_lines) matches Some(out) && {
            &&& out.start_line == n
            &&& out.end_line == file_lines.len()
            &&& out.lines.len() == file_lines.len() - n + 1
            &&& forall|i: int|
                n <= i <= file_lines.len() ==> #[trigger] out.lines[i - n] == (LineModel {
                    line: i,
                    text: file_lines[i - 1],
                })
        },
{
}

/// With both bounds, the lines between them are read, both included, as far as
/// the file goes, each under its number.
pub proof fn lemma_range_is_read(
    n: usize,
    m: usize,
    path: Seq<char>,
    resolved_path: Seq<char>,
    file_lines: Seq<Seq<char>>,
)
    requires
        1 <= n <= m,
        n <= file_lines.len(),
    ensures
        read_with(Some(n), Some(m), path, resolved_path, file_lines) matches Some(out) && {
            &&& out.path == path
            &&& out.resolved_path == resolved_path
            &&& out.start_line == n
            &&& out.end_line <= m
            &&& out.end_line <= file_lines.len()
            &&& out.end_line == m || out.end_line == file_lines.len()
            &&& out.total_lines == file_lines.len()
            &&& out.lines.len() == out.end_line - n + 1
            &&& forall|i: int|
                n <= i <= m && i <= file_lines.len() ==> #[trigger] out.lines[i - n] == (
                LineModel { line: i, text: file_lines[i - 1] })
        },
{
}

/// Without a first line the file is read from its first line on.
pub proof fn lemma_reading_starts_at_first_line(
    end_line: Option<usize>,
    path: Seq<char>,
    resolved_path: Seq<char>,
    file_lines: Seq<Seq<char>>,
)
    ensures
        read_with(None, end_line, path, resolved_path, file_lines) == read_with(
            Some(1),
            end_line,
            path,
            resolved_path,
            file_lines,
        ),
{
}

/// Two ranges of which the second starts where the first ends make up the range
/// of both.
pub proof fn lemma_ranges_follow_on(
    n: usize,
    m: usize,
    k: usize,
    path: Seq<char>,
    resolved_path: Seq<char>,
    file_lines: Seq<Seq<char>>,
)
    requires
        1 <= n <= m < k <= file_lines.len(),
    ensures
        ({
            let head = read_with(Some(n), Some(m), path, resolved_path, file_lines);
            let tail = read_with(Some((m + 1) as usize), Some(k), path, resolved_path, file_lines);
            let all = read_with(Some(n), Some(k), path, resolved_path, file_lines);
            &&& head is Some && tail is Some && all is Some
            &&& all->0.lines == head->0.lines + tail->0.lines
        }),
{
    let head = read_with(Some(n), Some(m), path, resolved_path, file_lines)->0;
    let tail = read_with(Some((m + 1) as usize), Some(k), path, resolved_path, file_lines)->0;
    let all = read_with(Some(n), Some(k), path, resolved_path, file_lines)->0;
    assert(all.lines =~= head.lines + tail.lines);
}

/// Lines are counted from one, and a range that ends before it starts or starts
/// behind the file is refused; nothing else is.
pub proof fn lemma_refused_ranges(
    start_line: Option<usize>,
    end_line: Option<usize>,
    path: Seq<char>,
    resolved_path: Seq<char>,
    file_lines: Seq<Seq<char>>,
)
    requires
        file_lines.len() > 0,
    ensures
        ({
            let refused = read_with(start_line, end_line, path, resolved_path, file_lines) is None;
            &&& start_line == Some(0usize) ==> refused
            &&& end_line == Some(0usize) ==> refused
            &&& forall|n: usize| start_line == Some(n) && n > file_lines.len() ==> refused
            &&& forall|n: usize, m: usize|
                start_line == Some(n) && end_line == Some(m) && n > m ==> refused
            &&& forall|n: usize, m: usize|
                start_line == Some(n) && end_line == Some(m) && 1 <= n <= m && n
                    <= file_lines.len() ==> !refused
            &&& forall|n: usize|
                start_line == Some(n) && end_line is None && 1 <= n <= file_lines.len()
                    ==> !refused
            &&& forall|m: usize| start_line is None && end_line == Some(m) && m > 0 ==> !refused
            &&& start_line is None && end_line is None ==> !refused
        }),
{
}

/// Of an empty file no line is read.
pub proof fn lemma_empty_file_has_no_lines(
    start_line: Option<usize>,
    end_line: Option<usize>,
    path: Seq<char>,
    resolved_path: Seq<char>,
)
    ensures
        ({
            let r = read_with(start_line, end_line, path, resolved_path, seq![]);
            r matches Some(out) ==> out.lines.len() == 0 && out.total_lines == 0
        }),
        start_line is None && end_line is None ==> read_with(
            start_line,
            end_line,
            path,
            resolved_path,
            seq![],
        ) is Some,
{
}

/// The tool that reads a file.
pub fn read_file_handler() -> (r: ToolHandler)
    ensures
        r@ == (HandlerModel {
            definition: registry::definition_of(
                "read_file"@,
                READ_FILE_DESCRIPTION@,
                READ_FILE_SCHEMA@,
            ),
            action: ToolAction::ReadFile,
        }),
{
    registry::new_handler("read_file", READ_FILE_DESCRIPTION, READ_FILE_SCHEMA, ToolAction::ReadFile)
}

/// A file is read exactly where its path, once its links are followed, lies in
/// the workspace and it is a regular file.
pub proof fn lemma_which_files_are_read(root: Seq<char>, canonical: Seq<char>, is_file: bool)
    ensures
        file_problem(root, canonical, is_file) is None <==> paths::is_within(root, canonical)
            && is_file,
{
}

/// Exactly the paths that start at the root or hold a step to a parent directory
/// are refused; any other is looked for from the workspace.
pub proof fn lemma_where_files_are_looked_for(root: Seq<char>, path: Seq<char>)
    ensures
        file_path_of(root, path) is Ok <==> !(path.len() > 0 && path[0] == '/') && !paths::climbs(
            path,
        ),
        file_path_of(root, path) is Ok ==> file_path_of(root, path)->Ok_0 == paths::path_joined(
            root,
            path,
        ),
{
}

} // verus!
