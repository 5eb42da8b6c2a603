//! Writing a file.
use crate::json::{Json, JsonModel};
use crate::json;
use crate::paths;
use crate::text;
use crate::tools::registry;
use crate::tools::registry::{HandlerModel, ToolAction, ToolHandler};
use vstd::prelude::*;

verus! {

pub const WRITE_FILE_DESCRIPTION: &'static str = "Write markdown or text content to a workspace-relative file";

pub const WRITE_FILE_SCHEMA: &'static str = r#"{
  "type": "object",
  "properties": {
    "path": {
      "type": "string",
      "description": "Output path (absolute or workspace-relative). '..' segments are rejected."
    },
    "content": {
      "type": "string",
      "description": "File content to write."
    }
  },
  "required": ["path", "content"],
  "additionalProperties": false
}"#;

/// Where a file is to be written, or why not: two dots in a row are not
/// accepted anywhere in its path, and a path is taken from the workspace unless
/// it starts at the root.
pub open spec fn write_path_of(workspace: Seq<char>, path: Seq<char>) -> Result<
    Seq<char>,
    Seq<char>,
> {
    if text::has_text(path, ".."@) {
        Err("invalid write_file path: '..' segments are not allowed"@)
    } else if path.len() == 0 {
        Err("write_file path cannot be empty"@)
    } else if paths::is_absolute(path) {
        Ok(path)
    } else {
        Ok(paths::path_joined(workspace, path))
    }
}

/// Where a file is to be written, or why not.
pub fn validate_write_path(workspace: &str, path: &str) -> (r: Result<String, String>)
    ensures
        match r {
            Ok(p) => write_path_of(workspace@, path@) == Ok::<Seq<char>, Seq<char>>(p@),
            Err(e) => write_path_of(workspace@, path@) == Err::<Seq<char>, Seq<char>>(e@),
        },
{
    if text::contains(path, "..") {
        return Err(text::owned("invalid write_file path: '..' segments are not allowed"));
    }
    if text::char_count(path) == 0 {
        return Err(text::owned("write_file path cannot be empty"));
    }
    if paths::starts_at_root(path) {
        return Ok(text::owned(path));
    }
    Ok(paths::path_join(workspace, path))
}

/// A path that is accepted leads to no parent directory, and one that does not
/// start at the root is taken from the workspace and lies in it.
pub proof fn lemma_written_path_does_not_climb(workspace: Seq<char>, path: Seq<char>)
    requires
        write_path_of(workspace, path) is Ok,
    ensures
        !paths::climbs(path),
        !paths::is_absolute(path) ==> paths::is_within(
            workspace,
            write_path_of(workspace, path)->Ok_0,
        ),
{
    paths::lemma_no_dots_no_climbing(path);
    if !paths::is_absolute(path) {
        paths::lemma_joined_path_lies_within(workspace, path);
    }
}

/// What is said of a file that was written.
pub fn write_report(path: &str) -> (r: String)
    ensures
        r@ == json::pretty_text(
            JsonModel::empty_object().with("ok"@, JsonModel::Bool(true)).with(
                "path"@,
                JsonModel::Text(path@),
            ),
        ),
{
    Json::empty_object().with("ok", Json::Bool(true)).with("path", Json::text(path)).to_pretty_string()
}

/// The tool that writes a file.
pub fn write_file_handler() -> (r: ToolHandler)
    ensures
        r@ == (HandlerModel {
            definition: registry::definition_of(
                "write_file"@,
                WRITE_FILE_DESCRIPTION@,
                WRITE_FILE_SCHEMA@,
            ),
            action: ToolAction::WriteFile,
        }),
{
    registry::new_handler(
        "write_file",
        WRITE_FILE_DESCRIPTION,
        WRITE_FILE_SCHEMA,
        ToolAction::WriteFile,
    )
}

/// Exactly the paths that are empty or hold two dots in a row are refused; any
/// other is written where it says, from the root or from the workspace.
pub proof fn lemma_where_files_are_written(workspace: Seq<char>, path: Seq<char>)
    ensures
        write_path_of(workspace, path) is Err <==> path.len() == 0 || text::has_text(path, ".."@),
        path.len() > 0 && path[0] == '/' && !text::has_text(path, ".."@) ==> write_path_of(
            workspace,
            path,
        ) == Ok::<Seq<char>, Seq<char>>(path),
        path.len() > 0 && path[0] != '/' && !text::has_text(path, ".."@) ==> write_path_of(
            workspace,
            path,
        ) == Ok::<Seq<char>, Seq<char>>(
            if workspace.len() == 0 || workspace.last() == '/' {
                workspace + path
            } else {
                workspace + seq!['/'] + path
            },
        ),
{
    reveal_strlit("/");
    assert("/"@ =~= seq!['/']);
}

} // verus!
