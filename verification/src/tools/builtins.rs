//! The tools that every agent starts with.
use crate::keyed;
use crate::tools::github_pages;
use crate::tools::github_wiki;
use crate::tools::glob_search;
use crate::tools::grep_search;
use crate::tools::read_file;
use crate::tools::registry;
use crate::tools::registry::{GlobalToolRegistry, HandlerModel, ToolAction, ToolHandler};
use crate::tools::todo_write;
use crate::tools::web_fetch;
use crate::tools::write_file;
use vstd::prelude::*;

verus! {

/// A tool by its name, what is said of it, what it expects and what it does.
pub open spec fn tool(
    name: Seq<char>,
    description: Seq<char>,
    schema: Seq<char>,
    action: ToolAction,
) -> HandlerModel {
    HandlerModel { definition: registry::definition_of(name, description, schema), action }
}

/// The tools that every agent starts with.
pub open spec fn builtin_tools() -> Seq<HandlerModel> {
    seq![
        tool(
            "github_wiki_publish"@,
            github_wiki::WIKI_DESCRIPTION@,
            github_wiki::WIKI_SCHEMA@,
            ToolAction::GithubWikiPublish,
        ),
        tool(
            "github_pages_publish"@,
            github_pages::PAGES_DESCRIPTION@,
            github_pages::PAGES_SCHEMA@,
            ToolAction::GithubPagesPublish,
        ),
        tool(
            "glob_search"@,
            glob_search::GLOB_DESCRIPTION@,
            glob_search::GLOB_SCHEMA@,
            ToolAction::GlobSearch,
        ),
        tool(
            "grep_search"@,
            grep_search::GREP_DESCRIPTION@,
            grep_search::GREP_SCHEMA@,
            ToolAction::GrepSearch,
        ),
        tool(
            "read_file"@,
            read_file::READ_FILE_DESCRIPTION@,
            read_file::READ_FILE_SCHEMA@,
            ToolAction::ReadFile,
        ),
        tool(
            "web_fetch"@,
            web_fetch::WEB_FETCH_DESCRIPTION@,
            web_fetch::WEB_FETCH_SCHEMA@,
            ToolAction::WebFetch,
        ),
        tool(
            "write_file"@,
            write_file::WRITE_FILE_DESCRIPTION@,
            write_file::WRITE_FILE_SCHEMA@,
            ToolAction::WriteFile,
        ),
        tool(
            "todo_write"@,
            todo_write::TODO_DESCRIPTION@,
            todo_write::TODO_SCHEMA@,
            ToolAction::TodoWrite,
        ),
    ]
}

/// The tools by their names.
pub open spec fn builtin_entries() -> Seq<(Seq<char>, HandlerModel)> {
    registry::with_all(seq![], builtin_tools())->Ok_0
}

/// No two of the tools have the same name.
proof fn lemma_builtin_names_differ(i: int, j: int)
    requires
        0 <= i < j < builtin_tools().len(),
    ensures
        builtin_tools()[i].definition.name != builtin_tools()[j].definition.name,
{
    reveal_strlit("github_wiki_publish");
    reveal_strlit("github_pages_publish");
    reveal_strlit("glob_search");
    reveal_strlit("grep_search");
    reveal_strlit("read_file");
    reveal_strlit("web_fetch");
    reveal_strlit("write_file");
    reveal_strlit("todo_write");
    let tools = builtin_tools();
    assert(tools[0].definition.name == "github_wiki_publish"@);
    assert(tools[1].definition.name == "github_pages_publish"@);
    assert(tools[2].definition.name == "glob_search"@);
    assert(tools[3].definition.name == "grep_search"@);
    assert(tools[4].definition.name == "read_file"@);
    assert(tools[5].definition.name == "web_fetch"@);
    assert(tools[6].definition.name == "write_file"@);
    assert(tools[7].definition.name == "todo_write"@);
    assert("glob_search"@[1] != "grep_search"@[1]);
    assert("read_file"@[0] != "web_fetch"@[0]);
    assert("write_file"@[0] != "todo_write"@[0]);
}

/// All of the tools can be offered together.
pub proof fn lemma_builtins_fit_together()
    ensures
        registry::with_all(seq![], builtin_tools()) is Ok,
        keyed::keys_increase(builtin_entries()),
{
    let none = Seq::<(Seq<char>, HandlerModel)>::empty();
    let tools = builtin_tools();
    assert forall|i: int, j: int| 0 <= i < j < tools.len() implies (
    #[trigger] tools[i]).definition.name != (#[trigger] tools[j]).definition.name by {
        lemma_builtin_names_differ(i, j);
    }
    assert(none =~= seq![]);
    registry::lemma_new_names_are_added(none, tools);
}

/// Each of the tools is found under its name.
pub proof fn lemma_builtin_is_found(k: int)
    requires
        0 <= k < builtin_tools().len(),
    ensures
        keyed::entry(builtin_entries(), builtin_tools()[k].definition.name) == Some(
            builtin_tools()[k],
        ),
{
    lemma_builtins_fit_together();
    assert(Seq::<(Seq<char>, HandlerModel)>::empty() =~= seq![]);
    registry::lemma_added_tools_are_found(seq![], builtin_tools(), k);
}

impl GlobalToolRegistry {
    /// The tools that every agent starts with.
    pub fn builtins() -> (r: GlobalToolRegistry)
        ensures
            r@ == builtin_entries(),
    {
        let mut tools: Vec<ToolHandler> = Vec::new();
        tools.push(github_wiki::github_wiki_publish_handler());
        tools.push(github_pages::github_pages_publish_handler());
        tools.push(glob_search::glob_search_handler());
        tools.push(grep_search::grep_search_handler());
        tools.push(read_file::read_file_handler());
        tools.push(web_fetch::web_fetch_handler());
        tools.push(write_file::write_file_handler());
        tools.push(todo_write::todo_write_handler());
        proof {
            assert(tools.deep_view() =~= builtin_tools());
            lemma_builtins_fit_together();
            assert(Seq::<(Seq<char>, HandlerModel)>::empty() =~= seq![]);
        }
        match GlobalToolRegistry::empty().with_plugin_tools(tools) {
            Ok(r) => r,
            Err(_) => GlobalToolRegistry::empty(),
        }
    }
}

/// The tools that every agent starts with, and those of plugins.
pub fn build_registry(plugin_tools: Vec<ToolHandler>) -> (r: Result<GlobalToolRegistry, String>)
    ensures
        ({
            let all = registry::with_all(builtin_entries(), plugin_tools.deep_view());
            match r {
                Ok(next) => all == Ok::<Seq<(Seq<char>, HandlerModel)>, Seq<char>>(next@),
                Err(e) => all is Err && e@ == "plugin tool name conflicts with builtin: "@
                    + all->Err_0,
            }
        }),
{
    GlobalToolRegistry::builtins().with_plugin_tools(plugin_tools)
}

/// Each tool does what its name says.
pub proof fn lemma_builtins_do_what_they_say()
    ensures
        keyed::entry(builtin_entries(), "read_file"@) is Some,
        keyed::entry(builtin_entries(), "read_file"@)->0.action == ToolAction::ReadFile,
        keyed::entry(builtin_entries(), "write_file"@) is Some,
        keyed::entry(builtin_entries(), "write_file"@)->0.action == ToolAction::WriteFile,
        keyed::entry(builtin_entries(), "glob_search"@) is Some,
        keyed::entry(builtin_entries(), "glob_search"@)->0.action == ToolAction::GlobSearch,
        keyed::entry(builtin_entries(), "grep_search"@) is Some,
        keyed::entry(builtin_entries(), "grep_search"@)->0.action == ToolAction::GrepSearch,
        keyed::entry(builtin_entries(), "web_fetch"@) is Some,
        keyed::entry(builtin_entries(), "web_fetch"@)->0.action == ToolAction::WebFetch,
        keyed::entry(builtin_entries(), "todo_write"@) is Some,
        keyed::entry(builtin_entries(), "todo_write"@)->0.action == ToolAction::TodoWrite,
        keyed::entry(builtin_entries(), "github_wiki_publish"@) is Some,
        keyed::entry(builtin_entries(), "github_wiki_publish"@)->0.action
            == ToolAction::GithubWikiPublish,
        keyed::entry(builtin_entries(), "github_pages_publish"@) is Some,
        keyed::entry(builtin_entries(), "github_pages_publish"@)->0.action
            == ToolAction::GithubPagesPublish,
{
    assert(builtin_tools().len() == 8);
    lemma_builtin_is_found(0);
    lemma_builtin_is_found(1);
    lemma_builtin_is_found(2);
    lemma_builtin_is_found(3);
    lemma_builtin_is_found(4);
    lemma_builtin_is_found(5);
    lemma_builtin_is_found(6);
    lemma_builtin_is_found(7);
}

} // verus!
