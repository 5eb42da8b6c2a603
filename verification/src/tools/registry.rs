//! The tools that the model can call: their definitions, and which action
//! stands behind a name.
use crate::json;
use crate::json::{Json, JsonModel};
use crate::keyed;
use crate::text;
use vstd::prelude::*;

verus! {

/// What the model is told of a tool.
#[derive(Debug)]
pub struct ToolDefinition {
    pub name: String,
    pub description: String,
    pub input_schema: Json,
}

/// What the model is told of a tool.
#[verifier::ext_equal]
pub struct DefinitionModel {
    pub name: Seq<char>,
    pub description: Seq<char>,
    pub input_schema: JsonModel,
}

impl DeepView for ToolDefinition {
    type V = DefinitionModel;

    open spec fn deep_view(&self) -> DefinitionModel {
        DefinitionModel {
            name: self.name@,
            description: self.description@,
            input_schema: self.input_schema@,
        }
    }
}

impl Clone for ToolDefinition {
    fn clone(&self) -> (r: ToolDefinition)
        ensures
            r.deep_view() == self.deep_view(),
    {
        ToolDefinition {
            name: self.name.clone(),
            description: self.description.clone(),
            input_schema: self.input_schema.clone(),
        }
    }
}

impl ToolDefinition {
    /// The definition as it is printed.
    pub fn to_json(&self) -> (r: Json)
        ensures
            r@ == JsonModel::empty_object().with("name"@, JsonModel::Text(self.name@)).with(
                "description"@,
                JsonModel::Text(self.description@),
            ).with("input_schema"@, self.input_schema@),
    {
        Json::empty_object().with("name", Json::text(self.name.as_str())).with(
            "description",
            Json::text(self.description.as_str()),
        ).with("input_schema", self.input_schema.clone())
    }
}

/// The value that a schema text stands for.
pub open spec fn schema_in(source: Seq<char>) -> JsonModel {
    match json::parsed(source) {
        Ok(m) => m,
        Err(_) => JsonModel::Null,
    }
}

/// A definition with its schema written as a JSON text.
pub open spec fn definition_of(
    name: Seq<char>,
    description: Seq<char>,
    schema: Seq<char>,
) -> DefinitionModel {
    DefinitionModel { name, description, input_schema: schema_in(schema) }
}

/// A tool with its schema written as a JSON text.
pub fn new_handler(name: &str, description: &str, schema: &str, action: ToolAction) -> (r:
    ToolHandler)
    ensures
        r@ == (HandlerModel { definition: definition_of(name@, description@, schema@), action }),
{
    let input_schema = match json::parse_json(schema) {
        Ok(v) => v,
        Err(_) => Json::Null,
    };
    ToolHandler::new(
        ToolDefinition {
            name: text::owned(name),
            description: text::owned(description),
            input_schema,
        },
        action,
    )
}

/// What is done when a tool is called.
#[derive(Debug, Clone, Copy, PartialEq, Eq, Structural)]
pub enum ToolAction {
    GithubWikiPublish,
    GithubPagesPublish,
    GlobSearch,
    GrepSearch,
    ReadFile,
    WebFetch,
    WriteFile,
    TodoWrite,
    Task,
    TaskGet,
    TaskList,
    TaskOutput,
    SpawnTeammate,
    TeamHuddle,
    SendTeammateMessage,
    BroadcastTeammateMessage,
    ReadTeammateInbox,
    TeamStatus,
    ShutdownTeammate,
    /// A tool of a plugin, by its place in the list of plugin tools.
    Plugin(usize),
}

/// A tool: its definition and its action.
#[derive(Debug)]
pub struct ToolHandler {
    definition: ToolDefinition,
    action: ToolAction,
}

/// A tool: its definition and its action.
#[verifier::ext_equal]
pub struct HandlerModel {
    pub definition: DefinitionModel,
    pub action: ToolAction,
}

impl View for ToolHandler {
    type V = HandlerModel;

    closed spec fn view(&self) -> HandlerModel {
        HandlerModel { definition: self.definition.deep_view(), action: self.action }
    }
}

impl DeepView for ToolHandler {
    type V = HandlerModel;

    open spec fn deep_view(&self) -> HandlerModel {
        self@
    }
}

impl Clone for ToolHandler {
    fn clone(&self) -> (r: ToolHandler)
        ensures
            r@ == self@,
    {
        ToolHandler { definition: self.definition.clone(), action: self.action }
    }
}

impl ToolHandler {
    /// A tool with the given definition and action.
    pub fn new(definition: ToolDefinition, action: ToolAction) -> (r: ToolHandler)
        ensures
            r@ == (HandlerModel { definition: definition.deep_view(), action }),
    {
        ToolHandler { definition, action }
    }

    /// The name under which the model calls the tool.
    pub fn name(&self) -> (r: &str)
        ensures
            r@ == self@.definition.name,
    {
        self.definition.name.as_str()
    }

    /// What the model is told of the tool.
    pub fn definition(&self) -> (r: ToolDefinition)
        ensures
            r.deep_view() == self@.definition,
    {
        self.definition.clone()
    }

    /// What is done when the tool is called.
    pub fn action(&self) -> (r: ToolAction)
        ensures
            r == self@.action,
    {
        self.action
    }
}

/// The tools of an agent, at most one under each name, in the order of their
/// names.
#[derive(Debug)]
pub struct GlobalToolRegistry {
    handlers: Vec<ToolHandler>,
}

/// Tools with their names as keys.
pub open spec fn named(handlers: Seq<HandlerModel>) -> Seq<(Seq<char>, HandlerModel)> {
    handlers.map_values(|h: HandlerModel| (h.definition.name, h))
}

impl View for GlobalToolRegistry {
    type V = Seq<(Seq<char>, HandlerModel)>;

    closed spec fn view(&self) -> Seq<(Seq<char>, HandlerModel)> {
        named(self.handlers.deep_view())
    }
}

/// The entries with all tools added one after another, or the first name that
/// is taken.
pub open spec fn with_all(
    entries: Seq<(Seq<char>, HandlerModel)>,
    plugins: Seq<HandlerModel>,
) -> Result<Seq<(Seq<char>, HandlerModel)>, Seq<char>>
    decreases plugins.len(),
{
    if plugins.len() == 0 {
        Ok(entries)
    } else {
        match with_all(entries, plugins.drop_last()) {
            Ok(before) => {
                let name = plugins.last().definition.name;
                if keyed::entry(before, name) is Some {
                    Err(name)
                } else {
                    Ok(keyed::with_entry(before, name, plugins.last()))
                }
            },
            Err(name) => Err(name),
        }
    }
}

impl GlobalToolRegistry {
    #[verifier::type_invariant]
    spec fn ordered(self) -> bool {
        keyed::keys_increase(named(self.handlers.deep_view()))
    }

    /// No tools at all.
    pub fn empty() -> (r: GlobalToolRegistry)
        ensures
            r@ == Seq::<(Seq<char>, HandlerModel)>::empty(),
    {
        let r = GlobalToolRegistry { handlers: Vec::new() };
        assert(r@ =~= Seq::<(Seq<char>, HandlerModel)>::empty());
        r
    }

    /// The place of a tool, or the place where one of that name belongs.
    fn place(&self, name: &str) -> (r: (usize, bool))
        ensures
            r.0 <= self.handlers@.len(),
            r.1 == (keyed::entry(self@, name@) is Some),
            r.1 ==> r.0 < self.handlers@.len() && self@[r.0 as int].0 == name@ && keyed::entry(
                self@,
                name@,
            ) == Some(self@[r.0 as int].1),
            !r.1 ==> keyed::with_entry_is_insert(self@, name@, r.0 as int),
    {
        proof {
            use_type_invariant(self);
        }
        let ghost all = self@;
        let mut at: usize = 0;
        while at < self.handlers.len() && text::is_before(self.handlers[at].name(), name)
            invariant
                at <= self.handlers@.len(),
                all == self@,
                all.len() == self.handlers@.len(),
                forall|k: int| 0 <= k < at ==> text::precedes((#[trigger] all[k]).0, name@),
            decreases self.handlers@.len() - at,
        {
            assert(all[at as int].0 == self.handlers@[at as int]@.definition.name);
            at = at + 1;
        }
        proof {
            if at < all.len() {
                assert(all[at as int].0 == self.handlers@[at as int]@.definition.name);
            }
            keyed::lemma_place(all, name@, at as int);
        }
        let found = at < self.handlers.len() && text::same_text(self.handlers[at].name(), name);
        (at, found)
    }

    /// The tools with one more under a new name.
    pub fn with_tool(self, tool: ToolHandler) -> (r: Result<GlobalToolRegistry, String>)
        ensures
            match r {
                Ok(next) => keyed::entry(self@, tool@.definition.name) is None && next@
                    == keyed::with_entry(self@, tool@.definition.name, tool@),
                Err(e) => keyed::entry(self@, tool@.definition.name) is Some && e@
                    == "tool name conflicts with existing handler: "@ + tool@.definition.name,
            },
    {
        let (at, found) = self.place(tool.name());
        if found {
            return Err(text::concat("tool name conflicts with existing handler: ", tool.name()));
        }
        Ok(self.insert_at(at, tool))
    }

    fn insert_at(self, at: usize, tool: ToolHandler) -> (r: GlobalToolRegistry)
        requires
            at <= self@.len(),
            keyed::entry(self@, tool@.definition.name) is None,
            keyed::with_entry_is_insert(self@, tool@.definition.name, at as int),
        ensures
            r@ == keyed::with_entry(self@, tool@.definition.name, tool@),
    {
        let ghost before = self@;
        let ghost model = tool@;
        proof {
            use_type_invariant(&self);
            keyed::lemma_with_entry_order(before, model.definition.name, model);
        }
        let mut handlers = self.handlers;
        handlers.insert(at, tool);
        proof {
            assert(named(handlers.deep_view()) =~= before.insert(
                at as int,
                (model.definition.name, model),
            ));
        }
        GlobalToolRegistry { handlers }
    }

    /// The tools without the one under the given name.
    pub fn without_tool(&self, name: &str) -> (r: GlobalToolRegistry)
        ensures
            r@ == keyed::without_entry(self@, name@),
    {
        proof {
            use_type_invariant(self);
            keyed::lemma_without_entry_order(self@, name@);
        }
        let ghost all = self@;
        let mut handlers: Vec<ToolHandler> = Vec::new();
        let mut i: usize = 0;
        proof {
            assert(all.take(0) =~= seq![]);
            assert(named(handlers.deep_view()) =~= seq![]);
        }
        while i < self.handlers.len()
            invariant
                i <= self.handlers@.len(),
                all == self@,
                all.len() == self.handlers@.len(),
                named(handlers.deep_view()) == keyed::without_entry(all.take(i as int), name@),
            decreases self.handlers@.len() - i,
        {
            let ghost before = named(handlers.deep_view());
            proof {
                assert(all.take(i + 1).drop_last() =~= all.take(i as int));
                assert(all.take(i + 1).last() == all[i as int]);
                assert(all[i as int] == (
                    self.handlers@[i as int]@.definition.name,
                    self.handlers@[i as int]@,
                ));
            }
            if !text::same_text(self.handlers[i].name(), name) {
                handlers.push(self.handlers[i].clone());
                assert(named(handlers.deep_view()) =~= before.push(all[i as int]));
            }
            i = i + 1;
        }
        proof {
            assert(all.take(all.len() as int) =~= all);
        }
        GlobalToolRegistry { handlers }
    }

    /// The tools with those of plugins, whose names must all be new.
    pub fn with_plugin_tools(self, plugin_tools: Vec<ToolHandler>) -> (r: Result<
        GlobalToolRegistry,
        String,
    >)
        ensures
            match r {
                Ok(next) => with_all(self@, plugin_tools.deep_view()) == Ok::<
                    Seq<(Seq<char>, HandlerModel)>,
                    Seq<char>,
                >(next@),
                Err(e) => with_all(self@, plugin_tools.deep_view()) is Err && e@
                    == "plugin tool name conflicts with builtin: "@ + with_all(
                    self@,
                    plugin_tools.deep_view(),
                )->Err_0,
            },
    {
        let ghost start = self@;
        let ghost all = plugin_tools.deep_view();
        let mut current = self;
        let mut i: usize = 0;
        assert(all.take(0) =~= seq![]);
        while i < plugin_tools.len()
            invariant
                i <= plugin_tools@.len(),
                start == self@,
                all == plugin_tools.deep_view(),
                with_all(start, all.take(i as int)) == Ok::<
                    Seq<(Seq<char>, HandlerModel)>,
                    Seq<char>,
                >(current@),
            decreases plugin_tools@.len() - i,
        {
            let plugin = plugin_tools[i].clone();
            proof {
                assert(all.take(i + 1).drop_last() =~= all.take(i as int));
                assert(all.take(i + 1).last() == plugin@);
            }
            let (at, found) = current.place(plugin.name());
            if found {
                proof {
                    lemma_with_all_stops(start, all, i + 1);
                }
                return Err(
                    text::concat("plugin tool name conflicts with builtin: ", plugin.name()),
                );
            }
            current = current.insert_at(at, plugin);
            i = i + 1;
        }
        assert(all.take(all.len() as int) =~= all);
        Ok(current)
    }

    /// The definitions of all tools, in the order of their names.
    pub fn definitions(&self) -> (r: Vec<ToolDefinition>)
        ensures
            r.deep_view() == self@.map_values(|e: (Seq<char>, HandlerModel)| e.1.definition),
    {
        let ghost wanted = self@.map_values(|e: (Seq<char>, HandlerModel)| e.1.definition);
        let mut r: Vec<ToolDefinition> = Vec::new();
        let mut i: usize = 0;
        assert(r.deep_view() =~= wanted.take(0));
        while i < self.handlers.len()
            invariant
                i <= self.handlers@.len(),
                wanted == self@.map_values(|e: (Seq<char>, HandlerModel)| e.1.definition),
                wanted.len() == self.handlers@.len(),
                r.deep_view() == wanted.take(i as int),
            decreases self.handlers@.len() - i,
        {
            let ghost before = r.deep_view();
            let d = self.handlers[i].definition();
            let ghost model = d.deep_view();
            assert(model == wanted[i as int]);
            r.push(d);
            assert(r.deep_view() =~= before.push(model));
            assert(wanted.take(i + 1) =~= wanted.take(i as int).push(wanted[i as int]));
            i = i + 1;
        }
        assert(wanted.take(i as int) =~= wanted);
        r
    }

    /// What is done when the model calls a tool by its name.
    pub fn execute(&self, name: &str) -> (r: Result<ToolAction, String>)
        ensures
            match r {
                Ok(action) => keyed::entry(self@, name@) is Some && action == keyed::entry(
                    self@,
                    name@,
                )->0.action,
                Err(e) => keyed::entry(self@, name@) is None && e@ == "unsupported tool: "@ + name@,
            },
    {
        let (at, found) = self.place(name);
        if found {
            assert(self@[at as int].1 == self.handlers@[at as int]@);
            Ok(self.handlers[at].action())
        } else {
            Err(text::concat("unsupported tool: ", name))
        }
    }
}

/// Once a name is taken, later plugins do not matter.
pub proof fn lemma_with_all_stops(
    entries: Seq<(Seq<char>, HandlerModel)>,
    plugins: Seq<HandlerModel>,
    upto: int,
)
    requires
        0 <= upto <= plugins.len(),
        with_all(entries, plugins.take(upto)) is Err,
    ensures
        with_all(entries, plugins) == with_all(entries, plugins.take(upto)),
    decreases plugins.len(),
{
    if upto == plugins.len() {
        assert(plugins.take(upto) =~= plugins);
    } else {
        assert(plugins.drop_last().take(upto) =~= plugins.take(upto));
        lemma_with_all_stops(entries, plugins.drop_last(), upto);
    }
}

/// A tool that was added can be executed, and every other tool as before.
pub proof fn lemma_added_tool_is_found(
    entries: Seq<(Seq<char>, HandlerModel)>,
    tool: HandlerModel,
    name: Seq<char>,
)
    requires
        keyed::keys_increase(entries),
    ensures
        keyed::entry(keyed::with_entry(entries, tool.definition.name, tool), name) == (if name
            == tool.definition.name {
            Some(tool)
        } else {
            keyed::entry(entries, name)
        }),
{
    keyed::lemma_entry_of_with_entry(entries, tool.definition.name, tool, name);
}

/// Adding a tool under a new name and taking it away again changes nothing.
pub proof fn lemma_add_then_remove(
    entries: Seq<(Seq<char>, HandlerModel)>,
    tool: HandlerModel,
)
    requires
        keyed::keys_increase(entries),
        keyed::entry(entries, tool.definition.name) is None,
    ensures
        keyed::without_entry(
            keyed::with_entry(entries, tool.definition.name, tool),
            tool.definition.name,
        ) == entries,
{
    keyed::lemma_with_then_without(entries, tool.definition.name, tool);
}

/// Tools with different names, none of which is taken, can all be added.
pub proof fn lemma_new_names_are_added(
    entries: Seq<(Seq<char>, HandlerModel)>,
    tools: Seq<HandlerModel>,
)
    requires
        keyed::keys_increase(entries),
        forall|i: int|
            0 <= i < tools.len() ==> keyed::entry(entries, (#[trigger] tools[i]).definition.name)
                is None,
        forall|i: int, j: int|
            0 <= i < j < tools.len() ==> (#[trigger] tools[i]).definition.name != (
            #[trigger] tools[j]).definition.name,
    ensures
        with_all(entries, tools) is Ok,
        keyed::keys_increase(with_all(entries, tools)->Ok_0),
        forall|name: Seq<char>|
            #![trigger keyed::entry(with_all(entries, tools)->Ok_0, name)]
            (forall|i: int| 0 <= i < tools.len() ==> (#[trigger] tools[i]).definition.name != name)
                ==> keyed::entry(with_all(entries, tools)->Ok_0, name) == keyed::entry(
                entries,
                name,
            ),
    decreases tools.len(),
{
    if tools.len() > 0 {
        let rest = tools.drop_last();
        let last = tools.last();
        assert forall|i: int| 0 <= i < rest.len() implies keyed::entry(
            entries,
            (#[trigger] rest[i]).definition.name,
        ) is None by {
            assert(rest[i] == tools[i]);
        }
        assert forall|i: int, j: int| 0 <= i < j < rest.len() implies (
        #[trigger] rest[i]).definition.name != (#[trigger] rest[j]).definition.name by {
            assert(rest[i] == tools[i]);
            assert(rest[j] == tools[j]);
        }
        lemma_new_names_are_added(entries, rest);
        let before = with_all(entries, rest)->Ok_0;
        assert forall|i: int| 0 <= i < rest.len() implies (#[trigger] rest[i]).definition.name
            != last.definition.name by {
            assert(rest[i] == tools[i]);
            assert(tools[tools.len() - 1] == last);
        }
        assert(keyed::entry(before, last.definition.name) == keyed::entry(
            entries,
            last.definition.name,
        ));
        assert(tools[tools.len() - 1] == last);
        keyed::lemma_with_entry_order(before, last.definition.name, last);
        assert forall|name: Seq<char>|
            #![trigger keyed::entry(with_all(entries, tools)->Ok_0, name)]
            (forall|i: int|
                0 <= i < tools.len() ==> (#[trigger] tools[i]).definition.name
                    != name) implies keyed::entry(with_all(entries, tools)->Ok_0, name)
            == keyed::entry(entries, name) by {
            keyed::lemma_entry_of_with_entry(before, last.definition.name, last, name);
            assert(tools[tools.len() - 1] == last);
            assert forall|i: int| 0 <= i < rest.len() implies (#[trigger] rest[i]).definition.name
                != name by {
                assert(rest[i] == tools[i]);
            }
        }
    }
}

/// Every tool that was added is found under its name.
pub proof fn lemma_added_tools_are_found(
    entries: Seq<(Seq<char>, HandlerModel)>,
    tools: Seq<HandlerModel>,
    k: int,
)
    requires
        keyed::keys_increase(entries),
        with_all(entries, tools) is Ok,
        0 <= k < tools.len(),
    ensures
        keyed::keys_increase(with_all(entries, tools)->Ok_0),
        keyed::entry(with_all(entries, tools)->Ok_0, tools[k].definition.name) == Some(tools[k]),
    decreases tools.len(),
{
    lemma_additions_keep_order(entries, tools);
    let rest = tools.drop_last();
    let last = tools.last();
    let before = with_all(entries, rest)->Ok_0;
    lemma_additions_keep_order(entries, rest);
    keyed::lemma_entry_of_with_entry(
        before,
        last.definition.name,
        last,
        tools[k].definition.name,
    );
    if k < tools.len() - 1 {
        lemma_added_tools_are_found(entries, rest, k);
    }
}

proof fn lemma_additions_keep_order(
    entries: Seq<(Seq<char>, HandlerModel)>,
    tools: Seq<HandlerModel>,
)
    requires
        keyed::keys_increase(entries),
        with_all(entries, tools) is Ok,
    ensures
        keyed::keys_increase(with_all(entries, tools)->Ok_0),
    decreases tools.len(),
{
    if tools.len() > 0 {
        lemma_additions_keep_order(entries, tools.drop_last());
        keyed::lemma_with_entry_order(
            with_all(entries, tools.drop_last())->Ok_0,
            tools.last().definition.name,
            tools.last(),
        );
    }
}

/// A tool never takes the place of another: one whose name is taken is refused.
pub proof fn lemma_taken_name_is_refused(
    entries: Seq<(Seq<char>, HandlerModel)>,
    tools: Seq<HandlerModel>,
    k: int,
)
    requires
        keyed::keys_increase(entries),
        0 <= k < tools.len(),
        keyed::entry(entries, tools[k].definition.name) is Some,
    ensures
        with_all(entries, tools) is Err,
    decreases tools.len(),
{
    let rest = tools.drop_last();
    if k < tools.len() - 1 {
        assert(rest[k] == tools[k]);
        lemma_taken_name_is_refused(entries, rest, k);
    } else if with_all(entries, rest) is Ok {
        lemma_tools_stay(entries, rest, tools[k].definition.name);
    }
}

/// The tools that there were before stay as they were.
pub proof fn lemma_tools_stay(
    entries: Seq<(Seq<char>, HandlerModel)>,
    tools: Seq<HandlerModel>,
    name: Seq<char>,
)
    requires
        keyed::keys_increase(entries),
        with_all(entries, tools) is Ok,
        keyed::entry(entries, name) is Some,
    ensures
        keyed::entry(with_all(entries, tools)->Ok_0, name) == keyed::entry(entries, name),
    decreases tools.len(),
{
    if tools.len() > 0 {
        let rest = tools.drop_last();
        let last = tools.last();
        lemma_tools_stay(entries, rest, name);
        lemma_additions_keep_order(entries, rest);
        let before = with_all(entries, rest)->Ok_0;
        keyed::lemma_entry_of_with_entry(before, last.definition.name, last, name);
    }
}

} // verus!
