//! The registry of tool servers: the configured ones, the connected ones,
//! the catalog of their tools, the routing of calls, and the decisions of the
//! local HTTP endpoint.

use vstd::prelude::*;
use crate::json::{member, member_values, values, Json, JsonValue};
use crate::mcp::client::{ClientView, McpClient};
use crate::mcp::config::{ConfigView, McpConfigFile, McpServerConfig};
use crate::mcp::error::{McpError, McpErrorView};
use crate::mcp::names::{namespace, namespaced, route, route_of};
use crate::mcp::tool::{clone_tools, McpTool, McpToolView};
use crate::mcp::wire::{call_params, request_value, wire_line};
use crate::text::same;

verus! {

/// A call as the local HTTP endpoint receives it.
#[derive(Debug, PartialEq, Eq)]
pub struct McpCallRequest {
    pub server: String,
    pub tool: String,
    pub arguments: Json,
}

/// A request that was started on a connection and awaits its response.
#[derive(Debug, PartialEq, Eq)]
pub struct Call {
    /// The server that the request goes to.
    pub server: String,
    /// The id that the response must carry.
    pub id: u64,
    /// The line to write to the server's input.
    pub line: String,
}

/// The mathematical value of a [`Call`].
pub ghost struct CallView {
    pub server: Seq<char>,
    pub id: u64,
    pub line: Seq<char>,
}

impl View for Call {
    type V = CallView;

    open spec fn view(&self) -> CallView {
        CallView { server: self.server@, id: self.id, line: self.line@ }
    }
}

/// The position of the entry named `name`, if there is one.
pub open spec fn config_at(configs: Seq<(Seq<char>, ConfigView)>, name: Seq<char>) -> Option<int>
    decreases configs.len(),
{
    if configs.len() == 0 {
        None
    } else if configs.last().0 == name {
        Some(configs.len() - 1)
    } else {
        config_at(configs.drop_last(), name)
    }
}

/// The position of the connection to the server `name`, if there is one.
pub open spec fn client_at(clients: Seq<ClientView>, name: Seq<char>) -> Option<int>
    decreases clients.len(),
{
    if clients.len() == 0 {
        None
    } else if clients.last().name == name {
        Some(clients.len() - 1)
    } else {
        client_at(clients.drop_last(), name)
    }
}

/// `configs` with `config` under `name`: in the place of the entry of that
/// name, or at the end where there was none.
pub open spec fn with_config(
    configs: Seq<(Seq<char>, ConfigView)>,
    name: Seq<char>,
    config: ConfigView,
) -> Seq<(Seq<char>, ConfigView)> {
    match config_at(configs, name) {
        Some(at) => configs.update(at, (name, config)),
        None => configs.push((name, config)),
    }
}

/// `clients` with `client`: in the place of the connection to the same
/// server, or at the end where there was none.
pub open spec fn with_client(clients: Seq<ClientView>, client: ClientView) -> Seq<ClientView> {
    match client_at(clients, client.name) {
        Some(at) => clients.update(at, client),
        None => clients.push(client),
    }
}

/// The entries of a configuration file taken in one after another, a later
/// entry replacing an earlier one of the same name.
pub open spec fn collected(entries: Seq<(Seq<char>, ConfigView)>) -> Seq<(Seq<char>, ConfigView)>
    decreases entries.len(),
{
    if entries.len() == 0 {
        Seq::empty()
    } else {
        with_config(collected(entries.drop_last()), entries.last().0, entries.last().1)
    }
}

/// No two entries have the same name.
pub open spec fn config_names_distinct(configs: Seq<(Seq<char>, ConfigView)>) -> bool {
    forall|i: int, j: int|
        0 <= i < j < configs.len() ==> (#[trigger] configs[i]).0 != (#[trigger] configs[j]).0
}

/// No two connections go to the same server.
pub open spec fn client_names_distinct(clients: Seq<ClientView>) -> bool {
    forall|i: int, j: int|
        0 <= i < j < clients.len() ==> (#[trigger] clients[i]).name != (#[trigger] clients[j]).name
}

/// Every connection is ready.
pub open spec fn all_ready(clients: Seq<ClientView>) -> bool {
    forall|i: int| 0 <= i < clients.len() ==> (#[trigger] clients[i]).state is Ready
}

/// Every connection has an id left for a further request.
pub open spec fn ids_left(clients: Seq<ClientView>) -> bool {
    forall|i: int| 0 <= i < clients.len() ==> (#[trigger] clients[i]).next_id < u64::MAX
}

/// The names of the servers that are not disabled, in order.
pub open spec fn enabled_names(configs: Seq<(Seq<char>, ConfigView)>) -> Seq<Seq<char>>
    decreases configs.len(),
{
    if configs.len() == 0 {
        Seq::empty()
    } else {
        let rest = enabled_names(configs.drop_last());
        if configs.last().1.disabled {
            rest
        } else {
            rest.push(configs.last().0)
        }
    }
}

/// The catalog entry of `tool` on `server`: its namespaced name, its
/// description (empty where it has none) and its input schema.
pub open spec fn definition_of(server: Seq<char>, tool: McpToolView) -> JsonValue {
    JsonValue::Object(
        seq![
            ("name"@, JsonValue::Text(namespaced(server, tool.name))),
            (
                "description"@,
                JsonValue::Text(
                    match tool.description {
                        Some(text) => text,
                        None => Seq::empty(),
                    },
                ),
            ),
            ("input_schema"@, tool.input_schema),
        ],
    )
}

/// The catalog entries of the tools of one server, in the server's order.
pub open spec fn definitions_of(server: Seq<char>, tools: Seq<McpToolView>) -> Seq<JsonValue> {
    Seq::new(tools.len(), |i: int| definition_of(server, tools[i]))
}

/// The catalog of all connections: server by server, in the order in which
/// the connections are held.
pub open spec fn catalog_of(clients: Seq<ClientView>) -> Seq<JsonValue>
    decreases clients.len(),
{
    if clients.len() == 0 {
        Seq::empty()
    } else {
        catalog_of(clients.drop_last()) + definitions_of(clients.last().name, clients.last().tools)
    }
}

/// What starting a call under the name `full` means for the connections
/// `clients`. A name that is not namespaced is refused, and so is one that
/// routes to a server without a connection. Else the call goes to the
/// connection of that server as a `tools/call` request for the tool, under
/// the connection's next id, which is then used up.
pub open spec fn started(clients: Seq<ClientView>, full: Seq<char>, arguments: JsonValue) -> Result<
    (CallView, Seq<ClientView>),
    McpErrorView,
> {
    match route_of(full) {
        None => Err(McpErrorView::InvalidName(full)),
        Some((server, tool)) => match client_at(clients, server) {
            None => Err(McpErrorView::NotConnected(server)),
            Some(at) => {
                let client = clients[at];
                Ok(
                    (
                        CallView {
                            server,
                            id: client.next_id,
                            line: wire_line(
                                request_value(
                                    client.next_id,
                                    "tools/call"@,
                                    call_params(tool, arguments),
                                ),
                            ),
                        },
                        clients.update(
                            at,
                            ClientView { next_id: (client.next_id + 1) as u64, ..client },
                        ),
                    ),
                )
            },
        },
    }
}

/// Listing the catalog twice with no connection made or replaced in between
/// gives the same sequence: the catalog depends on the names and the tool
/// sets of the connections alone, and starting a call changes neither.
pub proof fn lemma_catalog_depends(a: Seq<ClientView>, b: Seq<ClientView>)
    requires
        a.len() == b.len(),
        forall|i: int| 0 <= i < a.len() ==> a[i].name == b[i].name && a[i].tools == b[i].tools,
    ensures
        catalog_of(a) == catalog_of(b),
    decreases a.len(),
{
    if a.len() > 0 {
        lemma_catalog_depends(a.drop_last(), b.drop_last());
    }
}

/// The registry of tool servers: every configured server under its name, and
/// the connections that are live.
#[derive(Debug)]
pub struct McpManager {
    configs: Vec<(String, McpServerConfig)>,
    clients: Vec<McpClient>,
}

/// The mathematical value of an [`McpManager`].
pub ghost struct ManagerView {
    pub configs: Seq<(Seq<char>, ConfigView)>,
    pub clients: Seq<ClientView>,
}

impl McpManager {
    /// What holds of every registry.
    #[verifier::type_invariant]
    spec fn valid(self) -> bool {
        self@.wf()
    }
}

impl View for McpManager {
    type V = ManagerView;

    closed spec fn view(&self) -> ManagerView {
        ManagerView { configs: self.configs.deep_view(), clients: self.clients.deep_view() }
    }
}

impl ManagerView {
    /// What holds of every registry: names occur once, and the connections
    /// held are ready.
    pub open spec fn wf(self) -> bool {
        &&& config_names_distinct(self.configs)
        &&& client_names_distinct(self.clients)
        &&& all_ready(self.clients)
    }
}

/// The position of the entry named `name`.
fn find_config(configs: &Vec<(String, McpServerConfig)>, name: &str) -> (out: Option<usize>)
    ensures
        match out {
            Some(at) => config_at(configs.deep_view(), name@) == Some(at as int) && at
                < configs.len() && configs@[at as int].0@ == name@,
            None => config_at(configs.deep_view(), name@) is None,
        },
{
    let ghost all = configs.deep_view();
    let mut found: Option<usize> = None;
    let mut i: usize = 0;
    assert(all.take(0) =~= Seq::empty());
    while i < configs.len()
        invariant
            i <= configs.len(),
            all == configs.deep_view(),
            match found {
                Some(at) => config_at(all.take(i as int), name@) == Some(at as int) && at < i
                    && configs@[at as int].0@ == name@,
                None => config_at(all.take(i as int), name@) is None,
            },
        decreases configs.len() - i,
    {
        assert(all.take(i + 1).drop_last() =~= all.take(i as int));
        assert(all.take(i + 1).last() == all[i as int]);
        if same(configs[i].0.as_str(), name) {
            found = Some(i);
        }
        i += 1;
    }
    assert(all.take(configs.len() as int) =~= all);
    found
}

/// The position of the connection to the server `name`.
fn find_client(clients: &Vec<McpClient>, name: &str) -> (out: Option<usize>)
    ensures
        match out {
            Some(at) => client_at(clients.deep_view(), name@) == Some(at as int) && at
                < clients.len() && clients@[at as int]@.name == name@,
            None => client_at(clients.deep_view(), name@) is None,
        },
{
    let ghost all = clients.deep_view();
    let mut found: Option<usize> = None;
    let mut i: usize = 0;
    assert(all.take(0) =~= Seq::empty());
    while i < clients.len()
        invariant
            i <= clients.len(),
            all == clients.deep_view(),
            match found {
                Some(at) => client_at(all.take(i as int), name@) == Some(at as int) && at < i
                    && clients@[at as int]@.name == name@,
                None => client_at(all.take(i as int), name@) is None,
            },
        decreases clients.len() - i,
    {
        assert(all.take(i + 1).drop_last() =~= all.take(i as int));
        assert(all.take(i + 1).last() == all[i as int]);
        if same(clients[i].name(), name) {
            found = Some(i);
        }
        i += 1;
    }
    assert(all.take(clients.len() as int) =~= all);
    found
}

/// Where no entry is found, no entry has the name.
pub proof fn lemma_config_absent(configs: Seq<(Seq<char>, ConfigView)>, name: Seq<char>)
    requires
        config_at(configs, name) is None,
    ensures
        forall|i: int| 0 <= i < configs.len() ==> (#[trigger] configs[i]).0 != name,
    decreases configs.len(),
{
    if configs.len() > 0 {
        lemma_config_absent(configs.drop_last(), name);
        assert forall|i: int| 0 <= i < configs.len() implies (#[trigger] configs[i]).0 != name by {
            if i < configs.len() - 1 {
                assert(configs.drop_last()[i] == configs[i]);
            }
        }
    }
}

/// Where no connection is found, no connection goes to the server.
pub proof fn lemma_client_absent(clients: Seq<ClientView>, name: Seq<char>)
    requires
        client_at(clients, name) is None,
    ensures
        forall|i: int| 0 <= i < clients.len() ==> (#[trigger] clients[i]).name != name,
    decreases clients.len(),
{
    if clients.len() > 0 {
        lemma_client_absent(clients.drop_last(), name);
        assert forall|i: int| 0 <= i < clients.len() implies (#[trigger] clients[i]).name
            != name by {
            if i < clients.len() - 1 {
                assert(clients.drop_last()[i] == clients[i]);
            }
        }
    }
}

/// Each server's name with its tools, in the order of the connections.
pub open spec fn servers_and_tools(clients: Seq<ClientView>) -> Seq<(Seq<char>, Seq<McpToolView>)> {
    Seq::new(clients.len(), |i: int| (clients[i].name, clients[i].tools))
}

/// The catalog entries of the tools of one server.
fn server_definitions(server: &str, tools: &Vec<McpTool>, defs: &mut Vec<Json>)
    ensures
        values(final(defs)@) == values(old(defs)@) + definitions_of(server@, tools.deep_view()),
{
    let ghost before = values(defs@);
    let ghost all = tools.deep_view();
    let mut i: usize = 0;
    assert(before + definitions_of(server@, all.take(0)) =~= before);
    while i < tools.len()
        invariant
            i <= tools.len(),
            all == tools.deep_view(),
            values(defs@) == before + definitions_of(server@, all.take(i as int)),
        decreases tools.len() - i,
    {
        let tool = &tools[i];
        let description = match &tool.description {
            Some(text) => Json::Text(text.clone()),
            None => Json::Text(String::new()),
        };
        let members = vec![
            member("name", Json::Text(namespace(server, tool.name.as_str()))),
            member("description", description),
            member("input_schema", tool.input_schema.clone()),
        ];
        let def = Json::object(members);
        assert(member_values(members@) =~= definition_of(server@, tool@)->Object_0);
        let ghost sofar = values(defs@);
        defs.push(def);
        i += 1;
        assert(values(defs@) =~= before + definitions_of(server@, all.take(i as int))) by {
            assert(values(defs@) =~= sofar.push(def@));
            assert(definitions_of(server@, all.take(i as int)) =~= definitions_of(
                server@,
                all.take(i - 1),
            ).push(definition_of(server@, tool@)));
        }
    }
    assert(all.take(tools.len() as int) =~= all);
}

impl McpManager {
    /// The registry of the servers that a configuration file names, with no
    /// connection yet. Without a file no server is configured. Where the
    /// file names a server twice, the later entry counts.
    pub fn load(file: Option<McpConfigFile>) -> (out: McpManager)
        ensures
            out@.wf(),
            out@.clients == Seq::<ClientView>::empty(),
            out@.configs == match file {
                Some(f) => collected(f.mcp_servers.deep_view()),
                None => Seq::empty(),
            },
    {
        let mut configs: Vec<(String, McpServerConfig)> = Vec::new();
        let clients: Vec<McpClient> = Vec::new();
        assert(clients.deep_view() =~= Seq::<ClientView>::empty());
        assert(configs.deep_view() =~= Seq::<(Seq<char>, ConfigView)>::empty());
        match &file {
            None => {},
            Some(f) => {
                let entries = &f.mcp_servers;
                let ghost all = entries.deep_view();
                let mut i: usize = 0;
                assert(all.take(0) =~= Seq::empty());
                while i < entries.len()
                    invariant
                        i <= entries.len(),
                        all == entries.deep_view(),
                        configs.deep_view() == collected(all.take(i as int)),
                        config_names_distinct(configs.deep_view()),
                    decreases entries.len() - i,
                {
                    let ghost before = configs.deep_view();
                    assert(all.take(i + 1).drop_last() =~= all.take(i as int));
                    assert(all.take(i + 1).last() == all[i as int]);
                    let name = entries[i].0.clone();
                    let config = entries[i].1.clone();
                    match find_config(&configs, name.as_str()) {
                        Some(at) => {
                            configs.set(at, (name, config));
                            let ghost after = configs.deep_view();
                            assert(after =~= before.update(at as int, (name@, config@)));
                            assert forall|a: int, b: int| 0 <= a < b < after.len() implies (
                            #[trigger] after[a]).0 != (#[trigger] after[b]).0 by {
                                assert(after[a].0 == before[a].0);
                                assert(after[b].0 == before[b].0);
                            }
                        },
                        None => {
                            proof {
                                lemma_config_absent(before, name@);
                            }
                            configs.push((name, config));
                            let ghost after = configs.deep_view();
                            assert(after =~= before.push((name@, config@)));
                            assert forall|a: int, b: int| 0 <= a < b < after.len() implies (
                            #[trigger] after[a]).0 != (#[trigger] after[b]).0 by {
                                assert(after[a] == before[a]);
                                if b < before.len() {
                                    assert(after[b] == before[b]);
                                }
                            }
                        },
                    }
                    i += 1;
                }
                assert(all.take(entries.len() as int) =~= all);
            },
        }
        McpManager { configs, clients }
    }

    /// The connections that are held.
    pub(crate) fn clients(&self) -> (out: &Vec<McpClient>)
        ensures
            out.deep_view() == self@.clients,
    {
        &self.clients
    }

    /// Every configured server under its name.
    pub fn configs(&self) -> (out: &Vec<(String, McpServerConfig)>)
        ensures
            out.deep_view() == self@.configs,
    {
        &self.configs
    }

    /// Whether a connection to the server `name` is held.
    pub fn is_connected(&self, name: &str) -> (out: bool)
        ensures
            out == (client_at(self@.clients, name@) is Some),
    {
        find_client(&self.clients, name).is_some()
    }

    /// The connection to the server `name`.
    pub fn get_client(&self, name: &str) -> (out: Option<&McpClient>)
        ensures
            match out {
                Some(client) => client_at(self@.clients, name@) is Some && client@
                    == self@.clients[client_at(self@.clients, name@)->0],
                None => client_at(self@.clients, name@) is None,
            },
    {
        match find_client(&self.clients, name) {
            Some(at) => Some(&self.clients[at]),
            None => None,
        }
    }

    /// Decides a request to connect the server `name`: an unknown or a
    /// disabled server is refused, any other is to be launched as its
    /// configuration says.
    pub fn connect(&self, name: &str) -> (out: Result<McpServerConfig, McpError>)
        ensures
            match config_at(self@.configs, name@) {
                None => out is Err && out->Err_0@ == McpErrorView::UnknownServer(name@),
                Some(at) => if self@.configs[at].1.disabled {
                    out is Err && out->Err_0@ == McpErrorView::Disabled(name@)
                } else {
                    out is Ok && out->Ok_0@ == self@.configs[at].1
                },
            },
    {
        match find_config(&self.configs, name) {
            None => Err(McpError::UnknownServer(name.to_owned())),
            Some(at) => {
                if self.configs[at].1.disabled {
                    Err(McpError::Disabled(name.to_owned()))
                } else {
                    Ok(self.configs[at].1.clone())
                }
            },
        }
    }

    /// Takes in a connection whose handshake is done: it stands in the place
    /// of an earlier connection to the same server, or is added.
    pub fn attach(&mut self, client: McpClient)
        requires
            client@.state is Ready,
        ensures
            final(self)@.wf(),
            final(self)@.configs == old(self)@.configs,
            final(self)@.clients == with_client(old(self)@.clients, client@),
    {
        proof {
            use_type_invariant(&*self);
        }
        let ghost before = self.clients.deep_view();
        let mut clients: Vec<McpClient> = Vec::new();
        assert(clients.deep_view() =~= Seq::<ClientView>::empty());
        std::mem::swap(&mut clients, &mut self.clients);
        match find_client(&clients, client.name()) {
            Some(at) => {
                clients.set(at, client);
                let ghost after = clients.deep_view();
                assert(after =~= before.update(at as int, client@));
                assert forall|a: int, b: int| 0 <= a < b < after.len() implies (
                #[trigger] after[a]).name != (#[trigger] after[b]).name by {
                    assert(after[a].name == before[a].name);
                    assert(after[b].name == before[b].name);
                }
                assert forall|a: int| 0 <= a < after.len() implies (
                #[trigger] after[a]).state is Ready by {
                    if a != at {
                        assert(after[a] == before[a]);
                    }
                }
            },
            None => {
                proof {
                    lemma_client_absent(before, client@.name);
                }
                clients.push(client);
                let ghost after = clients.deep_view();
                assert(after =~= before.push(client@));
                assert forall|a: int, b: int| 0 <= a < b < after.len() implies (
                #[trigger] after[a]).name != (#[trigger] after[b]).name by {
                    assert(after[a] == before[a]);
                    if b < before.len() {
                        assert(after[b] == before[b]);
                    }
                }
                assert forall|a: int| 0 <= a < after.len() implies (
                #[trigger] after[a]).state is Ready by {
                    if a < before.len() {
                        assert(after[a] == before[a]);
                    }
                }
            },
        }
        self.clients = clients;
    }

    /// The servers that a bulk connect is to try: every server that is not
    /// disabled, in the order of the configuration.
    pub fn connect_all(&self) -> (out: Vec<String>)
        ensures
            out.deep_view() == enabled_names(self@.configs),
    {
        let ghost all = self.configs.deep_view();
        let mut names: Vec<String> = Vec::new();
        let mut i: usize = 0;
        assert(all.take(0) =~= Seq::empty());
        assert(names.deep_view() =~= Seq::<Seq<char>>::empty());
        while i < self.configs.len()
            invariant
                i <= self.configs.len(),
                all == self.configs.deep_view(),
                names.deep_view() == enabled_names(all.take(i as int)),
            decreases self.configs.len() - i,
        {
            let ghost before = names.deep_view();
            assert(all.take(i + 1).drop_last() =~= all.take(i as int));
            assert(all.take(i + 1).last() == all[i as int]);
            if !self.configs[i].1.disabled {
                let name = self.configs[i].0.clone();
                names.push(name);
                assert(names.deep_view() =~= before.push(name@));
            }
            i += 1;
        }
        assert(all.take(self.configs.len() as int) =~= all);
        names
    }

    /// The catalog: every tool of every connection under its namespaced name.
    pub fn tool_definitions(&self) -> (out: Vec<Json>)
        ensures
            values(out@) == catalog_of(self@.clients),
    {
        let ghost all = self.clients.deep_view();
        let mut defs: Vec<Json> = Vec::new();
        let mut i: usize = 0;
        assert(all.take(0) =~= Seq::empty());
        assert(values(defs@) =~= Seq::<JsonValue>::empty());
        while i < self.clients.len()
            invariant
                i <= self.clients.len(),
                all == self.clients.deep_view(),
                values(defs@) == catalog_of(all.take(i as int)),
            decreases self.clients.len() - i,
        {
            assert(all.take(i + 1).drop_last() =~= all.take(i as int));
            assert(all.take(i + 1).last() == all[i as int]);
            let client = &self.clients[i];
            server_definitions(client.name(), client.tools(), &mut defs);
            i += 1;
        }
        assert(all.take(self.clients.len() as int) =~= all);
        defs
    }

    /// Each connected server's name with its tools.
    pub fn iter_servers_and_tools(&self) -> (out: Vec<(String, Vec<McpTool>)>)
        ensures
            out.deep_view() == servers_and_tools(self@.clients),
    {
        let mut out: Vec<(String, Vec<McpTool>)> = Vec::new();
        let mut i: usize = 0;
        while i < self.clients.len()
            invariant
                i <= self.clients.len(),
                out.len() == i,
                forall|j: int|
                    0 <= j < i ==> out@[j].0@ == self.clients@[j]@.name && out@[j].1.deep_view()
                        == self.clients@[j]@.tools,
            decreases self.clients.len() - i,
        {
            let client = &self.clients[i];
            out.push((client.name().to_owned(), clone_tools(client.tools())));
            i += 1;
        }
        assert(out.deep_view() =~= servers_and_tools(self@.clients));
        out
    }

    /// Whether every connection has an id left for a further request.
    pub fn has_ids_left(&self) -> (out: bool)
        ensures
            out == ids_left(self@.clients),
    {
        let mut i: usize = 0;
        while i < self.clients.len()
            invariant
                i <= self.clients.len(),
                forall|j: int| 0 <= j < i ==> self.clients@[j]@.next_id < u64::MAX,
            decreases self.clients.len() - i,
        {
            if self.clients[i].next_id() == u64::MAX {
                assert(self@.clients[i as int].next_id == u64::MAX);
                return false;
            }
            i += 1;
        }
        assert forall|j: int| 0 <= j < self@.clients.len() implies (
        #[trigger] self@.clients[j]).next_id < u64::MAX by {
            assert(self@.clients[j] == self.clients@[j]@);
        }
        true
    }

    /// Routes a call by its namespaced name and starts it on the connection
    /// it routes to. A name of another form, and one that routes to a server
    /// without a connection, is refused, and the registry stays as it is.
    pub fn call_tool(&mut self, full_name: &str, arguments: &Json) -> (out: Result<Call, McpError>)
        requires
            ids_left(old(self)@.clients),
        ensures
            final(self)@.wf(),
            final(self)@.configs == old(self)@.configs,
            catalog_of(final(self)@.clients) == catalog_of(old(self)@.clients),
            match started(old(self)@.clients, full_name@, arguments@) {
                Ok((call, clients)) => out is Ok && out->Ok_0@ == call && final(self)@.clients
                    == clients,
                Err(error) => out is Err && out->Err_0@ == error && final(self)@ == old(self)@,
            },
    {
        proof {
            use_type_invariant(&*self);
        }
        let (server, tool) = match route(full_name) {
            Some(pair) => pair,
            None => {
                return Err(McpError::InvalidName(full_name.to_owned()));
            },
        };
        let at = match find_client(&self.clients, server.as_str()) {
            Some(at) => at,
            None => {
                return Err(McpError::NotConnected(server));
            },
        };
        let ghost before = self.clients.deep_view();
        let mut clients: Vec<McpClient> = Vec::new();
        assert(clients.deep_view() =~= Seq::<ClientView>::empty());
        std::mem::swap(&mut clients, &mut self.clients);
        assert(before[at as int] == clients@[at as int]@);
        let (id, line) = clients[at].call_tool(tool.as_str(), arguments.clone());
        proof {
            let after = clients.deep_view();
            let client = before[at as int];
            assert(after =~= before.update(
                at as int,
                ClientView { next_id: (client.next_id + 1) as u64, ..client },
            ));
            lemma_catalog_depends(before, after);
            assert forall|a: int, b: int| 0 <= a < b < after.len() implies (
            #[trigger] after[a]).name != (#[trigger] after[b]).name by {
                assert(after[a].name == before[a].name);
                assert(after[b].name == before[b].name);
            }
            assert forall|a: int| 0 <= a < after.len() implies (
            #[trigger] after[a]).state is Ready by {
                assert(after[a].state == before[a].state);
            }
        }
        self.clients = clients;
        Ok(Call { server, id, line })
    }
}

/// The name under which the local HTTP endpoint routes a request.
pub open spec fn facade_name(server: Seq<char>, tool: Seq<char>) -> Seq<char> {
    namespaced(server, tool)
}

/// Handles a request to the local HTTP endpoint up to the point where the
/// call is started: the request is routed under the name made of its server
/// and its tool.
pub fn mcp_call_handler(manager: &mut McpManager, body: &McpCallRequest) -> (out: Result<
    Call,
    McpError,
>)
    requires
        ids_left(old(manager)@.clients),
    ensures
        final(manager)@.wf(),
        final(manager)@.configs == old(manager)@.configs,
        catalog_of(final(manager)@.clients) == catalog_of(old(manager)@.clients),
        match started(
            old(manager)@.clients,
            facade_name(body.server@, body.tool@),
            body.arguments@,
        ) {
            Ok((call, clients)) => out is Ok && out->Ok_0@ == call && final(manager)@.clients
                == clients,
            Err(error) => out is Err && out->Err_0@ == error && final(manager)@ == old(manager)@,
        },
{
    let full_name = namespace(body.server.as_str(), body.tool.as_str());
    manager.call_tool(full_name.as_str(), &body.arguments)
}

/// The answer of the local HTTP endpoint to a call that has ended: status
/// 200 with the result text, or status 500 with the error's message.
pub fn facade_reply(outcome: Result<String, McpError>) -> (out: (u16, String))
    ensures
        match outcome {
            Ok(text) => out.0 == 200 && out.1@ == text@,
            Err(error) => out.0 == 500 && out.1@ == error.message_of(),
        },
{
    match outcome {
        Ok(text) => (200, text),
        Err(error) => (500, error.message()),
    }
}

} // verus!
