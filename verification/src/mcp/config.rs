//! The configuration of the tool servers: how each is launched, and the file
//! that says so.

use vstd::prelude::*;
use crate::codec::parsed;
use crate::json::{member_values, values, Json, JsonValue};
use crate::mcp::error::{McpError, McpErrorView};

verus! {

/// How one tool server is launched.
#[derive(Debug, PartialEq, Eq)]
pub struct McpServerConfig {
    pub command: String,
    pub args: Vec<String>,
    /// Environment variables, name and value, in the order they are set.
    pub env: Vec<(String, String)>,
    pub disabled: bool,
}

/// The mathematical value of an [`McpServerConfig`].
pub ghost struct ConfigView {
    pub command: Seq<char>,
    pub args: Seq<Seq<char>>,
    pub env: Seq<(Seq<char>, Seq<char>)>,
    pub disabled: bool,
}

impl View for McpServerConfig {
    type V = ConfigView;

    open spec fn view(&self) -> ConfigView {
        ConfigView {
            command: self.command@,
            args: self.args.deep_view(),
            env: self.env.deep_view(),
            disabled: self.disabled,
        }
    }
}

impl DeepView for McpServerConfig {
    type V = ConfigView;

    open spec fn deep_view(&self) -> ConfigView {
        self@
    }
}

impl Clone for McpServerConfig {
    fn clone(&self) -> (out: McpServerConfig)
        ensures
            out@ == self@,
    {
        let mut args: Vec<String> = Vec::new();
        let mut i: usize = 0;
        while i < self.args.len()
            invariant
                i <= self.args.len(),
                args.len() == i,
                forall|j: int| 0 <= j < i ==> args@[j]@ == self.args@[j]@,
            decreases self.args.len() - i,
        {
            args.push(self.args[i].clone());
            i += 1;
        }
        let mut env: Vec<(String, String)> = Vec::new();
        let mut k: usize = 0;
        while k < self.env.len()
            invariant
                k <= self.env.len(),
                env.len() == k,
                forall|j: int|
                    0 <= j < k ==> env@[j].0@ == self.env@[j].0@ && env@[j].1@ == self.env@[j].1@,
            decreases self.env.len() - k,
        {
            env.push((self.env[k].0.clone(), self.env[k].1.clone()));
            k += 1;
        }
        assert(args.deep_view() =~= self.args.deep_view());
        assert(env.deep_view() =~= self.env.deep_view());
        McpServerConfig { command: self.command.clone(), args, env, disabled: self.disabled }
    }
}

/// The configured servers, each under its name.
#[derive(Debug, PartialEq, Eq)]
pub struct McpConfigFile {
    pub mcp_servers: Vec<(String, McpServerConfig)>,
}

/// The strings that `items` are; `None` where one of them is no string.
pub open spec fn all_texts(items: Seq<JsonValue>) -> Option<Seq<Seq<char>>>
    decreases items.len(),
{
    if items.len() == 0 {
        Some(Seq::empty())
    } else {
        match (all_texts(items.drop_last()), items.last()) {
            (Some(texts), JsonValue::Text(text)) => Some(texts.push(text)),
            _ => None,
        }
    }
}

/// The variables that `members` set; `None` where a value is no string.
pub open spec fn all_variables(members: Seq<(Seq<char>, JsonValue)>) -> Option<
    Seq<(Seq<char>, Seq<char>)>,
>
    decreases members.len(),
{
    if members.len() == 0 {
        Some(Seq::empty())
    } else {
        match (all_variables(members.drop_last()), members.last().1) {
            (Some(variables), JsonValue::Text(text)) => Some(
                variables.push((members.last().0, text)),
            ),
            _ => None,
        }
    }
}

/// The arguments of a server: the strings of `args`, none where it is
/// missing.
pub open spec fn args_of(member: Option<JsonValue>) -> Option<Seq<Seq<char>>> {
    match member {
        None => Some(Seq::empty()),
        Some(JsonValue::Array(items)) => all_texts(items),
        Some(_) => None,
    }
}

/// The environment of a server: the members of `env`, none where it is
/// missing.
pub open spec fn env_of(member: Option<JsonValue>) -> Option<Seq<(Seq<char>, Seq<char>)>> {
    match member {
        None => Some(Seq::empty()),
        Some(JsonValue::Object(members)) => all_variables(members),
        Some(_) => None,
    }
}

/// Whether a server is disabled: what `disabled` says, and no where it is
/// missing.
pub open spec fn disabled_of(member: Option<JsonValue>) -> Option<bool> {
    match member {
        None => Some(false),
        Some(JsonValue::Bool(flag)) => Some(flag),
        Some(_) => None,
    }
}

/// The launch specification that an entry of the configuration file
/// describes: its `command` is a string; `args`, `env` and `disabled` are
/// optional.
pub open spec fn server_of(entry: JsonValue) -> Option<ConfigView> {
    match (
        entry.get("command"@),
        args_of(entry.get("args"@)),
        env_of(entry.get("env"@)),
        disabled_of(entry.get("disabled"@)),
    ) {
        (Some(JsonValue::Text(command)), Some(args), Some(env), Some(disabled)) => Some(
            ConfigView { command, args, env, disabled },
        ),
        _ => None,
    }
}

/// The servers that the members describe, each under its key; `None` where
/// one of them describes none.
pub open spec fn servers_in(members: Seq<(Seq<char>, JsonValue)>) -> Option<
    Seq<(Seq<char>, ConfigView)>,
>
    decreases members.len(),
{
    if members.len() == 0 {
        Some(Seq::empty())
    } else {
        match (servers_in(members.drop_last()), server_of(members.last().1)) {
            (Some(servers), Some(server)) => Some(servers.push((members.last().0, server))),
            _ => None,
        }
    }
}

/// The servers that a configuration document names: the members of its
/// object `mcpServers`.
pub open spec fn servers_of(value: JsonValue) -> Option<Seq<(Seq<char>, ConfigView)>> {
    match value.get("mcpServers"@) {
        Some(JsonValue::Object(members)) => servers_in(members),
        _ => None,
    }
}

/// What is reported where a configuration document names no servers.
pub open spec fn bad_config() -> Seq<char> {
    "invalid server configuration"@
}

/// What the content of a configuration file gives: its servers, or the
/// failure to read them.
pub open spec fn config_in(content: Seq<char>) -> Result<
    Seq<(Seq<char>, ConfigView)>,
    McpErrorView,
> {
    match parsed(content) {
        None => Err(McpErrorView::Malformed),
        Some(value) => match servers_of(value) {
            Some(servers) => Ok(servers),
            None => Err(McpErrorView::Invalid(bad_config())),
        },
    }
}

/// One item that is no string spoils the whole list.
pub proof fn lemma_all_texts_fails(items: Seq<JsonValue>, at: int)
    requires
        0 <= at < items.len(),
        !(items[at] is Text),
    ensures
        all_texts(items) is None,
    decreases items.len(),
{
    if at < items.len() - 1 {
        lemma_all_texts_fails(items.drop_last(), at);
    }
}

/// One value that is no string spoils the whole environment.
pub proof fn lemma_all_variables_fails(members: Seq<(Seq<char>, JsonValue)>, at: int)
    requires
        0 <= at < members.len(),
        !(members[at].1 is Text),
    ensures
        all_variables(members) is None,
    decreases members.len(),
{
    if at < members.len() - 1 {
        lemma_all_variables_fails(members.drop_last(), at);
    }
}

/// One entry that describes no server spoils the whole configuration.
pub proof fn lemma_servers_in_fails(members: Seq<(Seq<char>, JsonValue)>, at: int)
    requires
        0 <= at < members.len(),
        server_of(members[at].1) is None,
    ensures
        servers_in(members) is None,
    decreases members.len(),
{
    if at < members.len() - 1 {
        lemma_servers_in_fails(members.drop_last(), at);
    }
}

/// Reads the arguments of a server.
fn read_args(member: Option<&Json>) -> (out: Option<Vec<String>>)
    ensures
        out.deep_view() == args_of(
            match member {
                Some(value) => Some(value@),
                None => None,
            },
        ),
{
    let mut args: Vec<String> = Vec::new();
    assert(args.deep_view() =~= Seq::<Seq<char>>::empty());
    let items = match member {
        None => {
            return Some(args);
        },
        Some(value) => match value.as_array() {
            Some(items) => items,
            None => {
                return None;
            },
        },
    };
    let ghost all = values(items@);
    let mut i: usize = 0;
    assert(all.take(0) =~= Seq::<JsonValue>::empty());
    while i < items.len()
        invariant
            i <= items.len(),
            all == values(items@),
            member is Some,
            member->0@ == JsonValue::Array(all),
            all_texts(all.take(i as int)) == Some(args.deep_view()),
        decreases items.len() - i,
    {
        let ghost before = args.deep_view();
        assert(all.take(i + 1).drop_last() =~= all.take(i as int));
        assert(all.take(i + 1).last() == items@[i as int]@);
        match &items[i] {
            Json::Text(text) => {
                args.push(text.clone());
                assert(args.deep_view() =~= before.push(text@));
            },
            _ => {
                proof {
                    lemma_all_texts_fails(all, i as int);
                }
                return None;
            },
        }
        i += 1;
    }
    assert(all.take(items.len() as int) =~= all);
    Some(args)
}

/// Reads the environment of a server.
fn read_env(member: Option<&Json>) -> (out: Option<Vec<(String, String)>>)
    ensures
        out.deep_view() == env_of(
            match member {
                Some(value) => Some(value@),
                None => None,
            },
        ),
{
    let mut env: Vec<(String, String)> = Vec::new();
    assert(env.deep_view() =~= Seq::<(Seq<char>, Seq<char>)>::empty());
    let members = match member {
        None => {
            return Some(env);
        },
        Some(value) => match value.as_object() {
            Some(members) => members,
            None => {
                return None;
            },
        },
    };
    let ghost all = member_values(members@);
    let mut i: usize = 0;
    assert(all.take(0) =~= Seq::<(Seq<char>, JsonValue)>::empty());
    while i < members.len()
        invariant
            i <= members.len(),
            all == member_values(members@),
            member is Some,
            member->0@ == JsonValue::Object(all),
            all_variables(all.take(i as int)) == Some(env.deep_view()),
        decreases members.len() - i,
    {
        let ghost before = env.deep_view();
        assert(all.take(i + 1).drop_last() =~= all.take(i as int));
        assert(all.take(i + 1).last() == all[i as int]);
        match &members[i].1 {
            Json::Text(text) => {
                let name = members[i].0.clone();
                env.push((name, text.clone()));
                assert(env.deep_view() =~= before.push((name@, text@)));
            },
            _ => {
                proof {
                    lemma_all_variables_fails(all, i as int);
                }
                return None;
            },
        }
        i += 1;
    }
    assert(all.take(members.len() as int) =~= all);
    Some(env)
}

/// Reads the launch specification of one server.
fn read_server(entry: &Json) -> (out: Option<McpServerConfig>)
    ensures
        out.deep_view() == server_of(entry@),
{
    let command = match entry.get("command") {
        Some(Json::Text(command)) => command.clone(),
        _ => {
            return None;
        },
    };
    let args = read_args(entry.get("args"));
    let env = read_env(entry.get("env"));
    let disabled = match entry.get("disabled") {
        None => Some(false),
        Some(Json::Bool(flag)) => Some(*flag),
        Some(_) => None,
    };
    match (args, env, disabled) {
        (Some(args), Some(env), Some(disabled)) => Some(
            McpServerConfig { command, args, env, disabled },
        ),
        _ => None,
    }
}

impl McpConfigFile {
    /// The servers that a configuration document names.
    pub fn decode(value: &Json) -> (out: Option<McpConfigFile>)
        ensures
            match out {
                Some(file) => servers_of(value@) == Some(file.mcp_servers.deep_view()),
                None => servers_of(value@) is None,
            },
    {
        let members = match value.get("mcpServers") {
            Some(servers) => match servers.as_object() {
                Some(members) => members,
                None => {
                    return None;
                },
            },
            None => {
                return None;
            },
        };
        let ghost all = member_values(members@);
        let mut servers: Vec<(String, McpServerConfig)> = Vec::new();
        let mut i: usize = 0;
        assert(all.take(0) =~= Seq::<(Seq<char>, JsonValue)>::empty());
        assert(servers.deep_view() =~= Seq::<(Seq<char>, ConfigView)>::empty());
        while i < members.len()
            invariant
                i <= members.len(),
                all == member_values(members@),
                value@.get("mcpServers"@) == Some(JsonValue::Object(all)),
                servers_in(all.take(i as int)) == Some(servers.deep_view()),
            decreases members.len() - i,
        {
            let ghost before = servers.deep_view();
            assert(all.take(i + 1).drop_last() =~= all.take(i as int));
            assert(all.take(i + 1).last() == all[i as int]);
            match read_server(&members[i].1) {
                Some(server) => {
                    let name = members[i].0.clone();
                    servers.push((name, server));
                    assert(servers.deep_view() =~= before.push((name@, server@)));
                },
                None => {
                    proof {
                        lemma_servers_in_fails(all, i as int);
                    }
                    return None;
                },
            }
            i += 1;
        }
        assert(all.take(members.len() as int) =~= all);
        Some(McpConfigFile { mcp_servers: servers })
    }

    /// Reads the content of a configuration file.
    pub fn parse(content: &str) -> (out: Result<McpConfigFile, McpError>)
        ensures
            match out {
                Ok(file) => config_in(content@) == Ok::<_, McpErrorView>(
                    file.mcp_servers.deep_view(),
                ),
                Err(error) => config_in(content@) == Err::<Seq<(Seq<char>, ConfigView)>, _>(error@),
            },
    {
        match Json::parse(content) {
            Err(cause) => Err(McpError::Malformed(cause)),
            Ok(value) => match McpConfigFile::decode(&value) {
                Some(file) => Ok(file),
                None => Err(McpError::Invalid("invalid server configuration".to_owned())),
            },
        }
    }
}

} // verus!
