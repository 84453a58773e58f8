//! The protocol session with one tool server.

use vstd::prelude::*;
use vstd::string::*;
use crate::json::{member, member_values, Json, JsonValue};
use crate::mcp::error::{McpError, McpErrorView};
use crate::mcp::tool::{bad_tool_list, decode_tools, tools_of, McpTool, McpToolView};
use crate::mcp::wire::{
    call_params, empty_object, initialize_params, no_params, notification_value,
    read_message, reply_of, request_value, to_wire, wire_line, Reply, ReplyView,
};

verus! {

/// The stage of a connection's life.
#[derive(Debug, PartialEq, Eq, Clone, Copy)]
pub enum ConnState {
    /// Created; the server process is being started.
    Connecting,
    /// The handshake is under way and the tool set not yet known.
    Initializing,
    /// Calls can be made.
    Ready,
    /// The connection was given up.
    Closed,
}

/// What the handshake waits for.
#[derive(Debug, PartialEq, Eq, Clone, Copy)]
pub enum Handshake {
    /// The response to `initialize`.
    Greeting,
    /// The response to `tools/list`.
    Listing,
}

/// The protocol session with one tool server: its name, the id of the next
/// request, the tool set taken when the connection was made, and its stage.
/// The process and its pipes belong to whoever drives the session.
#[derive(Debug)]
pub struct McpClient {
    name: String,
    next_id: u64,
    tools: Vec<McpTool>,
    state: ConnState,
    awaited: Handshake,
}

/// The mathematical value of an [`McpClient`].
pub ghost struct ClientView {
    pub name: Seq<char>,
    pub next_id: u64,
    pub tools: Seq<McpToolView>,
    pub state: ConnState,
    /// What the handshake waits for; it counts while the connection is
    /// initializing.
    pub awaited: Handshake,
}

impl ClientView {
    /// What holds of every session: ids start at 1, `initialize` goes out
    /// under id 1 and `tools/list` under id 2.
    pub open spec fn wf(self) -> bool {
        match self.state {
            ConnState::Connecting => self.next_id == 1,
            ConnState::Initializing => match self.awaited {
                Handshake::Greeting => self.next_id == 2,
                Handshake::Listing => self.next_id == 3,
            },
            _ => self.next_id >= 1,
        }
    }
}

impl View for McpClient {
    type V = ClientView;

    closed spec fn view(&self) -> ClientView {
        ClientView {
            name: self.name@,
            next_id: self.next_id,
            tools: self.tools.deep_view(),
            state: self.state,
            awaited: self.awaited,
        }
    }
}

impl DeepView for McpClient {
    type V = ClientView;

    open spec fn deep_view(&self) -> ClientView {
        self@
    }
}

/// What is to be done next in a handshake.
#[derive(Debug, PartialEq, Eq)]
pub enum Progress {
    /// Read the next line.
    Wait,
    /// Write this to the server's input, then read on.
    Send(String),
    /// The connection is ready.
    Ready,
    /// The connection is given up.
    Failed(McpError),
}

/// The mathematical value of a [`Progress`].
pub ghost enum ProgressView {
    Wait,
    Send(Seq<char>),
    Ready,
    Failed(McpErrorView),
}

impl View for Progress {
    type V = ProgressView;

    open spec fn view(&self) -> ProgressView {
        match self {
            Progress::Wait => ProgressView::Wait,
            Progress::Send(text) => ProgressView::Send(text@),
            Progress::Ready => ProgressView::Ready,
            Progress::Failed(error) => ProgressView::Failed(error@),
        }
    }
}

/// What follows the response to `initialize`: the notification that the
/// client is initialized, and the request for the tool set under `id`.
pub open spec fn after_greeting(id: u64) -> Seq<char> {
    wire_line(notification_value("notifications/initialized"@, no_params())) + wire_line(
        request_value(id, "tools/list"@, no_params()),
    )
}

/// One step of the handshake: what a read from the server's output means
/// for a connection that is initializing. A line that is not the awaited
/// response changes nothing. A failure closes the connection. The response
/// to `initialize` is followed by the notification and the request for the
/// tool set; the response to that request makes the connection ready with
/// the tools it describes, or closes it where it describes none.
pub open spec fn handshake_step(client: ClientView, line: Option<Seq<char>>) -> (
    ClientView,
    ProgressView,
) {
    match reply_of(client.name, (client.next_id - 1) as u64, line) {
        ReplyView::Skip => (client, ProgressView::Wait),
        ReplyView::Failed(error) => (
            ClientView { state: ConnState::Closed, ..client },
            ProgressView::Failed(error),
        ),
        ReplyView::Done(result) => match client.awaited {
            Handshake::Greeting => (
                ClientView {
                    next_id: (client.next_id + 1) as u64,
                    awaited: Handshake::Listing,
                    ..client
                },
                ProgressView::Send(after_greeting(client.next_id)),
            ),
            Handshake::Listing => match tools_of(result) {
                Some(tools) => (
                    ClientView { tools, state: ConnState::Ready, ..client },
                    ProgressView::Ready,
                ),
                None => (
                    ClientView { state: ConnState::Closed, ..client },
                    ProgressView::Failed(McpErrorView::Invalid(bad_tool_list())),
                ),
            },
        },
    }
}

impl McpClient {
    /// What holds of every session.
    #[verifier::type_invariant]
    spec fn valid(self) -> bool {
        self@.wf()
    }

    /// A new session for the server `name`: no request sent, no tool known.
    pub fn connect(name: &str) -> (out: McpClient)
        ensures
            out@ == (ClientView {
                name: name@,
                next_id: 1,
                tools: Seq::empty(),
                state: ConnState::Connecting,
                awaited: Handshake::Greeting,
            }),
    {
        let tools: Vec<McpTool> = Vec::new();
        assert(tools.deep_view() =~= Seq::<McpToolView>::empty());
        McpClient {
            name: name.to_owned(),
            next_id: 1,
            tools,
            state: ConnState::Connecting,
            awaited: Handshake::Greeting,
        }
    }

    /// The server's configured name.
    pub fn name(&self) -> (out: &str)
        ensures
            out@ == self@.name,
    {
        self.name.as_str()
    }

    /// The stage of the connection.
    pub fn state(&self) -> (out: ConnState)
        ensures
            out == self@.state,
    {
        self.state
    }

    /// The id that the next request will carry.
    pub fn next_id(&self) -> (out: u64)
        ensures
            out == self@.next_id,
            self@.wf(),
    {
        proof {
            use_type_invariant(self);
        }
        self.next_id
    }

    /// The tool set taken when the connection was made.
    pub fn tools(&self) -> (out: &Vec<McpTool>)
        ensures
            out.deep_view() == self@.tools,
    {
        &self.tools
    }

    /// The number of tools.
    pub fn tool_count(&self) -> (out: usize)
        ensures
            out == self@.tools.len(),
    {
        self.tools.len()
    }

    /// Moves the session on: sets the id of the next request, the stage and
    /// what is awaited, all at once.
    fn proceed(&mut self, next_id: u64, state: ConnState, awaited: Handshake)
        requires
            (ClientView { next_id, state, awaited, ..old(self)@ }).wf(),
        ensures
            final(self)@ == (ClientView { next_id, state, awaited, ..old(self)@ }),
    {
        proof {
            use_type_invariant(&*self);
        }
        let mut name = String::new();
        let mut tools: Vec<McpTool> = Vec::new();
        std::mem::swap(&mut name, &mut self.name);
        std::mem::swap(&mut tools, &mut self.tools);
        *self = McpClient { name, next_id, tools, state, awaited };
    }

    /// The line that carries the request `method` under `id`.
    fn send_request(id: u64, method: &str, params: Json) -> (out: String)
        ensures
            out@ == wire_line(request_value(id, method@, params@)),
    {
        let members = vec![
            member("jsonrpc", Json::text("2.0")),
            member("id", Json::Unsigned(id)),
            member("method", Json::text(method)),
            member("params", params),
        ];
        let request = Json::object(members);
        assert(member_values(members@) =~= request_value(id, method@, params@)->Object_0);
        to_wire(&request)
    }

    /// The line that carries a notification.
    fn send_notification(method: &str, params: Json) -> (out: String)
        ensures
            out@ == wire_line(notification_value(method@, params@)),
    {
        let members = vec![
            member("jsonrpc", Json::text("2.0")),
            member("method", Json::text(method)),
            member("params", params),
        ];
        let notification = Json::object(members);
        assert(member_values(members@) =~= notification_value(method@, params@)->Object_0);
        to_wire(&notification)
    }

    /// Opens the handshake once the process runs: gives the `initialize`
    /// request, which names the protocol version and the client. Its
    /// response is awaited next.
    pub fn initialize(&mut self) -> (out: String)
        requires
            old(self)@.state is Connecting,
        ensures
            out@ == wire_line(request_value(1, "initialize"@, initialize_params())),
            final(self)@ == (ClientView {
                next_id: 2,
                state: ConnState::Initializing,
                awaited: Handshake::Greeting,
                ..old(self)@
            }),
    {
        proof {
            use_type_invariant(&*self);
        }
        let info = vec![member("name", Json::text("mash")), member("version", Json::text("0.1.0"))];
        let client_info = Json::object(info);
        assert(member_values(info@) =~= seq![
            ("name"@, JsonValue::Text("mash"@)),
            ("version"@, JsonValue::Text("0.1.0"@)),
        ]);
        let members = vec![
            member("protocolVersion", Json::text("2024-11-05")),
            member("capabilities", empty_object()),
            member("clientInfo", client_info),
        ];
        let params = Json::object(members);
        assert(member_values(members@) =~= initialize_params()->Object_0);
        let line = McpClient::send_request(self.next_id, "initialize", params);
        self.proceed(2, ConnState::Initializing, Handshake::Greeting);
        line
    }

    /// What follows the response to `initialize`: the notification, then the
    /// request for the tool set.
    fn fetch_tools(id: u64) -> (out: String)
        ensures
            out@ == after_greeting(id),
    {
        let mut out = McpClient::send_notification("notifications/initialized", empty_object());
        out.append(McpClient::send_request(id, "tools/list", empty_object()).as_str());
        out
    }

    /// Takes one read from the server's output during the handshake; `None`
    /// stands for the end of the stream. Says what is to be done next.
    pub fn on_handshake(&mut self, line: Option<&str>) -> (out: Progress)
        requires
            old(self)@.state is Initializing,
        ensures
            (final(self)@, out@) == handshake_step(
                old(self)@,
                match line {
                    Some(text) => Some(text@),
                    None => None,
                },
            ),
    {
        proof {
            use_type_invariant(&*self);
        }
        let awaited_id = self.next_id - 1;
        match self.read_response(awaited_id, line) {
            Reply::Skip => Progress::Wait,
            Reply::Failed(error) => {
                self.proceed(self.next_id, ConnState::Closed, self.awaited);
                Progress::Failed(error)
            },
            Reply::Done(result) => match self.awaited {
                Handshake::Greeting => {
                    let text = McpClient::fetch_tools(self.next_id);
                    self.proceed(3, ConnState::Initializing, Handshake::Listing);
                    Progress::Send(text)
                },
                Handshake::Listing => match decode_tools(&result) {
                    Ok(tools) => {
                        self.tools = tools;
                        self.proceed(self.next_id, ConnState::Ready, self.awaited);
                        Progress::Ready
                    },
                    Err(error) => {
                        self.proceed(self.next_id, ConnState::Closed, self.awaited);
                        Progress::Failed(error)
                    },
                },
            },
        }
    }

    /// Gives up the connection.
    pub fn close(&mut self)
        ensures
            final(self)@ == (ClientView { state: ConnState::Closed, ..old(self)@ }),
    {
        proof {
            use_type_invariant(&*self);
        }
        self.proceed(self.next_id, ConnState::Closed, self.awaited);
    }

    /// Starts a call of `tool_name`: gives the `tools/call` request with its
    /// id.
    pub fn call_tool(&mut self, tool_name: &str, arguments: Json) -> (out: (u64, String))
        requires
            old(self)@.state is Ready,
            old(self)@.next_id < u64::MAX,
        ensures
            out.0 == old(self)@.next_id,
            out.1@ == wire_line(
                request_value(out.0, "tools/call"@, call_params(tool_name@, arguments@)),
            ),
            final(self)@ == (ClientView { next_id: (out.0 + 1) as u64, ..old(self)@ }),
    {
        proof {
            use_type_invariant(&*self);
        }
        let members = vec![member("name", Json::text(tool_name)), member("arguments", arguments)];
        let params = Json::object(members);
        assert(member_values(members@) =~= call_params(tool_name@, arguments@)->Object_0);
        let id = self.next_id;
        let line = McpClient::send_request(id, "tools/call", params);
        self.proceed(id + 1, ConnState::Ready, self.awaited);
        (id, line)
    }

    /// What one read from the server's output means for the request `id`;
    /// `None` stands for the end of the stream.
    pub fn read_response(&self, id: u64, line: Option<&str>) -> (out: Reply)
        ensures
            out@ == reply_of(
                self@.name,
                id,
                match line {
                    Some(text) => Some(text@),
                    None => None,
                },
            ),
    {
        match line {
            None => Reply::Failed(McpError::Closed(self.name.clone())),
            Some(text) => {
                if text.is_empty() {
                    return Reply::Skip;
                }
                match Json::parse(text) {
                    Ok(message) => read_message(&message, id),
                    Err(_) => Reply::Skip,
                }
            },
        }
    }
}

} // verus!
