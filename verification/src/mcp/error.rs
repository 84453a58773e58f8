//! What can go wrong with a tool server.

use vstd::prelude::*;
use crate::text::{chain, frame, framed};

verus! {

/// What went wrong in an exchange with a tool server, or on the way to it.
#[derive(Debug, PartialEq, Eq)]
pub enum McpError {
    /// A configuration file is not JSON; holds the parser's message.
    Malformed(String),
    /// A response or a configuration file is JSON of another shape than
    /// the expected one; holds what was expected.
    Invalid(String),
    /// The server answered with an error object; holds it as JSON text.
    Remote(String),
    /// The server's output ended before the response came; holds its name.
    Closed(String),
    /// The process could not be started, written to or read from; holds the
    /// cause.
    Io(String),
    /// No server of this name is configured.
    UnknownServer(String),
    /// The server of this name is configured as disabled.
    Disabled(String),
    /// The tool name does not have the namespaced form; holds the name.
    InvalidName(String),
    /// The name routes to a server that is not connected; holds its name.
    NotConnected(String),
}

/// The class of an [`McpError`].
#[derive(Debug, PartialEq, Eq, Clone, Copy)]
pub enum ErrorKind {
    Protocol,
    Connection,
    Routing,
}

/// The mathematical value of an [`McpError`]. The two messages that come
/// from outside the library are left out.
pub ghost enum McpErrorView {
    Malformed,
    Invalid(Seq<char>),
    Remote(Seq<char>),
    Closed(Seq<char>),
    Io,
    UnknownServer(Seq<char>),
    Disabled(Seq<char>),
    InvalidName(Seq<char>),
    NotConnected(Seq<char>),
}

impl View for McpError {
    type V = McpErrorView;

    open spec fn view(&self) -> McpErrorView {
        match self {
            McpError::Malformed(_) => McpErrorView::Malformed,
            McpError::Invalid(what) => McpErrorView::Invalid(what@),
            McpError::Remote(payload) => McpErrorView::Remote(payload@),
            McpError::Closed(server) => McpErrorView::Closed(server@),
            McpError::Io(_) => McpErrorView::Io,
            McpError::UnknownServer(server) => McpErrorView::UnknownServer(server@),
            McpError::Disabled(server) => McpErrorView::Disabled(server@),
            McpError::InvalidName(name) => McpErrorView::InvalidName(name@),
            McpError::NotConnected(server) => McpErrorView::NotConnected(server@),
        }
    }
}

impl McpError {
    /// The class of the error.
    pub open spec fn kind_of(self) -> ErrorKind {
        match self {
            McpError::Malformed(_) | McpError::Invalid(_) | McpError::Remote(_) | McpError::Closed(
                _,
            ) => ErrorKind::Protocol,
            McpError::Io(_) | McpError::UnknownServer(_) | McpError::Disabled(_) => {
                ErrorKind::Connection
            },
            McpError::InvalidName(_) | McpError::NotConnected(_) => ErrorKind::Routing,
        }
    }

    /// The message of the error.
    pub open spec fn message_of(self) -> Seq<char> {
        match self {
            McpError::Malformed(message) => message@,
            McpError::Invalid(what) => what@,
            McpError::Remote(payload) => "MCP error: "@ + payload@,
            McpError::Closed(server) => framed("MCP server '"@, server@, "' closed connection"@),
            McpError::Io(cause) => cause@,
            McpError::UnknownServer(server) => framed(
                "MCP server '"@,
                server@,
                "' not found in config"@,
            ),
            McpError::Disabled(server) => framed("MCP server '"@, server@, "' is disabled"@),
            McpError::InvalidName(name) => "Invalid MCP tool name: "@ + name@,
            McpError::NotConnected(server) => framed("MCP server '"@, server@, "' not connected"@),
        }
    }

    /// The class of the error.
    pub fn kind(&self) -> (out: ErrorKind)
        ensures
            out == self.kind_of(),
    {
        match self {
            McpError::Malformed(_) | McpError::Invalid(_) | McpError::Remote(_) | McpError::Closed(
                _,
            ) => ErrorKind::Protocol,
            McpError::Io(_) | McpError::UnknownServer(_) | McpError::Disabled(_) => {
                ErrorKind::Connection
            },
            McpError::InvalidName(_) | McpError::NotConnected(_) => ErrorKind::Routing,
        }
    }

    /// The message of the error.
    pub fn message(&self) -> (out: String)
        ensures
            out@ == self.message_of(),
    {
        match self {
            McpError::Malformed(message) => message.clone(),
            McpError::Invalid(what) => what.clone(),
            McpError::Remote(payload) => {
                chain("MCP error: ", payload.as_str())
            },
            McpError::Closed(server) => frame("MCP server '", server.as_str(), "' closed connection"),
            McpError::Io(cause) => cause.clone(),
            McpError::UnknownServer(server) => frame(
                "MCP server '",
                server.as_str(),
                "' not found in config",
            ),
            McpError::Disabled(server) => frame("MCP server '", server.as_str(), "' is disabled"),
            McpError::InvalidName(name) => {
                chain("Invalid MCP tool name: ", name.as_str())
            },
            McpError::NotConnected(server) => frame(
                "MCP server '",
                server.as_str(),
                "' not connected",
            ),
        }
    }
}

} // verus!
