//! Sessions with external tool servers: the line-delimited JSON-RPC exchange
//! of one connection, and the registry that names, routes and lists the
//! tools of all of them.

pub mod client;
pub mod config;
pub mod error;
pub mod names;
pub mod prompt;
pub mod registry;
pub mod tool;
pub mod wire;

pub use self::client::{
    after_greeting, handshake_step, ClientView, ConnState, Handshake, McpClient, Progress,
    ProgressView,
};
pub use self::error::{ErrorKind, McpError, McpErrorView};
pub use self::names::{
    lemma_namespaced_distinct, lemma_route_namespaced, namespace, namespaced, prefix, route,
    route_of, separator,
};
pub use self::prompt::{
    all_entries, curl_example, first_three, format_mcp_tools_for_prompt, format_params_block,
    kind_name, param_line, param_lines, params_block, required_names, server_entries,
    short_description, strings_in, tool_entry, tools_prompt, NO_DESCRIPTION, TOOLS_HEADING,
};
pub use self::config::{
    all_texts, all_variables, args_of, bad_config, config_in, disabled_of, env_of, server_of,
    servers_in, servers_of, ConfigView, McpConfigFile, McpServerConfig,
};
pub use self::registry::{
    all_ready, catalog_of, client_at, client_names_distinct, collected, config_at,
    config_names_distinct, definition_of, definitions_of, enabled_names, facade_name,
    facade_reply, ids_left, lemma_catalog_depends, lemma_client_absent, lemma_config_absent,
    mcp_call_handler, servers_and_tools, started, with_client, with_config, Call, CallView,
    ManagerView, McpCallRequest, McpManager,
};
pub use self::tool::{
    bad_tool_list, clone_tools, decode_tools, description_of, lemma_no_tools,
    lemma_tools_in_fails, tool_of, tools_in, tools_of, McpTool, McpToolView,
};
pub use self::wire::{
    answers, call_params, initialize_params, lemma_other_line_skipped, lemma_skipped_line,
    no_params, notification_value, read_message, reply_of, reply_of_message, request_value,
    result_text, settle, texts_of, tool_text, wire_line, Reply, ReplyView,
};
