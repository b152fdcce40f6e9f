//! Session gateway, runtime and protocol logic of a browser terminal.

pub mod api_client;
pub mod api_request;
pub mod backend;
pub mod browser;
pub mod cli;
pub mod cli_commands;
pub mod cli_sessions;
pub mod clock;
pub mod gateway_laws;
pub mod local_terminal;
pub mod name_map;
pub mod net;
pub mod octets;
pub mod operation_lock;
pub mod outbox;
pub mod protocol;
pub mod rmux_backend;
pub mod runtime;
pub mod runtime_browser;
pub mod runtime_laws;
pub mod screen;
pub mod security;
pub mod session_gateway;
pub mod session_registry;
pub mod text;
pub mod tmux_backend;
pub mod tmux_commands;
pub mod tunnel;
pub mod web;
pub mod web_url;
