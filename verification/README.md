# termstage

termstage shows a terminal session in a browser, and lets programs type into it
by a small API. Sessions are owned by tmux or rmux, or run on a pseudoterminal of
the program itself. One controller at a time may write to a session.

The library under `src/` holds what is decided: values and their limits, access
rules, leases, the session actor, the browser bridges, screen projection, the
command line and the HTTP client. It is written in Verus, and each public function
states in its contract what it returns or changes. The program under `app/` does the input and output around it.

| Modules | What they hold |
| --- | --- |
| `protocol`, `text`, `octets`, `net`, `clock`, `name_map` | values, texts and time |
| `security`, `web_url` | who may reach a server, and by which URL |
| `backend`, `session_registry`, `operation_lock`, `session_gateway`, `gateway_laws` | backend sessions and the lease to write to them |
| `tmux_backend`, `tmux_commands`, `rmux_backend` | what tmux and rmux are told and what they answer |
| `runtime`, `outbox`, `runtime_laws`, `local_terminal` | sessions on a pseudoterminal |
| `tunnel`, `browser`, `runtime_browser`, `screen`, `web` | browsers, their sockets, and the semantic API |
| `cli`, `cli_commands`, `cli_sessions`, `api_request`, `api_client` | the command line and the API client |

Functions whose names start with `law_` state what holds of several operations
together. Functions marked `external_body`, and the `assume_specification` items,
are the places where the library relies on an outside crate.
