//! Command lines for tmux.

use vstd::prelude::*;

use crate::backend::{BackendScrollDirection, BackendSessionRef, SessionRefView};
use crate::protocol::{SessionName, TerminalSize};
use crate::tmux_backend::TmuxSessionCommand;

verus! {

/// The arguments of several commands.
pub open spec fn command_texts(list: Seq<Vec<String>>) -> Seq<Seq<Seq<char>>> {
    list.map_values(|command: Vec<String>| crate::text::texts(command@))
}

/// Adds a command to a list.
fn push_command(list: &mut Vec<Vec<String>>, command: &[&str])
    ensures
        command_texts(final(list)@) == command_texts(old(list)@).push(
            crate::tmux_backend::slices(command@),
        ),
{
    let ghost before = list@;
    list.push(crate::tmux_backend::args(command));
    proof {
        assert(command_texts(list@) =~= command_texts(before).push(
            crate::tmux_backend::slices(command@),
        ));
    }
}

/// The copy mode command for a scroll direction.
pub open spec fn scroll_word(direction: BackendScrollDirection) -> Seq<char> {
    match direction {
        BackendScrollDirection::Up => "scroll-up"@,
        BackendScrollDirection::Down => "scroll-down"@,
    }
}

/// The words that list the names of all sessions.
pub open spec fn list_words() -> Seq<Seq<char>> {
    seq!["list-sessions"@, "-F"@, "#{session_name}"@]
}

/// Lists the names of all sessions.
pub fn list_sessions_args() -> (r: Vec<String>)
    ensures
        crate::text::texts(r@) == list_words(),
{
    let r = crate::tmux_backend::args(&["list-sessions", "-F", "#{session_name}"]);
    proof {
        assert(crate::text::texts(r@) =~= list_words());
    }
    r
}

/// The words that ask for the details of a session.
pub open spec fn inspect_words(session: Seq<char>) -> Seq<Seq<char>> {
    seq![
        "display-message"@,
        "-p"@,
        "-t"@,
        session,
        "#{session_name}\t#{window_id}\t#{pane_id}\t#{pane_width}\t#{pane_height}"@,
    ]
}

/// Asks for the details of a session.
pub fn inspect_session_args(session: &SessionName) -> (r: Vec<String>)
    ensures
        crate::text::texts(r@) == inspect_words(session@),
{
    let r = crate::tmux_backend::args(
        &[
            "display-message",
            "-p",
            "-t",
            session.as_str(),
            "#{session_name}\t#{window_id}\t#{pane_id}\t#{pane_width}\t#{pane_height}",
        ],
    );
    proof {
        assert(crate::text::texts(r@) =~= inspect_words(session@));
    }
    r
}

/// The words that kill a session.
pub open spec fn kill_words(session: Seq<char>) -> Seq<Seq<char>> {
    seq!["kill-session"@, "-t"@, session]
}

/// Kills a session.
pub fn kill_session_args(session: &SessionName) -> (r: Vec<String>)
    ensures
        crate::text::texts(r@) == kill_words(session@),
{
    let r = crate::tmux_backend::args(&["kill-session", "-t", session.as_str()]);
    proof {
        assert(crate::text::texts(r@) =~= kill_words(session@));
    }
    r
}

/// The words that ask whether a session exists.
pub open spec fn has_words(session: Seq<char>) -> Seq<Seq<char>> {
    seq!["has-session"@, "-t"@, session]
}

/// Asks whether a session exists.
pub fn has_session_args(session: &SessionName) -> (r: Vec<String>)
    ensures
        crate::text::texts(r@) == has_words(session@),
{
    let r = crate::tmux_backend::args(&["has-session", "-t", session.as_str()]);
    proof {
        assert(crate::text::texts(r@) =~= has_words(session@));
    }
    r
}

/// The words that ask how many clients are attached to a session.
pub open spec fn attached_words(session: Seq<char>) -> Seq<Seq<char>> {
    seq!["display-message"@, "-p"@, "-t"@, session, "#{session_attached}"@]
}

/// Asks how many clients are attached to a session.
pub fn attached_args(session: &SessionName) -> (r: Vec<String>)
    ensures
        crate::text::texts(r@) == attached_words(session@),
{
    let r = crate::tmux_backend::args(&["display-message", "-p", "-t", session.as_str(), "#{session_attached}"]);
    proof {
        assert(crate::text::texts(r@) =~= attached_words(session@));
    }
    r
}

/// The words that ask for the active pane of a session.
pub open spec fn resolve_words(session: Seq<char>) -> Seq<Seq<char>> {
    seq!["display-message"@, "-p"@, "-t"@, session, "#{window_id} #{pane_id}"@]
}

/// Asks for the active pane of a session.
pub fn resolve_args(session: &SessionName) -> (r: Vec<String>)
    ensures
        crate::text::texts(r@) == resolve_words(session@),
{
    let r = crate::tmux_backend::args(&["display-message", "-p", "-t", session.as_str(), "#{window_id} #{pane_id}"]);
    proof {
        assert(crate::text::texts(r@) =~= resolve_words(session@));
    }
    r
}

/// The words that type literal text.
pub open spec fn text_words(pane: Seq<char>, text: Seq<char>) -> Seq<Seq<char>> {
    seq!["send-keys"@, "-t"@, pane, "-l"@, "--"@, text]
}

/// Types literal text.
pub fn send_text_args(target: &BackendSessionRef, text: &str) -> (r: Vec<String>)
    ensures
        crate::text::texts(r@) == text_words(target@.pane, text@),
{
    let r = crate::tmux_backend::args(&["send-keys", "-t", target.pane().as_str(), "-l", "--", text]);
    proof {
        assert(crate::text::texts(r@) =~= text_words(target@.pane, text@));
    }
    r
}

/// The words that type a command and confirm it.
pub open spec fn run_words(pane: Seq<char>, command: Seq<char>) -> Seq<Seq<char>> {
    seq!["send-keys"@, "-t"@, pane, command, "Enter"@]
}

/// Types a command and confirms it.
pub fn run_command_args(target: &BackendSessionRef, command: &str) -> (r: Vec<String>)
    ensures
        crate::text::texts(r@) == run_words(target@.pane, command@),
{
    let r = crate::tmux_backend::args(&["send-keys", "-t", target.pane().as_str(), command, "Enter"]);
    proof {
        assert(crate::text::texts(r@) =~= run_words(target@.pane, command@));
    }
    r
}

/// The words that ask for the size and cursor of a pane.
pub open spec fn metadata_words(pane: Seq<char>) -> Seq<Seq<char>> {
    seq![
        "display-message"@,
        "-p"@,
        "-t"@,
        pane,
        "#{pane_width} #{pane_height} #{cursor_x} #{cursor_y} #{cursor_flag}"@,
    ]
}

/// Asks for the size and cursor of a pane.
pub fn metadata_args(target: &BackendSessionRef) -> (r: Vec<String>)
    ensures
        crate::text::texts(r@) == metadata_words(target@.pane),
{
    let r = crate::tmux_backend::args(
        &[
            "display-message",
            "-p",
            "-t",
            target.pane().as_str(),
            "#{pane_width} #{pane_height} #{cursor_x} #{cursor_y} #{cursor_flag}",
        ],
    );
    proof {
        assert(crate::text::texts(r@) =~= metadata_words(target@.pane));
    }
    r
}

/// The words that capture the screen of a pane with its styles.
pub open spec fn capture_words(pane: Seq<char>) -> Seq<Seq<char>> {
    seq!["capture-pane"@, "-e"@, "-p"@, "-t"@, pane]
}

/// Captures the screen of a pane with its styles.
pub fn capture_args(target: &BackendSessionRef) -> (r: Vec<String>)
    ensures
        crate::text::texts(r@) == capture_words(target@.pane),
{
    let r = crate::tmux_backend::args(&["capture-pane", "-e", "-p", "-t", target.pane().as_str()]);
    proof {
        assert(crate::text::texts(r@) =~= capture_words(target@.pane));
    }
    r
}

/// The words that attach a terminal to a session.
pub open spec fn attach_words(session: Seq<char>) -> Seq<Seq<char>> {
    seq!["-2"@, "-T"@, "RGB"@, "attach-session"@, "-t"@, session]
}

/// Attaches a terminal to a session.
pub fn attach_session_args(session: &SessionName) -> (r: Vec<String>)
    ensures
        crate::text::texts(r@) == attach_words(session@),
{
    let r = crate::tmux_backend::args(&["-2", "-T", "RGB", "attach-session", "-t", session.as_str()]);
    proof {
        assert(crate::text::texts(r@) =~= attach_words(session@));
    }
    r
}

/// Sets up the environment and the options of a session.
pub open spec fn session_setup(session: Seq<char>, version: Seq<char>) -> Seq<Seq<Seq<char>>> {
    seq![
        seq!["set-environment"@, "-t"@, session, "-u"@, "NO_COLOR"@],
        seq!["set-environment"@, "-t"@, session, "-u"@, "ANSI_COLORS_DISABLED"@],
        seq!["set-environment"@, "-t"@, session, "COLORTERM"@, "truecolor"@],
        seq!["set-environment"@, "-t"@, session, "CLICOLOR"@, "1"@],
        seq!["set-environment"@, "-t"@, session, "TERM_PROGRAM"@, "termstage"@],
        seq!["set-environment"@, "-t"@, session, "TERM_PROGRAM_VERSION"@, version],
        seq!["set-option"@, "-t"@, session, "mouse"@, "off"@],
        seq!["set-option"@, "-t"@, session, "history-limit"@, "100000"@],
    ]
}

/// Sets up the environment and the options of a session.
pub fn prepare_session_commands(session: &SessionName, version: &str) -> (r: Vec<Vec<String>>)
    ensures
        command_texts(r@) == session_setup(session@, version@),
{
    let mut list: Vec<Vec<String>> = Vec::new();
    push_command(&mut list, &["set-environment", "-t", session.as_str(), "-u", "NO_COLOR"]);
    push_command(
        &mut list,
        &["set-environment", "-t", session.as_str(), "-u", "ANSI_COLORS_DISABLED"],
    );
    push_command(
        &mut list,
        &["set-environment", "-t", session.as_str(), "COLORTERM", "truecolor"],
    );
    push_command(&mut list, &["set-environment", "-t", session.as_str(), "CLICOLOR", "1"]);
    push_command(
        &mut list,
        &["set-environment", "-t", session.as_str(), "TERM_PROGRAM", "termstage"],
    );
    push_command(
        &mut list,
        &["set-environment", "-t", session.as_str(), "TERM_PROGRAM_VERSION", version],
    );
    push_command(&mut list, &["set-option", "-t", session.as_str(), "mouse", "off"]);
    push_command(&mut list, &["set-option", "-t", session.as_str(), "history-limit", "100000"]);
    proof {
        assert(command_texts(list@) =~~= session_setup(session@, version@));
    }
    list
}

/// Sets up the environment of the server.
pub open spec fn server_environment(version: Seq<char>) -> Seq<Seq<Seq<char>>> {
    seq![
        seq!["set-environment"@, "-g"@, "-u"@, "NO_COLOR"@],
        seq!["set-environment"@, "-g"@, "-u"@, "ANSI_COLORS_DISABLED"@],
        seq!["set-environment"@, "-g"@, "COLORTERM"@, "truecolor"@],
        seq!["set-environment"@, "-g"@, "CLICOLOR"@, "1"@],
        seq!["set-environment"@, "-g"@, "TERM_PROGRAM"@, "termstage"@],
        seq!["set-environment"@, "-g"@, "TERM_PROGRAM_VERSION"@, version],
    ]
}

/// Sets up the environment of the server.
pub fn server_environment_commands(version: &str) -> (r: Vec<Vec<String>>)
    ensures
        command_texts(r@) == server_environment(version@),
{
    let mut list: Vec<Vec<String>> = Vec::new();
    push_command(&mut list, &["set-environment", "-g", "-u", "NO_COLOR"]);
    push_command(&mut list, &["set-environment", "-g", "-u", "ANSI_COLORS_DISABLED"]);
    push_command(&mut list, &["set-environment", "-g", "COLORTERM", "truecolor"]);
    push_command(&mut list, &["set-environment", "-g", "CLICOLOR", "1"]);
    push_command(&mut list, &["set-environment", "-g", "TERM_PROGRAM", "termstage"]);
    push_command(&mut list, &["set-environment", "-g", "TERM_PROGRAM_VERSION", version]);
    proof {
        assert(command_texts(list@) =~~= server_environment(version@));
    }
    list
}

/// Sets up the environment of a session.
pub open spec fn session_environment(session: Seq<char>, version: Seq<char>) -> Seq<Seq<Seq<char>>> {
    seq![
        seq!["set-environment"@, "-t"@, session, "-u"@, "NO_COLOR"@],
        seq!["set-environment"@, "-t"@, session, "-u"@, "ANSI_COLORS_DISABLED"@],
        seq!["set-environment"@, "-t"@, session, "COLORTERM"@, "truecolor"@],
        seq!["set-environment"@, "-t"@, session, "CLICOLOR"@, "1"@],
        seq!["set-environment"@, "-t"@, session, "TERM_PROGRAM"@, "termstage"@],
        seq!["set-environment"@, "-t"@, session, "TERM_PROGRAM_VERSION"@, version],
    ]
}

/// Sets up the environment of a session.
pub fn session_environment_commands(session: &SessionName, version: &str) -> (r: Vec<Vec<String>>)
    ensures
        command_texts(r@) == session_environment(session@, version@),
{
    let mut list: Vec<Vec<String>> = Vec::new();
    push_command(&mut list, &["set-environment", "-t", session.as_str(), "-u", "NO_COLOR"]);
    push_command(
        &mut list,
        &["set-environment", "-t", session.as_str(), "-u", "ANSI_COLORS_DISABLED"],
    );
    push_command(
        &mut list,
        &["set-environment", "-t", session.as_str(), "COLORTERM", "truecolor"],
    );
    push_command(&mut list, &["set-environment", "-t", session.as_str(), "CLICOLOR", "1"]);
    push_command(
        &mut list,
        &["set-environment", "-t", session.as_str(), "TERM_PROGRAM", "termstage"],
    );
    push_command(
        &mut list,
        &["set-environment", "-t", session.as_str(), "TERM_PROGRAM_VERSION", version],
    );
    proof {
        assert(command_texts(list@) =~~= session_environment(session@, version@));
    }
    list
}

/// Sets up a session for a terminal that is attached to it.
pub open spec fn session_options(session: Seq<char>) -> Seq<Seq<Seq<char>>> {
    seq![
        seq!["set-option"@, "-t"@, session, "mouse"@, "on"@],
        seq!["set-option"@, "-t"@, session, "history-limit"@, "100000"@],
    ]
}

/// Sets up a session for a terminal that is attached to it.
pub fn session_option_commands(session: &SessionName) -> (r: Vec<Vec<String>>)
    ensures
        command_texts(r@) == session_options(session@),
{
    let mut list: Vec<Vec<String>> = Vec::new();
    push_command(&mut list, &["set-option", "-t", session.as_str(), "mouse", "on"]);
    push_command(&mut list, &["set-option", "-t", session.as_str(), "history-limit", "100000"]);
    proof {
        assert(command_texts(list@) =~~= session_options(session@));
    }
    list
}

/// Gives a pane a size, and lets its window follow the latest client again.
pub open spec fn resize_steps(target: SessionRefView, size: (u16, u16)) -> Seq<Seq<Seq<char>>> {
    seq![
        seq![
            "resize-window"@,
            "-t"@,
            target.session,
            "-x"@,
            crate::text::decimal_text(size.0 as nat),
            "-y"@,
            crate::text::decimal_text(size.1 as nat),
        ],
        seq![
            "resize-pane"@,
            "-t"@,
            target.pane,
            "-x"@,
            crate::text::decimal_text(size.0 as nat),
            "-y"@,
            crate::text::decimal_text(size.1 as nat),
        ],
        seq!["set-window-option"@, "-t"@, target.window, "window-size"@, "latest"@],
    ]
}

/// Gives a pane a size, and lets its window follow the latest client again.
pub fn resize_commands(target: &BackendSessionRef, size: TerminalSize) -> (r: Vec<Vec<String>>)
    ensures
        command_texts(r@) == resize_steps(target@, size@),
{
    let cols = crate::text::decimal(size.cols.get() as u64);
    let rows = crate::text::decimal(size.rows.get() as u64);
    let mut list: Vec<Vec<String>> = Vec::new();
    push_command(
        &mut list,
        &[
            "resize-window",
            "-t",
            target.session().as_str(),
            "-x",
            cols.as_str(),
            "-y",
            rows.as_str(),
        ],
    );
    push_command(
        &mut list,
        &[
            "resize-pane",
            "-t",
            target.pane().as_str(),
            "-x",
            cols.as_str(),
            "-y",
            rows.as_str(),
        ],
    );
    push_command(
        &mut list,
        &["set-window-option", "-t", target.window().as_str(), "window-size", "latest"],
    );
    proof {
        assert(command_texts(list@) =~~= resize_steps(target@, size@));
    }
    list
}

/// Lets the window of a pane follow the latest client.
pub open spec fn latest_size_steps(target: SessionRefView) -> Seq<Seq<Seq<char>>> {
    seq![
        seq!["set-window-option"@, "-t"@, target.window, "window-size"@, "latest"@],
    ]
}

/// Lets the window of a pane follow the latest client.
pub fn latest_size_commands(target: &BackendSessionRef) -> (r: Vec<Vec<String>>)
    ensures
        command_texts(r@) == latest_size_steps(target@),
{
    let mut list: Vec<Vec<String>> = Vec::new();
    push_command(
        &mut list,
        &["set-window-option", "-t", target.window().as_str(), "window-size", "latest"],
    );
    proof {
        assert(command_texts(list@) =~~= latest_size_steps(target@));
    }
    list
}

/// Scrolls through the history of a pane.
pub open spec fn scroll_steps(target: SessionRefView, direction: BackendScrollDirection, amount: u16) -> Seq<Seq<Seq<char>>> {
    seq![
        seq!["copy-mode"@, "-t"@, target.pane],
        seq![
            "send-keys"@,
            "-t"@,
            target.pane,
            "-X"@,
            "-N"@,
            crate::text::decimal_text(amount as nat),
            scroll_word(direction),
        ],
    ]
}

/// Scrolls through the history of a pane.
pub fn scroll_commands(target: &BackendSessionRef, direction: BackendScrollDirection, amount: u16) -> (r: Vec<Vec<String>>)
    ensures
        command_texts(r@) == scroll_steps(target@, direction, amount),
{
    let count = crate::text::decimal(amount as u64);
    let scroll = match direction {
        BackendScrollDirection::Up => "scroll-up",
        BackendScrollDirection::Down => "scroll-down",
    };
    let mut list: Vec<Vec<String>> = Vec::new();
    push_command(&mut list, &["copy-mode", "-t", target.pane().as_str()]);
    push_command(
        &mut list,
        &["send-keys", "-t", target.pane().as_str(), "-X", "-N", count.as_str(), scroll],
    );
    proof {
        assert(command_texts(list@) =~~= scroll_steps(target@, direction, amount));
    }
    list
}

/// The arguments that press a key. Enter is sent as a line feed, and a key that
/// looks like an option is kept apart from the options.
pub open spec fn key_args(pane: Seq<char>, key: Seq<char>) -> Seq<Seq<char>> {
    if key == "Enter"@ {
        seq!["send-keys"@, "-t"@, pane, "C-j"@]
    } else if key.len() > 0 && key[0] == '-' {
        seq!["send-keys"@, "-t"@, pane, "--"@, key]
    } else {
        seq!["send-keys"@, "-t"@, pane, key]
    }
}

/// Presses a key.
pub fn send_key_args(target: &BackendSessionRef, key: &str) -> (r: Vec<String>)
    ensures
        crate::text::texts(r@) == key_args(target@.pane, key@),
{
    let pane = target.pane().as_str();
    let r = if crate::text::same_text(key, "Enter") {
        crate::tmux_backend::args(&["send-keys", "-t", pane, "C-j"])
    } else if crate::text::strip_char(key, '-').is_some() {
        crate::tmux_backend::args(&["send-keys", "-t", pane, "--", key])
    } else {
        crate::tmux_backend::args(&["send-keys", "-t", pane, key])
    };
    proof {
        assert(crate::text::texts(r@) =~= key_args(target@.pane, key@));
    }
    r
}

/// Gives a found session its size, or lets a created one follow its clients.
pub open spec fn settle_steps(target: SessionRefView, size: (u16, u16), created: bool) -> Seq<
    Seq<Seq<char>>,
> {
    if created {
        latest_size_steps(target)
    } else {
        resize_steps(target, size)
    }
}

/// The commands that give a found session its size, or let a created one follow
/// its clients.
pub fn settle_commands(target: &BackendSessionRef, size: TerminalSize, created: bool) -> (r: Vec<
    Vec<String>,
>)
    ensures
        command_texts(r@) == settle_steps(target@, size@, created),
{
    if created {
        latest_size_commands(target)
    } else {
        resize_commands(target, size)
    }
}

/// The environment settings of a created session.
pub open spec fn session_settings(version: Seq<char>) -> Seq<Seq<char>> {
    seq![
        "-e"@,
        "COLORTERM=truecolor"@,
        "-e"@,
        "CLICOLOR=1"@,
        "-e"@,
        "TERM_PROGRAM=termstage"@,
        "-e"@,
        "TERM_PROGRAM_VERSION="@ + version,
    ]
}

/// The words that create a session without a terminal.
pub open spec fn detached_session(session: Seq<char>, version: Seq<char>) -> Seq<Seq<char>> {
    seq!["new-session"@, "-d"@, "-s"@, session] + session_settings(version)
}

/// The arguments that create a session without a terminal.
pub fn detached_session_args(session: &SessionName, version: &str) -> (r: Vec<String>)
    ensures
        crate::text::texts(r@) == detached_session(session@, version@),
{
    let setting = String::from_str("TERM_PROGRAM_VERSION=").concat(version);
    let r = crate::tmux_backend::args(
        &[
            "new-session",
            "-d",
            "-s",
            session.as_str(),
            "-e",
            "COLORTERM=truecolor",
            "-e",
            "CLICOLOR=1",
            "-e",
            "TERM_PROGRAM=termstage",
            "-e",
            setting.as_str(),
        ],
    );
    proof {
        assert(crate::text::texts(r@) =~= detached_session(session@, version@));
    }
    r
}

/// The arguments before the command that create a session of a given size.
pub open spec fn sized_session(session: Seq<char>, size: (u16, u16), version: Seq<char>) -> Seq<
    Seq<char>,
> {
    seq![
        "new-session"@,
        "-d"@,
        "-s"@,
        session,
        "-x"@,
        crate::text::decimal_text(size.0 as nat),
        "-y"@,
        crate::text::decimal_text(size.1 as nat),
    ] + session_settings(version) + seq!["--"@]
}

/// The bytes of several texts.
pub open spec fn text_bytes(list: Seq<Seq<char>>) -> Seq<Seq<u8>> {
    list.map_values(|text: Seq<char>| vstd::utf8::encode_utf8(text))
}

/// The bytes of several arguments.
pub open spec fn arg_bytes(list: Seq<Vec<u8>>) -> Seq<Seq<u8>> {
    list.map_values(|arg: Vec<u8>| arg@)
}

/// The arguments that create a session of a given size that runs `command`.
pub fn new_session_argv(
    session: &SessionName,
    size: TerminalSize,
    command: &TmuxSessionCommand,
    version: &str,
) -> (r: Vec<Vec<u8>>)
    ensures
        arg_bytes(r@) == text_bytes(sized_session(session@, size@, version@)) + seq![command.executable_bytes()] + arg_bytes(command.arg_list()),
{
    let cols = crate::text::decimal(size.cols.get() as u64);
    let rows = crate::text::decimal(size.rows.get() as u64);
    let setting = String::from_str("TERM_PROGRAM_VERSION=").concat(version);
    let head = crate::tmux_backend::args(
        &[
            "new-session",
            "-d",
            "-s",
            session.as_str(),
            "-x",
            cols.as_str(),
            "-y",
            rows.as_str(),
            "-e",
            "COLORTERM=truecolor",
            "-e",
            "CLICOLOR=1",
            "-e",
            "TERM_PROGRAM=termstage",
            "-e",
            setting.as_str(),
            "--",
        ],
    );
    let ghost views = sized_session(session@, size@, version@);
    proof {
        assert(crate::text::texts(head@) =~= views);
    }
    let mut argv: Vec<Vec<u8>> = Vec::new();
    let mut i: usize = 0;
    while i < head.len()
        invariant
            i <= head@.len(),
            crate::text::texts(head@) == views,
            arg_bytes(argv@) == text_bytes(views.take(i as int)),
        decreases head@.len() - i,
    {
        let ghost before = argv@;
        argv.push(vstd::slice::slice_to_vec(head[i].as_str().as_bytes()));
        proof {
            assert(views[i as int] == head@[i as int]@);
            assert(views.take(i + 1) =~= views.take(i as int).push(views[i as int]));
            assert(arg_bytes(argv@) =~= arg_bytes(before).push(
                vstd::utf8::encode_utf8(views[i as int]),
            ));
            assert(text_bytes(views.take(i + 1)) =~= text_bytes(views.take(i as int)).push(
                vstd::utf8::encode_utf8(views[i as int]),
            ));
        }
        i += 1;
    }
    proof {
        assert(views.take(i as int) =~= views);
    }
    let ghost started = argv@;
    argv.push(vstd::slice::slice_to_vec(command.executable()));
    let ghost base = text_bytes(views) + seq![command.executable_bytes()];
    proof {
        assert(arg_bytes(argv@) =~= base);
        assert(base + arg_bytes(command.arg_list().take(0)) =~= base);
    }
    let rest = command.args();
    let mut k: usize = 0;
    while k < rest.len()
        invariant
            k <= rest@.len(),
            rest@ == command.arg_list(),
            arg_bytes(argv@) == base + arg_bytes(rest@.take(k as int)),
        decreases rest@.len() - k,
    {
        let ghost before = argv@;
        argv.push(vstd::slice::slice_to_vec(rest[k].as_slice()));
        proof {
            assert(rest@.take(k + 1) =~= rest@.take(k as int).push(rest@[k as int]));
            assert(arg_bytes(argv@) =~= arg_bytes(before).push(rest@[k as int]@));
            assert(arg_bytes(rest@.take(k + 1)) =~= arg_bytes(rest@.take(k as int)).push(
                rest@[k as int]@,
            ));
            assert(arg_bytes(argv@) =~= base + arg_bytes(rest@.take(k + 1)));
        }
        k += 1;
    }
    proof {
        assert(rest@.take(k as int) =~= rest@);
    }
    argv
}

/// Variables that terminal processes are given.
pub open spec fn terminal_variables(version: Seq<char>) -> Seq<(Seq<char>, Seq<char>)> {
    seq![
        ("TERM"@, "xterm-256color"@),
        ("COLORTERM"@, "truecolor"@),
        ("CLICOLOR"@, "1"@),
        ("TERM_PROGRAM"@, "termstage"@),
        ("TERM_PROGRAM_VERSION"@, version),
    ]
}

/// The contents of a list of variables.
pub open spec fn variable_views(list: Seq<(String, String)>) -> Seq<(Seq<char>, Seq<char>)> {
    list.map_values(|variable: (String, String)| (variable.0@, variable.1@))
}

/// Returns the variables that terminal processes are given.
pub fn terminal_environment(version: &str) -> (r: Vec<(String, String)>)
    ensures
        variable_views(r@) == terminal_variables(version@),
{
    let mut list: Vec<(String, String)> = Vec::new();
    list.push(("TERM".to_owned(), "xterm-256color".to_owned()));
    list.push(("COLORTERM".to_owned(), "truecolor".to_owned()));
    list.push(("CLICOLOR".to_owned(), "1".to_owned()));
    list.push(("TERM_PROGRAM".to_owned(), "termstage".to_owned()));
    list.push(("TERM_PROGRAM_VERSION".to_owned(), version.to_owned()));
    proof {
        assert(variable_views(list@) =~= terminal_variables(version@));
    }
    list
}

/// Returns the variables that a process which starts a tmux session is given: those of
/// terminal processes but `TERM`, which tmux sets.
pub fn session_process_environment(version: &str) -> (r: Vec<(String, String)>)
    ensures
        variable_views(r@) == terminal_variables(version@).skip(1),
{
    let mut list = terminal_environment(version);
    let ghost all = list@;
    let _ = list.remove(0);
    proof {
        assert(list@ =~= all.skip(1));
        assert(variable_views(list@) =~= variable_views(all).skip(1));
    }
    list
}

/// Variables that are taken from terminal processes, as they switch colors off.
pub open spec fn removed_variables() -> Seq<Seq<char>> {
    seq!["NO_COLOR"@, "ANSI_COLORS_DISABLED"@]
}

/// Returns the variables that are taken from terminal processes.
pub fn removed_environment() -> (r: Vec<String>)
    ensures
        crate::text::texts(r@) == removed_variables(),
{
    let r = crate::tmux_backend::args(&["NO_COLOR", "ANSI_COLORS_DISABLED"]);
    proof {
        assert(crate::text::texts(r@) =~= removed_variables());
    }
    r
}

/// Tells whether `words` hold `name` with `value` right behind it.
pub open spec fn gives(words: Seq<Seq<char>>, name: Seq<char>, value: Seq<char>) -> bool {
    exists|i: int|
        0 <= i < words.len() - 1 && #[trigger] words[i] == name && words[i + 1] == value
}

proof fn lemma_gives(words: Seq<Seq<char>>, i: int)
    requires
        0 <= i < words.len() - 1,
    ensures
        gives(words, words[i], words[i + 1]),
{
    assert(words[i] == words[i]);
}

/// Each command on a session is the one that it is named for, and is aimed at that session.
pub proof fn law_session_commands_name_their_session(session: Seq<char>)
    ensures
        kill_words(session)[0] == "kill-session"@,
        has_words(session)[0] == "has-session"@,
        inspect_words(session)[0] == "display-message"@,
        attached_words(session)[0] == "display-message"@,
        resolve_words(session)[0] == "display-message"@,
        attach_words(session).contains("attach-session"@),
        gives(attach_words(session), "-T"@, "RGB"@),
        list_words()[0] == "list-sessions"@,
        gives(list_words(), "-F"@, "#{session_name}"@),
        gives(kill_words(session), "-t"@, session),
        gives(has_words(session), "-t"@, session),
        gives(inspect_words(session), "-t"@, session),
        gives(attached_words(session), "-t"@, session),
        gives(resolve_words(session), "-t"@, session),
        gives(attach_words(session), "-t"@, session),
        attached_words(session).last() == "#{session_attached}"@,
        resolve_words(session).last() == "#{window_id} #{pane_id}"@,
        inspect_words(session).last()
            == "#{session_name}\t#{window_id}\t#{pane_id}\t#{pane_width}\t#{pane_height}"@,
{
    lemma_gives(kill_words(session), 1);
    lemma_gives(has_words(session), 1);
    lemma_gives(inspect_words(session), 2);
    lemma_gives(attached_words(session), 2);
    lemma_gives(resolve_words(session), 2);
    lemma_gives(attach_words(session), 4);
    lemma_gives(attach_words(session), 1);
    lemma_gives(list_words(), 1);
    assert(attach_words(session)[3] == "attach-session"@);
}

/// Each command on a pane is aimed at that pane. Text is typed as it is, apart from the
/// options, and a command is confirmed.
pub proof fn law_pane_commands_name_their_pane(pane: Seq<char>, text: Seq<char>)
    ensures
        text_words(pane, text)[0] == "send-keys"@,
        run_words(pane, text)[0] == "send-keys"@,
        key_args(pane, text)[0] == "send-keys"@,
        metadata_words(pane)[0] == "display-message"@,
        capture_words(pane)[0] == "capture-pane"@,
        gives(text_words(pane, text), "-t"@, pane),
        gives(run_words(pane, text), "-t"@, pane),
        gives(key_args(pane, text), "-t"@, pane),
        gives(metadata_words(pane), "-t"@, pane),
        gives(capture_words(pane), "-t"@, pane),
        gives(text_words(pane, text), "--"@, text),
        text_words(pane, text).contains("-l"@),
        text_words(pane, text).last() == text,
        gives(run_words(pane, text), text, "Enter"@),
        run_words(pane, text).last() == "Enter"@,
        capture_words(pane).contains("-e"@),
        capture_words(pane).contains("-p"@),
        metadata_words(pane).last()
            == "#{pane_width} #{pane_height} #{cursor_x} #{cursor_y} #{cursor_flag}"@,
{
    lemma_gives(text_words(pane, text), 1);
    lemma_gives(text_words(pane, text), 4);
    lemma_gives(run_words(pane, text), 1);
    lemma_gives(run_words(pane, text), 3);
    lemma_gives(key_args(pane, text), 1);
    lemma_gives(metadata_words(pane), 2);
    lemma_gives(capture_words(pane), 3);
    assert(text_words(pane, text)[3] == "-l"@);
    assert(capture_words(pane)[1] == "-e"@);
    assert(capture_words(pane)[2] == "-p"@);
}

/// A key is pressed by its name, the last word, but for Enter, which is pressed as a line
/// feed. A key that starts with a hyphen is kept apart from the options.
pub proof fn law_keys_are_sent_by_name(pane: Seq<char>, key: Seq<char>)
    ensures
        key != "Enter"@ ==> key_args(pane, key).last() == key,
        key == "Enter"@ ==> key_args(pane, key).last() == "C-j"@,
        key.len() > 0 && key[0] == '-' ==> gives(key_args(pane, key), "--"@, key),
        key.len() == 0 || key[0] != '-' ==> key_args(pane, key).len() == 4,
{
    reveal_strlit("Enter");
    if key.len() > 0 && key[0] == '-' {
        lemma_gives(key_args(pane, key), 3);
    }
}

/// Window and pane get the columns as their width and the rows as their height; afterwards
/// the window follows its latest client again. A created session only follows its clients.
pub proof fn law_resize_gives_columns_and_rows(target: SessionRefView, cols: u16, rows: u16)
    ensures
        ({
            let steps = resize_steps(target, (cols, rows));
            let width = crate::text::decimal_text(cols as nat);
            let height = crate::text::decimal_text(rows as nat);
            &&& steps.len() == 3
            &&& steps[0][0] == "resize-window"@ && gives(steps[0], "-t"@, target.session)
            &&& steps[1][0] == "resize-pane"@ && gives(steps[1], "-t"@, target.pane)
            &&& gives(steps[0], "-x"@, width) && gives(steps[0], "-y"@, height)
            &&& gives(steps[1], "-x"@, width) && gives(steps[1], "-y"@, height)
            &&& steps[2] == latest_size_steps(target)[0]
            &&& latest_size_steps(target).len() == 1
            &&& gives(steps[2], "-t"@, target.window)
            &&& gives(steps[2], "window-size"@, "latest"@)
        }),
        settle_steps(target, (cols, rows), false) == resize_steps(target, (cols, rows)),
        settle_steps(target, (cols, rows), true) == latest_size_steps(target),
        crate::text::number(crate::text::decimal_text(cols as nat), 10, 65535) == Some(
            cols as nat,
        ),
        crate::text::number(crate::text::decimal_text(rows as nat), 10, 65535) == Some(
            rows as nat,
        ),
{
    let steps = resize_steps(target, (cols, rows));
    lemma_gives(steps[0], 1);
    lemma_gives(steps[0], 3);
    lemma_gives(steps[0], 5);
    lemma_gives(steps[1], 1);
    lemma_gives(steps[1], 3);
    lemma_gives(steps[1], 5);
    lemma_gives(steps[2], 1);
    lemma_gives(steps[2], 3);
    crate::text::law_decimal_round_trip(cols as nat, 65535);
    crate::text::law_decimal_round_trip(rows as nat, 65535);
}

/// Scrolling enters copy mode first, and then goes the given way by as many lines as asked.
pub proof fn law_scrolling_goes_the_given_way(target: SessionRefView, amount: u16)
    ensures
        ({
            let up = scroll_steps(target, BackendScrollDirection::Up, amount);
            let down = scroll_steps(target, BackendScrollDirection::Down, amount);
            let count = crate::text::decimal_text(amount as nat);
            &&& up.len() == 2 && down.len() == 2
            &&& up[0] == down[0]
            &&& up[0][0] == "copy-mode"@ && gives(up[0], "-t"@, target.pane)
            &&& up[1][0] == "send-keys"@ && gives(up[1], "-t"@, target.pane)
            &&& gives(up[1], "-N"@, count)
            &&& up[1].contains("-X"@)
            &&& up[1].last() == "scroll-up"@
            &&& down[1].last() == "scroll-down"@
            &&& down[1].drop_last() == up[1].drop_last()
        }),
{
    let up = scroll_steps(target, BackendScrollDirection::Up, amount);
    let down = scroll_steps(target, BackendScrollDirection::Down, amount);
    lemma_gives(up[0], 1);
    lemma_gives(up[1], 1);
    lemma_gives(up[1], 4);
    assert(up[1][3] == "-X"@);
    assert(down[1].drop_last() =~= up[1].drop_last());
}

/// Terminal processes learn of true color and of their terminal.
pub proof fn law_terminal_is_announced(version: Seq<char>)
    ensures
        terminal_variables(version).contains(("TERM"@, "xterm-256color"@)),
        terminal_variables(version).contains(("COLORTERM"@, "truecolor"@)),
        terminal_variables(version).contains(("CLICOLOR"@, "1"@)),
        terminal_variables(version).contains(("TERM_PROGRAM"@, "termstage"@)),
        terminal_variables(version).contains(("TERM_PROGRAM_VERSION"@, version)),
        terminal_variables(version).len() == 5,
        terminal_variables(version)[0].0 == "TERM"@,
{
    let list = terminal_variables(version);
    assert(list[0] == ("TERM"@, "xterm-256color"@));
    assert(list[1] == ("COLORTERM"@, "truecolor"@));
    assert(list[2] == ("CLICOLOR"@, "1"@));
    assert(list[3] == ("TERM_PROGRAM"@, "termstage"@));
    assert(list[4] == ("TERM_PROGRAM_VERSION"@, version));
}

/// A created session, a session that is found, and the server are given the variables of
/// terminal processes but `TERM`; in a session and in the server the variables that switch
/// colors off are unset first.
pub proof fn law_every_environment_is_the_same(session: Seq<char>, version: Seq<char>, i: int)
    requires
        0 <= i < 4,
    ensures
        ({
            let variable = terminal_variables(version)[i + 1];
            &&& session_settings(version).len() == 8
            &&& session_settings(version)[2 * i] == "-e"@
            &&& session_settings(version)[2 * i + 1] == variable.0 + "="@ + variable.1
            &&& session_environment(session, version).len() == 6
            &&& session_environment(session, version)[i + 2] == seq![
                "set-environment"@,
                "-t"@,
                session,
                variable.0,
                variable.1,
            ]
            &&& server_environment(version).len() == 6
            &&& server_environment(version)[i + 2] == seq![
                "set-environment"@,
                "-g"@,
                variable.0,
                variable.1,
            ]
        }),
        removed_variables().len() == 2,
        removed_variables()[0] == "NO_COLOR"@,
        removed_variables()[1] == "ANSI_COLORS_DISABLED"@,
        session_environment(session, version)[0] == seq![
            "set-environment"@,
            "-t"@,
            session,
            "-u"@,
            "NO_COLOR"@,
        ],
        session_environment(session, version)[1] == seq![
            "set-environment"@,
            "-t"@,
            session,
            "-u"@,
            "ANSI_COLORS_DISABLED"@,
        ],
        server_environment(version)[0] == seq![
            "set-environment"@,
            "-g"@,
            "-u"@,
            "NO_COLOR"@,
        ],
        server_environment(version)[1] == seq![
            "set-environment"@,
            "-g"@,
            "-u"@,
            "ANSI_COLORS_DISABLED"@,
        ],
{
    reveal_strlit("=");
    reveal_strlit("COLORTERM");
    reveal_strlit("truecolor");
    reveal_strlit("COLORTERM=truecolor");
    reveal_strlit("CLICOLOR");
    reveal_strlit("1");
    reveal_strlit("CLICOLOR=1");
    reveal_strlit("TERM_PROGRAM");
    reveal_strlit("termstage");
    reveal_strlit("TERM_PROGRAM=termstage");
    reveal_strlit("TERM_PROGRAM_VERSION");
    reveal_strlit("TERM_PROGRAM_VERSION=");
    assert("COLORTERM=truecolor"@ =~= "COLORTERM"@ + "="@ + "truecolor"@);
    assert("CLICOLOR=1"@ =~= "CLICOLOR"@ + "="@ + "1"@);
    assert("TERM_PROGRAM=termstage"@ =~= "TERM_PROGRAM"@ + "="@ + "termstage"@);
    assert("TERM_PROGRAM_VERSION="@ + version =~= "TERM_PROGRAM_VERSION"@ + "="@ + version);
}

/// A prepared session gets the environment of a session, a long history, and its mouse
/// switched off; one that a terminal is attached to gets its mouse switched on.
pub proof fn law_sessions_are_set_up(session: Seq<char>, version: Seq<char>)
    ensures
        session_setup(session, version).len() == 8,
        session_setup(session, version).take(6) == session_environment(session, version),
        session_setup(session, version)[6] == seq![
            "set-option"@,
            "-t"@,
            session,
            "mouse"@,
            "off"@,
        ],
        session_setup(session, version)[7] == session_options(session)[1],
        session_options(session).len() == 2,
        session_options(session)[0] == seq!["set-option"@, "-t"@, session, "mouse"@, "on"@],
        gives(session_options(session)[1], "-t"@, session),
        gives(session_options(session)[1], "history-limit"@, "100000"@),
{
    lemma_gives(session_options(session)[1], 1);
    lemma_gives(session_options(session)[1], 3);
    assert(session_setup(session, version).take(6) =~= session_environment(session, version));
}

/// A created session is detached, has the given name and size, and keeps its command apart
/// from the options.
pub proof fn law_created_sessions_have_name_and_size(
    session: Seq<char>,
    size: (u16, u16),
    version: Seq<char>,
)
    ensures
        detached_session(session, version) == seq!["new-session"@, "-d"@, "-s"@, session]
            + sized_session(session, size, version).subrange(8, 16),
        ({
            let words = sized_session(session, size, version);
            &&& words[0] == "new-session"@
            &&& words.contains("-d"@)
            &&& gives(words, "-s"@, session)
            &&& gives(words, "-x"@, crate::text::decimal_text(size.0 as nat))
            &&& gives(words, "-y"@, crate::text::decimal_text(size.1 as nat))
            &&& words.subrange(8, 16) == session_settings(version)
            &&& words.last() == "--"@
            &&& words.len() == 17
        }),
{
    let words = sized_session(session, size, version);
    lemma_gives(words, 2);
    lemma_gives(words, 4);
    lemma_gives(words, 6);
    assert(words[1] == "-d"@);
    assert(words.subrange(8, 16) =~= session_settings(version));
}

} // verus!
