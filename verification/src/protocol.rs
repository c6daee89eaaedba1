//! The messages between the UI and a connection, and the decisions the
//! connection worker takes on each command and channel message.
//!
//! Each connection runs on a worker of its own. The UI sends it [`ToSsh`]
//! commands and drains [`FromSsh`] events each frame. While idle the worker
//! waits for a command; while attached it also forwards the PTY's output.
use vstd::prelude::*;

verus! {

/// Commands from the UI to a connection.
pub enum ToSsh {
    /// Run `tmux ls` on a fresh channel and reply with `SessionList`.
    ListSessions,
    /// Open a PTY channel attached to (or creating) the named session.
    Attach { session: String, rows: u16, cols: u16 },
    /// Raw bytes typed by the user, forwarded to the attached PTY.
    Input(Vec<u8>),
    /// Terminal was resized.
    Resize { rows: u16, cols: u16 },
    /// Detach the current PTY channel (tmux session survives on the server)
    /// and return to the command-wait state.
    Detach,
    /// Tear the whole SSH connection down.
    Disconnect,
}

/// Events from a connection to the UI.
pub enum FromSsh {
    Status(String),
    Error(String),
    SessionList(Vec<String>),
    Attached,
    /// Bytes from the attached PTY, to feed the terminal parser.
    Data(Vec<u8>),
    /// The attached PTY channel ended (session detached or exited).
    Detached,
    /// The whole connection is gone.
    Closed,
}

/// What an attached PTY channel delivers.
pub enum ChannelEvent {
    Data(Vec<u8>),
    ExtendedData(Vec<u8>),
    Eof,
    Close,
    ExitStatus,
    /// Any other channel message (window adjustments, ...).
    Other,
}

/// What the idle worker does next.
pub enum IdleAction {
    /// Run `tmux ls` and report the sessions (or the error).
    ListSessions,
    /// Open a PTY on the session and stay attached until it ends; then
    /// report `Detached`.
    Attach { session: String, rows: u16, cols: u16 },
    /// Close the SSH connection and stop.
    Disconnect,
    /// Stop: the UI has gone away.
    Stop,
    /// Keep waiting.
    Ignore,
}

/// What the attached worker does next.
pub enum AttachedAction {
    /// Write the bytes to the PTY.
    Send(Vec<u8>),
    /// Tell the PTY its new size.
    WindowChange { cols: u16, rows: u16 },
    /// Pass the bytes on to the UI.
    Forward(Vec<u8>),
    /// Send EOF on the PTY channel and leave the session.
    EofAndLeave,
    /// Leave the session.
    Leave,
    /// Keep going.
    Ignore,
}

/// The idle worker's decision on a command (`None`: the UI dropped its end).
/// Input, resize and detach outside an attach are no-ops.
pub open spec fn idle_decision(cmd: Option<ToSsh>) -> IdleAction {
    match cmd {
        None => IdleAction::Stop,
        Some(ToSsh::ListSessions) => IdleAction::ListSessions,
        Some(ToSsh::Attach { session, rows, cols }) => IdleAction::Attach { session, rows, cols },
        Some(ToSsh::Disconnect) => IdleAction::Disconnect,
        Some(_) => IdleAction::Ignore,
    }
}

/// The attached worker's decision on a command. Listing and attaching are
/// ignored while attached; detach and disconnect both only leave the session.
pub open spec fn attached_command_decision(cmd: Option<ToSsh>) -> AttachedAction {
    match cmd {
        None => AttachedAction::Leave,
        Some(ToSsh::Input(bytes)) => AttachedAction::Send(bytes),
        Some(ToSsh::Resize { rows, cols }) => AttachedAction::WindowChange { cols, rows },
        Some(ToSsh::Detach) => AttachedAction::EofAndLeave,
        Some(ToSsh::Disconnect) => AttachedAction::EofAndLeave,
        Some(_) => AttachedAction::Ignore,
    }
}

/// The attached worker's decision on a channel message (`None`: the
/// channel is gone). Output of either stream goes to the UI; EOF, close and
/// an exit status end the session.
pub open spec fn channel_decision(msg: Option<ChannelEvent>) -> AttachedAction {
    match msg {
        None => AttachedAction::Leave,
        Some(ChannelEvent::Data(bytes)) => AttachedAction::Forward(bytes),
        Some(ChannelEvent::ExtendedData(bytes)) => AttachedAction::Forward(bytes),
        Some(ChannelEvent::Eof) => AttachedAction::Leave,
        Some(ChannelEvent::Close) => AttachedAction::Leave,
        Some(ChannelEvent::ExitStatus) => AttachedAction::Leave,
        Some(ChannelEvent::Other) => AttachedAction::Ignore,
    }
}

pub fn on_idle_command(cmd: Option<ToSsh>) -> (a: IdleAction)
    ensures
        a == idle_decision(cmd),
{
    match cmd {
        None => IdleAction::Stop,
        Some(ToSsh::ListSessions) => IdleAction::ListSessions,
        Some(ToSsh::Attach { session, rows, cols }) => IdleAction::Attach { session, rows, cols },
        Some(ToSsh::Disconnect) => IdleAction::Disconnect,
        // Input/Resize/Detach outside an attach are no-ops.
        Some(_) => IdleAction::Ignore,
    }
}

pub fn on_attached_command(cmd: Option<ToSsh>) -> (a: AttachedAction)
    ensures
        a == attached_command_decision(cmd),
{
    match cmd {
        None => AttachedAction::Leave,
        Some(ToSsh::Input(bytes)) => AttachedAction::Send(bytes),
        Some(ToSsh::Resize { rows, cols }) => AttachedAction::WindowChange { cols, rows },
        Some(ToSsh::Detach) => AttachedAction::EofAndLeave,
        Some(ToSsh::Disconnect) => AttachedAction::EofAndLeave,
        // Ignore ListSessions/Attach while already attached.
        Some(_) => AttachedAction::Ignore,
    }
}

pub fn on_channel_event(msg: Option<ChannelEvent>) -> (a: AttachedAction)
    ensures
        a == channel_decision(msg),
{
    match msg {
        None => AttachedAction::Leave,
        Some(ChannelEvent::Data(bytes)) => AttachedAction::Forward(bytes),
        Some(ChannelEvent::ExtendedData(bytes)) => AttachedAction::Forward(bytes),
        Some(ChannelEvent::Eof) => AttachedAction::Leave,
        Some(ChannelEvent::Close) => AttachedAction::Leave,
        Some(ChannelEvent::ExitStatus) => AttachedAction::Leave,
        Some(ChannelEvent::Other) => AttachedAction::Ignore,
    }
}

/// Whether the `tmux ls` reader stops at a channel message: at EOF, at
/// close, or when the channel is gone.
pub open spec fn ends_listing(msg: Option<ChannelEvent>) -> bool {
    match msg {
        None => true,
        Some(ChannelEvent::Eof) => true,
        Some(ChannelEvent::Close) => true,
        Some(_) => false,
    }
}

/// The bytes a channel message adds to the `tmux ls` reply: the output of
/// either stream, and nothing for any other message.
pub open spec fn listing_bytes(msg: Option<ChannelEvent>) -> Seq<u8> {
    match msg {
        Some(ChannelEvent::Data(bytes)) => bytes@,
        Some(ChannelEvent::ExtendedData(bytes)) => bytes@,
        _ => Seq::empty(),
    }
}

/// One step of reading the `tmux ls` reply: collects the message's output
/// into `out` and says whether the reply is complete.
pub fn on_listing_event(out: &mut Vec<u8>, msg: Option<ChannelEvent>) -> (done: bool)
    ensures
        done == ends_listing(msg),
        final(out)@ == old(out)@ + listing_bytes(msg),
{
    match msg {
        None => true,
        Some(ChannelEvent::Data(bytes)) => {
            let mut bytes = bytes;
            out.append(&mut bytes);
            false
        },
        Some(ChannelEvent::ExtendedData(bytes)) => {
            let mut bytes = bytes;
            out.append(&mut bytes);
            false
        },
        Some(ChannelEvent::Eof) => true,
        Some(ChannelEvent::Close) => true,
        Some(_) => false,
    }
}

} // verus!
