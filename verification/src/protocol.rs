//! The messages exchanged with clients over the control socket, the
//! daemon's answer to a client command, the command-line client's choice
//! of command, and where the control socket lives.

use crate::activity::{MidiActivity, MidiActivityView};
use crate::midi::{MidiEvent, MidiEventView};
use crate::state::{Snapshot, SnapshotView};
use crate::text::{optional_text, text_views};
use vstd::prelude::*;

verus! {

/// A message from the daemon to a client.
#[derive(Debug)]
pub enum ServerMessage {
    Snapshot { snapshot: Snapshot },
    MidiEvent { event: MidiEvent, activity: MidiActivity },
    Error { message: String },
}

/// The mathematical value of a [`ServerMessage`].
pub enum ServerMessageView {
    Snapshot { snapshot: SnapshotView },
    MidiEvent { event: MidiEventView, activity: MidiActivityView },
    Error { message: Seq<char> },
}

impl View for ServerMessage {
    type V = ServerMessageView;

    open spec fn view(&self) -> ServerMessageView {
        match self {
            ServerMessage::Snapshot { snapshot } => ServerMessageView::Snapshot { snapshot: snapshot@ },
            ServerMessage::MidiEvent { event, activity } => ServerMessageView::MidiEvent {
                event: event@,
                activity: activity@,
            },
            ServerMessage::Error { message } => ServerMessageView::Error { message: message@ },
        }
    }
}

/// A command from a client: `status` or `watch`.
#[derive(Debug)]
pub struct ClientCommand {
    pub command: String,
}

/// How the daemon answers a client command: the reply it sends, and
/// whether the client stays subscribed to later messages.
pub open spec fn answer_of(command: Seq<char>, snapshot: SnapshotView) -> (ServerMessageView, bool) {
    if command == "status"@ {
        (ServerMessageView::Snapshot { snapshot }, false)
    } else if command == "watch"@ {
        (ServerMessageView::Snapshot { snapshot }, true)
    } else {
        (ServerMessageView::Error { message: "unknown command: "@ + command }, false)
    }
}

impl ClientCommand {
    /// The daemon's answer to this command given its current snapshot:
    /// `status` gets the snapshot, `watch` gets the snapshot and a
    /// subscription, anything else an error naming the command.
    pub fn answer(&self, snapshot: &Snapshot) -> (answer: (ServerMessage, bool))
        ensures
            (answer.0@, answer.1) == answer_of(self.command@, snapshot@),
    {
        let status = String::from_str("status");
        let watch = String::from_str("watch");
        if self.command == status {
            (ServerMessage::Snapshot { snapshot: snapshot.clone() }, false)
        } else if self.command == watch {
            (ServerMessage::Snapshot { snapshot: snapshot.clone() }, true)
        } else {
            let mut message = String::from_str("unknown command: ");
            message.append(self.command.as_str());
            (ServerMessage::Error { message }, false)
        }
    }

    /// Whether a client that sent this command reads a single reply
    /// (`status`) rather than follow the stream (`watch`).
    pub fn ends_after_first_reply(&self) -> (single: bool)
        ensures
            single == (self.command@ == "status"@),
    {
        let status = String::from_str("status");
        self.command == status
    }
}

/// The command that the command-line client sends for its first
/// argument: `status` when there is none, the argument when it is
/// `status` or `watch`, and none (a usage error) otherwise.
pub open spec fn requested_command_of(argument: Option<Seq<char>>) -> Option<Seq<char>> {
    match argument {
        None => Some("status"@),
        Some(a) => if a == "status"@ || a == "watch"@ {
            Some(a)
        } else {
            None
        },
    }
}

/// The command the command-line client sends, or none for a usage error.
pub fn requested_command(argument: Option<String>) -> (command: Option<ClientCommand>)
    ensures
        match command {
            Some(c) => requested_command_of(optional_text(argument)) == Some(c.command@),
            None => requested_command_of(optional_text(argument)) is None,
        },
{
    let status = String::from_str("status");
    let watch = String::from_str("watch");
    match argument {
        None => Some(ClientCommand { command: status }),
        Some(a) => if a == status || a == watch {
            Some(ClientCommand { command: a })
        } else {
            None
        },
    }
}

/// Where the control socket lives.
#[derive(Clone, Copy, Debug, PartialEq, Eq, Structural)]
pub enum SocketBase {
    /// Beneath the user's runtime directory (`XDG_RUNTIME_DIR`).
    RuntimeDir,
    /// In the system's temporary directory.
    TempDir,
}

/// The socket's place: under the runtime directory, when one is set, as
/// `studio-control/control.sock`; otherwise in the temporary directory as
/// `studio-control-<user>.sock`, with `unknown` for an unknown user.
pub open spec fn socket_layout_of(runtime_dir_set: bool, user: Option<Seq<char>>) -> (SocketBase, Seq<Seq<char>>) {
    if runtime_dir_set {
        (SocketBase::RuntimeDir, seq!["studio-control"@, "control.sock"@])
    } else {
        let who = match user {
            Some(u) => u,
            None => "unknown"@,
        };
        (SocketBase::TempDir, seq!["studio-control-"@ + who + ".sock"@])
    }
}

/// The base directory of the control socket and the path components to
/// join beneath it.
pub fn socket_layout(runtime_dir_set: bool, user: Option<String>) -> (layout: (SocketBase, Vec<String>))
    ensures
        (layout.0, text_views(layout.1@)) == socket_layout_of(
            runtime_dir_set,
            optional_text(user),
        ),
{
    let mut components: Vec<String> = Vec::new();
    if runtime_dir_set {
        components.push(String::from_str("studio-control"));
        components.push(String::from_str("control.sock"));
        assert(text_views(components@) =~= seq!["studio-control"@, "control.sock"@]);
        (SocketBase::RuntimeDir, components)
    } else {
        let mut file = String::from_str("studio-control-");
        match &user {
            Some(u) => file.append(u.as_str()),
            None => file.append("unknown"),
        }
        file.append(".sock");
        components.push(file);
        let ghost who = match optional_text(user) {
            Some(u) => u,
            None => "unknown"@,
        };
        assert(text_views(components@) =~= seq!["studio-control-"@ + who + ".sock"@]);
        (SocketBase::TempDir, components)
    }
}

} // verus!
