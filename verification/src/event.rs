//! What happens to a client: a key that the user pressed, or a message of
//! the server.
use vstd::prelude::*;
use vstd::string::*;

verus! {

/// A key, as far as the editor tells keys apart.
#[derive(Debug, Clone, Copy, PartialEq, Eq, Structural)]
pub enum Key {
    Enter,
    Char(char),
    Backspace,
    Tab,
    Up,
    Down,
    Other,
}

/// What a `ServerCommand` holds.
pub enum ServerCommandView {
    UpdateDocumentList(Seq<Seq<char>>),
    NewDocumentAvailable(Seq<char>),
    UserJoined(Seq<char>),
    UserLeft(Seq<char>),
    ReceiveDocumentContent { name: Seq<char>, content: Seq<char> },
    UpdateDocumentContent { name: Seq<char>, content: Seq<char> },
    SwitchedToDocument { name: Seq<char> },
    Status(Seq<char>),
    Error(Seq<char>),
}

/// A message of the server, taken apart.
#[derive(Debug, Clone, PartialEq, Eq)]
pub enum ServerCommand {
    UpdateDocumentList(Vec<String>),
    NewDocumentAvailable(String),
    UserJoined(String),
    UserLeft(String),
    ReceiveDocumentContent { name: String, content: String },
    UpdateDocumentContent { name: String, content: String },
    SwitchedToDocument { name: String },
    Status(String),
    Error(String),
}

impl View for ServerCommand {
    type V = ServerCommandView;

    open spec fn view(&self) -> ServerCommandView {
        match *self {
            ServerCommand::UpdateDocumentList(names) => ServerCommandView::UpdateDocumentList(
                names.deep_view(),
            ),
            ServerCommand::NewDocumentAvailable(name) => ServerCommandView::NewDocumentAvailable(
                name@,
            ),
            ServerCommand::UserJoined(name) => ServerCommandView::UserJoined(name@),
            ServerCommand::UserLeft(name) => ServerCommandView::UserLeft(name@),
            ServerCommand::ReceiveDocumentContent { name, content } => {
                ServerCommandView::ReceiveDocumentContent { name: name@, content: content@ }
            },
            ServerCommand::UpdateDocumentContent { name, content } => {
                ServerCommandView::UpdateDocumentContent { name: name@, content: content@ }
            },
            ServerCommand::SwitchedToDocument { name } => ServerCommandView::SwitchedToDocument {
                name: name@,
            },
            ServerCommand::Status(text) => ServerCommandView::Status(text@),
            ServerCommand::Error(text) => ServerCommandView::Error(text@),
        }
    }
}

impl DeepView for ServerCommand {
    type V = ServerCommandView;

    open spec fn deep_view(&self) -> ServerCommandView {
        self@
    }
}

/// What an `AppEvent` holds.
pub enum AppEventView {
    Input(Key),
    ServerMessage(ServerCommandView),
}

/// One event for the client's main loop.
#[derive(Debug, Clone, PartialEq, Eq)]
pub enum AppEvent {
    Input(Key),
    ServerMessage(ServerCommand),
}

impl View for AppEvent {
    type V = AppEventView;

    open spec fn view(&self) -> AppEventView {
        match *self {
            AppEvent::Input(key) => AppEventView::Input(key),
            AppEvent::ServerMessage(command) => AppEventView::ServerMessage(command@),
        }
    }
}

} // verus!
