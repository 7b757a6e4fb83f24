//! The client's ear: turns the lines that the server sends into events.
use vstd::prelude::*;
use vstd::string::*;
use crate::event::{AppEvent, AppEventView, ServerCommand, ServerCommandView};
use crate::protocol::{
    command_line, decode_step, format_command_with_arg, unit_argument, unit_body, unit_verb,
    FrameView, ProtocolUnit, UnitDecoder, UnitView, CONNECTED_OK_MSG, DOCUMENTS_LIST_MSG,
    DOCUMENT_CONTENT_MSG, DOCUMENT_CREATED_FAIL_MSG, DOCUMENT_CREATED_OK_MSG,
    DOCUMENT_SWITCHED_MSG, DOCUMENT_UPDATED_MSG, NEW_DOCUMENT_AVAILABLE_MSG, USER_JOINED_MSG,
    USER_LEFT_MSG,
};
use crate::text::{split, split_by, str_eq};

verus! {

// The status and error texts that the client shows.
pub const CONNECTED_STATUS: &'static str = "Sunucuya başarıyla bağlanıldı!";

/// Stands before the name of a document that was created.
pub const CREATED_STATUS_HEAD: &'static str = "'";

pub const CREATED_STATUS_TAIL: &'static str = "' belgesi sunucuda oluşturuldu.";

/// The server's reason follows.
pub const CREATE_FAILED_ERROR: &'static str = "Belge oluşturma hatası: ";

/// The line that was not understood follows.
pub const UNKNOWN_MESSAGE_STATUS: &'static str = "[SUNUCU BİLİNMEYEN]: ";

pub const CONNECTION_LOST_ERROR: &'static str = "Sunucu bağlantısı kesildi.";

/// The reason follows.
pub const READ_FAILED_ERROR: &'static str = "Sunucudan okuma hatası: ";

/// The names in the argument of a list of documents: none where the
/// argument is empty, else what stands between the commas.
pub open spec fn listed_names(argument: Seq<char>) -> Seq<Seq<char>> {
    if argument.len() == 0 {
        Seq::empty()
    } else {
        split_by(argument, ',')
    }
}

/// What a unit that the server has sent means to the client. A unit with a
/// verb that the client does not know becomes a status that shows the line.
pub open spec fn server_command_of(unit: UnitView) -> ServerCommandView {
    let verb = unit_verb(unit);
    let argument = unit_argument(unit);
    if verb == DOCUMENTS_LIST_MSG@ {
        ServerCommandView::UpdateDocumentList(listed_names(argument))
    } else if verb == DOCUMENT_CONTENT_MSG@ {
        ServerCommandView::ReceiveDocumentContent { name: argument, content: unit_body(unit) }
    } else if verb == DOCUMENT_UPDATED_MSG@ {
        ServerCommandView::UpdateDocumentContent { name: argument, content: unit_body(unit) }
    } else if verb == USER_JOINED_MSG@ {
        ServerCommandView::UserJoined(argument)
    } else if verb == USER_LEFT_MSG@ {
        ServerCommandView::UserLeft(argument)
    } else if verb == NEW_DOCUMENT_AVAILABLE_MSG@ {
        ServerCommandView::NewDocumentAvailable(argument)
    } else if verb == DOCUMENT_SWITCHED_MSG@ {
        ServerCommandView::SwitchedToDocument { name: argument }
    } else if verb == CONNECTED_OK_MSG@ {
        ServerCommandView::Status(CONNECTED_STATUS@)
    } else if verb == DOCUMENT_CREATED_OK_MSG@ {
        ServerCommandView::Status(CREATED_STATUS_HEAD@ + argument + CREATED_STATUS_TAIL@)
    } else if verb == DOCUMENT_CREATED_FAIL_MSG@ {
        ServerCommandView::Error(CREATE_FAILED_ERROR@ + argument)
    } else {
        ServerCommandView::Status(UNKNOWN_MESSAGE_STATUS@ + command_line(verb, argument))
    }
}

/// Takes a unit of the server apart.
pub fn parse_server_unit(unit: ProtocolUnit) -> (command: ServerCommand)
    ensures
        command@ == server_command_of(unit@),
{
    proof {
        reveal_strlit("");
    }
    let ghost given = unit@;
    let (verb, argument, body): (String, String, String) = match unit {
        ProtocolUnit::Simple { verb, argument } => (verb, argument, String::from_str("")),
        ProtocolUnit::Framed { verb, name, body } => (verb, name, body),
    };
    assert(verb@ == unit_verb(given) && argument@ == unit_argument(given));
    assert(body@ =~= unit_body(given));
    if str_eq(verb.as_str(), DOCUMENTS_LIST_MSG) {
        if argument.as_str().is_empty() {
            let names: Vec<String> = Vec::new();
            assert(names.deep_view() =~= Seq::<Seq<char>>::empty());
            ServerCommand::UpdateDocumentList(names)
        } else {
            ServerCommand::UpdateDocumentList(split(argument.as_str(), ','))
        }
    } else if str_eq(verb.as_str(), DOCUMENT_CONTENT_MSG) {
        ServerCommand::ReceiveDocumentContent { name: argument, content: body }
    } else if str_eq(verb.as_str(), DOCUMENT_UPDATED_MSG) {
        ServerCommand::UpdateDocumentContent { name: argument, content: body }
    } else if str_eq(verb.as_str(), USER_JOINED_MSG) {
        ServerCommand::UserJoined(argument)
    } else if str_eq(verb.as_str(), USER_LEFT_MSG) {
        ServerCommand::UserLeft(argument)
    } else if str_eq(verb.as_str(), NEW_DOCUMENT_AVAILABLE_MSG) {
        ServerCommand::NewDocumentAvailable(argument)
    } else if str_eq(verb.as_str(), DOCUMENT_SWITCHED_MSG) {
        ServerCommand::SwitchedToDocument { name: argument }
    } else if str_eq(verb.as_str(), CONNECTED_OK_MSG) {
        ServerCommand::Status(String::from_str(CONNECTED_STATUS))
    } else if str_eq(verb.as_str(), DOCUMENT_CREATED_OK_MSG) {
        let mut text = String::from_str(CREATED_STATUS_HEAD);
        text.append(argument.as_str());
        text.append(CREATED_STATUS_TAIL);
        ServerCommand::Status(text)
    } else if str_eq(verb.as_str(), DOCUMENT_CREATED_FAIL_MSG) {
        let mut text = String::from_str(CREATE_FAILED_ERROR);
        text.append(argument.as_str());
        ServerCommand::Error(text)
    } else {
        let mut text = String::from_str(UNKNOWN_MESSAGE_STATUS);
        let line = format_command_with_arg(verb.as_str(), argument.as_str());
        text.append(line.as_str());
        ServerCommand::Status(text)
    }
}

/// The event that one more line of the server gives rise to, if it
/// completes a unit.
pub open spec fn line_heard(pending: Option<FrameView>, line: Seq<char>) -> Option<AppEventView> {
    match decode_step(pending, line).1 {
        None => None,
        Some(unit) => Some(AppEventView::ServerMessage(server_command_of(unit))),
    }
}

/// Listens to the server on behalf of the client's main loop.
pub struct ServerListener {
    decoder: UnitDecoder,
}

impl View for ServerListener {
    type V = Option<FrameView>;

    closed spec fn view(&self) -> Option<FrameView> {
        self.decoder@
    }
}

impl ServerListener {
    /// A listener at the start of the stream.
    pub fn new() -> (listener: Self)
        ensures
            listener@ is None,
    {
        ServerListener { decoder: UnitDecoder::new() }
    }

    /// Takes the next line as it was read, its line feed included.
    pub fn on_line(&mut self, line: &str) -> (event: Option<AppEvent>)
        ensures
            final(self)@ == decode_step(old(self)@, line@).0,
            match event {
                Some(e) => line_heard(old(self)@, line@) == Some(e@),
                None => line_heard(old(self)@, line@) is None,
            },
    {
        match self.decoder.push_line(line) {
            None => None,
            Some(unit) => Some(AppEvent::ServerMessage(parse_server_unit(unit))),
        }
    }

    /// The event for the end of the stream: the connection is lost, and a
    /// framed unit that was being read is dropped.
    pub fn on_end(self) -> (event: AppEvent)
        ensures
            event@ == AppEventView::ServerMessage(ServerCommandView::Error(CONNECTION_LOST_ERROR@)),
    {
        AppEvent::ServerMessage(ServerCommand::Error(String::from_str(CONNECTION_LOST_ERROR)))
    }

    /// The event for a read that failed for `reason`.
    pub fn on_read_error(self, reason: &str) -> (event: AppEvent)
        ensures
            event@ == AppEventView::ServerMessage(
                ServerCommandView::Error(READ_FAILED_ERROR@ + reason@),
            ),
    {
        let mut text = String::from_str(READ_FAILED_ERROR);
        text.append(reason);
        AppEvent::ServerMessage(ServerCommand::Error(text))
    }
}

} // verus!
