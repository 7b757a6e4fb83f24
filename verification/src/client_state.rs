//! The client's state as a window toolkit needs it: the lists, the open
//! document as one text, a status line, and a mark that says whether the
//! screen is out of date.
use vstd::prelude::*;
use vstd::string::*;
use crate::app_state::{logged, push_to_log};

verus! {

/// What a `ClientGuiState` holds.
pub struct ClientGuiView {
    pub available_documents: Seq<Seq<char>>,
    pub active_users: Seq<Seq<char>>,
    pub current_document_name: Option<Seq<char>>,
    pub current_document_content: Seq<char>,
    pub status_message: Seq<char>,
    pub event_messages: Seq<Seq<char>>,
    pub needs_redraw: bool,
}

/// The state of a client with windows.
#[derive(Debug)]
pub struct ClientGuiState {
    pub available_documents: Vec<String>,
    pub active_users: Vec<String>,
    pub current_document_name: Option<String>,
    pub current_document_content: String,
    pub status_message: String,
    /// The latest events that the server has sent.
    pub event_messages: Vec<String>,
    /// Tells the main loop to draw again.
    pub needs_redraw: bool,
}

impl View for ClientGuiState {
    type V = ClientGuiView;

    open spec fn view(&self) -> ClientGuiView {
        ClientGuiView {
            available_documents: self.available_documents.deep_view(),
            active_users: self.active_users.deep_view(),
            current_document_name: self.current_document_name.deep_view(),
            current_document_content: self.current_document_content@,
            status_message: self.status_message@,
            event_messages: self.event_messages.deep_view(),
            needs_redraw: self.needs_redraw,
        }
    }
}

/// The state before anything has happened: nothing known, the status
/// "ready", and the screen to be drawn.
pub open spec fn initial_gui() -> ClientGuiView {
    ClientGuiView {
        available_documents: Seq::empty(),
        active_users: Seq::empty(),
        current_document_name: None,
        current_document_content: Seq::empty(),
        status_message: "Hazır."@,
        event_messages: Seq::empty(),
        needs_redraw: true,
    }
}

impl ClientGuiState {
    /// The state before anything has happened.
    pub fn new() -> (state: Self)
        ensures
            state@ == initial_gui(),
    {
        let available_documents: Vec<String> = Vec::new();
        let active_users: Vec<String> = Vec::new();
        let event_messages: Vec<String> = Vec::new();
        assert(available_documents.deep_view() =~= Seq::<Seq<char>>::empty());
        assert(active_users.deep_view() =~= Seq::<Seq<char>>::empty());
        assert(event_messages.deep_view() =~= Seq::<Seq<char>>::empty());
        ClientGuiState {
            available_documents,
            active_users,
            current_document_name: None,
            current_document_content: String::new(),
            status_message: String::from_str("Hazır."),
            event_messages,
            needs_redraw: true,
        }
    }

    /// Adds `message` to the events, of which the latest are kept, and asks
    /// for the screen to be drawn.
    pub fn add_event_message(&mut self, message: String)
        ensures
            final(self)@ == (ClientGuiView {
                event_messages: logged(old(self)@.event_messages, message@),
                needs_redraw: true,
                ..old(self)@
            }),
    {
        push_to_log(&mut self.event_messages, message);
        self.needs_redraw = true;
    }

    /// Replaces the status line and asks for the screen to be drawn.
    pub fn set_status_message(&mut self, message: String)
        ensures
            final(self)@ == (ClientGuiView {
                status_message: message@,
                needs_redraw: true,
                ..old(self)@
            }),
    {
        self.status_message = message;
        self.needs_redraw = true;
    }
}

} // verus!
