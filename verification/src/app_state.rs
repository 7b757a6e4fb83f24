//! What the client shows: the documents and users it knows of, the open
//! document, the command line and the log.
use vstd::prelude::*;
use vstd::string::*;

verus! {

/// The log keeps this many messages, the latest ones.
pub const EVENT_LOG_LIMIT: usize = 5;

/// Which part of the screen takes the keys.
#[derive(Debug, PartialEq, Eq, Clone, Copy, Structural)]
pub enum ActiveWindow {
    CommandInput,
    DocumentList,
}

impl Default for ActiveWindow {
    fn default() -> (window: Self)
        ensures
            window == ActiveWindow::CommandInput,
    {
        ActiveWindow::CommandInput
    }
}

/// Which entry of a list is marked, if any.
#[derive(Debug, Clone, Copy, PartialEq, Eq, Structural)]
pub struct ListSelection {
    pub selected: Option<usize>,
}

impl ListSelection {
    /// A list in which nothing is marked.
    pub fn new() -> (list: Self)
        ensures
            list.selected is None,
    {
        ListSelection { selected: None }
    }

    /// Marks the entry `index`, or nothing.
    pub fn select(&mut self, index: Option<usize>)
        ensures
            final(self).selected == index,
    {
        self.selected = index;
    }

    /// The entry that is marked.
    pub fn selected(&self) -> (index: Option<usize>)
        ensures
            index == self.selected,
    {
        self.selected
    }
}

/// The log after `message` was added: the oldest message leaves where the
/// log would grow beyond its limit.
pub open spec fn logged(log: Seq<Seq<char>>, message: Seq<char>) -> Seq<Seq<char>> {
    if log.len() + 1 > EVENT_LOG_LIMIT {
        log.push(message).remove(0)
    } else {
        log.push(message)
    }
}

/// The entry marked after a step down a list of `count` entries: the next
/// one, the first one after the last, the first one where none was marked,
/// none in an empty list.
pub open spec fn next_selection(count: nat, selected: Option<usize>) -> Option<usize> {
    if count == 0 {
        None
    } else {
        match selected {
            Some(i) => if i >= count - 1 {
                Some(0usize)
            } else {
                Some((i + 1) as usize)
            },
            None => Some(0usize),
        }
    }
}

/// The entry marked after a step up a list of `count` entries: the one
/// before, the last one before the first, the first one where none was
/// marked, none in an empty list.
pub open spec fn previous_selection(count: nat, selected: Option<usize>) -> Option<usize> {
    if count == 0 {
        None
    } else {
        match selected {
            Some(i) => if i == 0 {
                Some((count - 1) as usize)
            } else {
                Some((i - 1) as usize)
            },
            None => Some(0usize),
        }
    }
}

/// What an `AppState` holds.
pub struct AppView {
    pub username: Seq<char>,
    pub available_documents: Seq<Seq<char>>,
    pub selected: Option<usize>,
    pub active_users: Seq<Seq<char>>,
    pub current_document_name: Option<Seq<char>>,
    pub current_document_content: Seq<Seq<char>>,
    pub command_input: Seq<char>,
    pub event_log: Seq<Seq<char>>,
    pub active_window: ActiveWindow,
    pub should_quit: bool,
}

/// The state of the client.
#[derive(Debug)]
pub struct AppState {
    pub username: String,
    pub available_documents: Vec<String>,
    /// The entry of `available_documents` that is marked.
    pub documents_list_state: ListSelection,
    pub active_users: Vec<String>,
    pub current_document_name: Option<String>,
    /// The open document, line by line.
    pub current_document_content: Vec<String>,
    /// What the user has typed.
    pub command_input: String,
    /// The latest events and status messages.
    pub event_log: Vec<String>,
    pub active_window: ActiveWindow,
    pub should_quit: bool,
}

impl View for AppState {
    type V = AppView;

    open spec fn view(&self) -> AppView {
        AppView {
            username: self.username@,
            available_documents: self.available_documents.deep_view(),
            selected: self.documents_list_state.selected,
            active_users: self.active_users.deep_view(),
            current_document_name: self.current_document_name.deep_view(),
            current_document_content: self.current_document_content.deep_view(),
            command_input: self.command_input@,
            event_log: self.event_log.deep_view(),
            active_window: self.active_window,
            should_quit: self.should_quit,
        }
    }
}

/// The state of a client that has just been started for `username`.
pub open spec fn initial_app(username: Seq<char>) -> AppView {
    AppView {
        username,
        available_documents: Seq::empty(),
        selected: None,
        active_users: Seq::empty(),
        current_document_name: None,
        current_document_content: Seq::empty(),
        command_input: Seq::empty(),
        event_log: seq!["Connecting..."@],
        active_window: ActiveWindow::CommandInput,
        should_quit: false,
    }
}

/// Adds `text` at the end of `list`.
pub fn push_text(list: &mut Vec<String>, text: String)
    ensures
        final(list).deep_view() == old(list).deep_view().push(text@),
{
    let ghost before = list.deep_view();
    list.push(text);
    assert(list.deep_view() =~= before.push(text@));
}

/// Adds `message` to `log` and lets the oldest message go where the log
/// would grow beyond its limit.
pub fn push_to_log(log: &mut Vec<String>, message: String)
    ensures
        final(log).deep_view() == logged(old(log).deep_view(), message@),
{
    let ghost before = log.deep_view();
    push_text(log, message);
    if log.len() > EVENT_LOG_LIMIT {
        let ghost full = log.deep_view();
        log.remove(0);
        assert(log.deep_view() =~= full.remove(0));
    }
}

impl AppState {
    /// The state of a client that has just been started for `username`.
    pub fn new(username: String) -> (app: Self)
        ensures
            app@ == initial_app(username@),
    {
        let mut event_log: Vec<String> = Vec::new();
        assert(event_log.deep_view() =~= Seq::<Seq<char>>::empty());
        push_text(&mut event_log, String::from_str("Connecting..."));
        assert(event_log.deep_view() =~= seq!["Connecting..."@]);
        let available_documents: Vec<String> = Vec::new();
        let active_users: Vec<String> = Vec::new();
        let current_document_content: Vec<String> = Vec::new();
        assert(available_documents.deep_view() =~= Seq::<Seq<char>>::empty());
        assert(active_users.deep_view() =~= Seq::<Seq<char>>::empty());
        assert(current_document_content.deep_view() =~= Seq::<Seq<char>>::empty());
        AppState {
            username,
            available_documents,
            documents_list_state: ListSelection::new(),
            active_users,
            current_document_name: None,
            current_document_content,
            command_input: String::new(),
            event_log,
            active_window: ActiveWindow::CommandInput,
            should_quit: false,
        }
    }

    /// Adds `message` to the log, which keeps the latest messages.
    pub fn add_event_log(&mut self, message: String)
        ensures
            final(self)@ == (AppView {
                event_log: logged(old(self)@.event_log, message@),
                ..old(self)@
            }),
    {
        push_to_log(&mut self.event_log, message);
    }

    /// Moves the mark one document down, from the last one to the first.
    pub fn select_next_document(&mut self)
        ensures
            final(self)@ == (AppView {
                selected: next_selection(
                    old(self)@.available_documents.len(),
                    old(self)@.selected,
                ),
                ..old(self)@
            }),
    {
        if self.available_documents.len() == 0 {
            self.documents_list_state.select(None);
            return ;
        }
        let i: usize = match self.documents_list_state.selected() {
            Some(i) => {
                if i >= self.available_documents.len() - 1 {
                    0
                } else {
                    i + 1
                }
            },
            None => 0,
        };
        self.documents_list_state.select(Some(i));
    }

    /// Moves the mark one document up, from the first one to the last.
    pub fn select_previous_document(&mut self)
        ensures
            final(self)@ == (AppView {
                selected: previous_selection(
                    old(self)@.available_documents.len(),
                    old(self)@.selected,
                ),
                ..old(self)@
            }),
    {
        if self.available_documents.len() == 0 {
            self.documents_list_state.select(None);
            return ;
        }
        let i: usize = match self.documents_list_state.selected() {
            Some(i) => {
                if i == 0 {
                    self.available_documents.len() - 1
                } else {
                    i - 1
                }
            },
            None => 0,
        };
        self.documents_list_state.select(Some(i));
    }
}

impl Default for AppState {
    /// A client without a user and with an empty log.
    fn default() -> (app: Self)
        ensures
            app@ == (AppView { event_log: Seq::empty(), ..initial_app(Seq::empty()) }),
    {
        let available_documents: Vec<String> = Vec::new();
        let active_users: Vec<String> = Vec::new();
        let current_document_content: Vec<String> = Vec::new();
        let event_log: Vec<String> = Vec::new();
        assert(available_documents.deep_view() =~= Seq::<Seq<char>>::empty());
        assert(active_users.deep_view() =~= Seq::<Seq<char>>::empty());
        assert(current_document_content.deep_view() =~= Seq::<Seq<char>>::empty());
        assert(event_log.deep_view() =~= Seq::<Seq<char>>::empty());
        AppState {
            username: String::new(),
            available_documents,
            documents_list_state: ListSelection::new(),
            active_users,
            current_document_name: None,
            current_document_content,
            command_input: String::new(),
            event_log,
            active_window: ActiveWindow::CommandInput,
            should_quit: false,
        }
    }
}

} // verus!
