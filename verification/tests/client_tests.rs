use shared_editor::app_state::{push_text, push_to_log, ActiveWindow, AppState, ListSelection};
use shared_editor::client_state::ClientGuiState;
use shared_editor::event::{AppEvent, Key, ServerCommand};
use shared_editor::input::{handle_event, handle_key_event, handle_server_command, run_command};
use shared_editor::protocol::ProtocolUnit;
use shared_editor::server_listener::{parse_server_unit, ServerListener};

fn owned(items: &[&str]) -> Vec<String> {
    items.iter().map(|s| s.to_string()).collect()
}

fn app() -> AppState {
    AppState::new("alice".to_string())
}

fn type_text(app: &mut AppState, text: &str) {
    for c in text.chars() {
        assert!(handle_key_event(Key::Char(c), app).is_empty());
    }
}

fn enter(app: &mut AppState, text: &str) -> Vec<String> {
    type_text(app, text);
    handle_key_event(Key::Enter, app)
}

fn simple(verb: &str, argument: &str) -> ProtocolUnit {
    ProtocolUnit::Simple { verb: verb.to_string(), argument: argument.to_string() }
}

#[test]
fn new_app_state_is_connecting() {
    let app = app();
    assert_eq!(app.username, "alice");
    assert_eq!(app.event_log, owned(&["Connecting..."]));
    assert!(app.available_documents.is_empty());
    assert!(app.active_users.is_empty());
    assert_eq!(app.documents_list_state.selected(), None);
    assert_eq!(app.current_document_name, None);
    assert!(app.current_document_content.is_empty());
    assert_eq!(app.command_input, "");
    assert_eq!(app.active_window, ActiveWindow::CommandInput);
    assert!(!app.should_quit);
    assert_eq!(ActiveWindow::default(), ActiveWindow::CommandInput);
}

#[test]
fn event_log_keeps_the_last_five() {
    let mut app = app();
    for i in 1..=4 {
        app.add_event_log(format!("m{}", i));
    }
    assert_eq!(app.event_log, owned(&["Connecting...", "m1", "m2", "m3", "m4"]));
    app.add_event_log("m5".to_string());
    assert_eq!(app.event_log, owned(&["m1", "m2", "m3", "m4", "m5"]));
    app.add_event_log("m6".to_string());
    assert_eq!(app.event_log, owned(&["m2", "m3", "m4", "m5", "m6"]));
}

#[test]
fn log_that_is_too_long_loses_one_message_at_a_time() {
    let mut log = owned(&["1", "2", "3", "4", "5", "6", "7"]);
    push_to_log(&mut log, "8".to_string());
    assert_eq!(log, owned(&["2", "3", "4", "5", "6", "7", "8"]));
    let mut list = owned(&["a"]);
    push_text(&mut list, "b".to_string());
    assert_eq!(list, owned(&["a", "b"]));
}

#[test]
fn selection_wraps_around() {
    let mut app = app();
    app.select_next_document();
    assert_eq!(app.documents_list_state.selected(), None);
    app.select_previous_document();
    assert_eq!(app.documents_list_state.selected(), None);
    app.available_documents = owned(&["a", "b", "c"]);
    app.select_next_document();
    assert_eq!(app.documents_list_state.selected(), Some(0));
    app.select_next_document();
    app.select_next_document();
    assert_eq!(app.documents_list_state.selected(), Some(2));
    app.select_next_document();
    assert_eq!(app.documents_list_state.selected(), Some(0));
    app.select_previous_document();
    assert_eq!(app.documents_list_state.selected(), Some(2));
    app.select_previous_document();
    assert_eq!(app.documents_list_state.selected(), Some(1));
    app.documents_list_state.select(Some(17));
    app.select_next_document();
    assert_eq!(app.documents_list_state.selected(), Some(0));
    app.documents_list_state.select(None);
    app.select_previous_document();
    assert_eq!(app.documents_list_state.selected(), Some(0));
    app.available_documents.clear();
    app.select_previous_document();
    assert_eq!(app.documents_list_state.selected(), None);
    assert_eq!(ListSelection::new().selected(), None);
}

#[test]
fn gui_state_starts_ready_and_asks_for_a_redraw() {
    let mut state = ClientGuiState::new();
    assert_eq!(state.status_message, "Hazır.");
    assert!(state.needs_redraw);
    assert!(state.event_messages.is_empty());
    assert_eq!(state.current_document_content, "");
    state.needs_redraw = false;
    state.set_status_message("busy".to_string());
    assert_eq!(state.status_message, "busy");
    assert!(state.needs_redraw);
    state.needs_redraw = false;
    for i in 0..7 {
        state.add_event_message(format!("e{}", i));
    }
    assert!(state.needs_redraw);
    assert_eq!(state.event_messages, owned(&["e2", "e3", "e4", "e5", "e6"]));
}

#[test]
fn typing_edits_the_command_line() {
    let mut app = app();
    type_text(&mut app, "liş");
    assert_eq!(app.command_input, "liş");
    handle_key_event(Key::Backspace, &mut app);
    assert_eq!(app.command_input, "li");
    handle_key_event(Key::Backspace, &mut app);
    handle_key_event(Key::Backspace, &mut app);
    handle_key_event(Key::Backspace, &mut app);
    assert_eq!(app.command_input, "");
    assert!(handle_key_event(Key::Up, &mut app).is_empty());
    assert!(handle_key_event(Key::Other, &mut app).is_empty());
    assert_eq!(app.event_log, owned(&["Connecting..."]));
}

#[test]
fn commands_are_sent_in_upper_case() {
    let mut app = app();
    assert_eq!(enter(&mut app, "  list  "), owned(&["LIST_DOCUMENTS\n"]));
    assert_eq!(app.command_input, "");
    assert_eq!(app.event_log.last().unwrap(), "Sending: list");
    assert_eq!(enter(&mut app, "Create my notes"), owned(&["CREATE_DOCUMENT my notes\n"]));
    assert_eq!(enter(&mut app, "switch a.txt"), owned(&["SWITCH_DOCUMENT a.txt\n"]));
    assert!(!app.should_quit);
    assert_eq!(enter(&mut app, "quit"), owned(&["DISCONNECT\n"]));
    assert!(app.should_quit);
}

#[test]
fn commands_without_their_argument_are_not_understood() {
    let mut app = app();
    for text in ["create", "SWITCH", "bogus x", ""] {
        assert!(enter(&mut app, text).is_empty());
        assert_eq!(
            app.event_log.last().unwrap(),
            &format!("Unknown command or missing argument: {}", text)
        );
    }
}

#[test]
fn edit_sends_the_new_content_of_the_open_document() {
    let mut app = app();
    assert!(enter(&mut app, "edit hello").is_empty());
    assert_eq!(app.event_log.last().unwrap(), "ERROR: No active document to edit.");
    app.current_document_name = Some("notes.txt".to_string());
    assert_eq!(
        enter(&mut app, "edit hello world"),
        owned(&["UPDATE_DOCUMENT notes.txt\nhello world\nEND_OF_MESSAGE\n"])
    );
    assert_eq!(enter(&mut app, "EDIT"), owned(&["UPDATE_DOCUMENT notes.txt\n\nEND_OF_MESSAGE\n"]));
}

#[test]
fn run_command_goes_by_the_verb_it_is_given() {
    let mut app = app();
    assert_eq!(run_command(&mut app, "whatever", "LIST", ""), owned(&["LIST_DOCUMENTS\n"]));
    assert!(run_command(&mut app, "list", "list", "").is_empty());
    assert_eq!(app.event_log.last().unwrap(), "Unknown command or missing argument: list");
    assert_eq!(run_command(&mut app, "c", "CREATE", "x"), owned(&["CREATE_DOCUMENT x\n"]));
}

#[test]
fn document_list_takes_the_keys_after_tab() {
    let mut app = app();
    app.available_documents = owned(&["a.txt", "b.txt"]);
    handle_key_event(Key::Tab, &mut app);
    assert_eq!(app.active_window, ActiveWindow::DocumentList);
    assert!(handle_key_event(Key::Char('x'), &mut app).is_empty());
    assert_eq!(app.command_input, "");
    handle_key_event(Key::Down, &mut app);
    handle_key_event(Key::Down, &mut app);
    assert_eq!(app.documents_list_state.selected(), Some(1));
    handle_key_event(Key::Up, &mut app);
    assert_eq!(app.documents_list_state.selected(), Some(0));
    assert_eq!(handle_key_event(Key::Enter, &mut app), owned(&["SWITCH_DOCUMENT a.txt\n"]));
    assert_eq!(app.active_window, ActiveWindow::CommandInput);
    assert_eq!(app.event_log.last().unwrap(), "Requesting to switch to 'a.txt'.");
    handle_key_event(Key::Tab, &mut app);
    handle_key_event(Key::Tab, &mut app);
    assert_eq!(app.active_window, ActiveWindow::CommandInput);
}

#[test]
fn enter_in_the_list_without_a_valid_mark_only_goes_back() {
    let mut app = app();
    handle_key_event(Key::Tab, &mut app);
    assert!(handle_key_event(Key::Enter, &mut app).is_empty());
    assert_eq!(app.active_window, ActiveWindow::CommandInput);
    app.available_documents = owned(&["a.txt"]);
    app.documents_list_state.select(Some(3));
    handle_key_event(Key::Tab, &mut app);
    assert!(handle_key_event(Key::Enter, &mut app).is_empty());
    assert_eq!(app.event_log, owned(&["Connecting..."]));
}

#[test]
fn document_list_update_marks_the_first_document() {
    let mut app = app();
    handle_server_command(ServerCommand::UpdateDocumentList(vec![]), &mut app);
    assert_eq!(app.documents_list_state.selected(), None);
    handle_server_command(ServerCommand::UpdateDocumentList(owned(&["a", "b"])), &mut app);
    assert_eq!(app.available_documents, owned(&["a", "b"]));
    assert_eq!(app.documents_list_state.selected(), Some(0));
    app.documents_list_state.select(Some(1));
    handle_server_command(ServerCommand::UpdateDocumentList(owned(&["c"])), &mut app);
    assert_eq!(app.documents_list_state.selected(), Some(1));
    assert_eq!(app.event_log.last().unwrap(), "Document list updated.");
}

#[test]
fn names_are_added_once_and_removed_everywhere() {
    let mut app = app();
    handle_server_command(ServerCommand::NewDocumentAvailable("a.txt".to_string()), &mut app);
    handle_server_command(ServerCommand::NewDocumentAvailable("a.txt".to_string()), &mut app);
    assert_eq!(app.available_documents, owned(&["a.txt"]));
    assert_eq!(app.event_log.last().unwrap(), "New document available: a.txt");
    handle_server_command(ServerCommand::UserJoined("bob".to_string()), &mut app);
    handle_server_command(ServerCommand::UserJoined("carol".to_string()), &mut app);
    handle_server_command(ServerCommand::UserJoined("bob".to_string()), &mut app);
    assert_eq!(app.active_users, owned(&["bob", "carol"]));
    assert_eq!(app.event_log.last().unwrap(), "bob joined.");
    handle_server_command(ServerCommand::UserLeft("bob".to_string()), &mut app);
    assert_eq!(app.active_users, owned(&["carol"]));
    assert_eq!(app.event_log.last().unwrap(), "bob left.");
}

#[test]
fn document_content_is_kept_line_by_line() {
    let mut app = app();
    handle_server_command(
        ServerCommand::ReceiveDocumentContent { name: "a.txt".to_string(), content: "one\r\ntwo\n".to_string() },
        &mut app,
    );
    assert_eq!(app.current_document_name.as_deref(), Some("a.txt"));
    assert_eq!(app.current_document_content, owned(&["one", "two"]));
    assert_eq!(app.event_log.last().unwrap(), "Loaded document 'a.txt'.");
    handle_server_command(
        ServerCommand::UpdateDocumentContent { name: "b.txt".to_string(), content: "x".to_string() },
        &mut app,
    );
    assert_eq!(app.current_document_content, owned(&["one", "two"]));
    assert_eq!(app.event_log.last().unwrap(), "Inactive document 'b.txt' was updated.");
    handle_server_command(
        ServerCommand::UpdateDocumentContent { name: "a.txt".to_string(), content: "x\ny".to_string() },
        &mut app,
    );
    assert_eq!(app.current_document_content, owned(&["x", "y"]));
    assert_eq!(app.event_log.last().unwrap(), "Active document 'a.txt' updated.");
    handle_server_command(ServerCommand::SwitchedToDocument { name: "c.txt".to_string() }, &mut app);
    assert_eq!(app.current_document_name.as_deref(), Some("c.txt"));
    assert!(app.current_document_content.is_empty());
    assert_eq!(app.event_log.last().unwrap(), "Switched to document 'c.txt'.");
}

#[test]
fn status_and_error_are_logged() {
    let mut app = app();
    handle_server_command(ServerCommand::Status("ok".to_string()), &mut app);
    assert_eq!(app.event_log.last().unwrap(), "[SERVER] ok");
    handle_server_command(ServerCommand::Error("Sunucu bağlantısı kesildi.".to_string()), &mut app);
    assert_eq!(app.event_log.last().unwrap(), "[ERROR] Sunucu bağlantısı kesildi.");
    assert!(!app.should_quit);
    handle_server_command(ServerCommand::Error("oh: Server connection closed.".to_string()), &mut app);
    assert!(app.should_quit);
}

#[test]
fn events_go_to_their_handler() {
    let mut app = app();
    assert!(handle_event(AppEvent::Input(Key::Char('q')), &mut app).is_empty());
    assert_eq!(app.command_input, "q");
    assert!(handle_event(AppEvent::ServerMessage(ServerCommand::Status("s".to_string())), &mut app).is_empty());
    assert_eq!(app.event_log.last().unwrap(), "[SERVER] s");
    type_text(&mut app, "uit");
    assert_eq!(handle_event(AppEvent::Input(Key::Enter), &mut app), owned(&["DISCONNECT\n"]));
}

#[test]
fn server_units_become_commands() {
    assert_eq!(
        parse_server_unit(simple("DOCUMENTS_LIST", "a.txt,b.txt")),
        ServerCommand::UpdateDocumentList(owned(&["a.txt", "b.txt"]))
    );
    assert_eq!(parse_server_unit(simple("DOCUMENTS_LIST", "")), ServerCommand::UpdateDocumentList(vec![]));
    assert_eq!(parse_server_unit(simple("USER_JOINED", "bob")), ServerCommand::UserJoined("bob".to_string()));
    assert_eq!(parse_server_unit(simple("USER_LEFT", "bob")), ServerCommand::UserLeft("bob".to_string()));
    assert_eq!(
        parse_server_unit(simple("NEW_DOCUMENT_AVAILABLE", "a.txt")),
        ServerCommand::NewDocumentAvailable("a.txt".to_string())
    );
    assert_eq!(
        parse_server_unit(simple("DOCUMENT_SWITCHED", "a.txt")),
        ServerCommand::SwitchedToDocument { name: "a.txt".to_string() }
    );
    assert_eq!(
        parse_server_unit(simple("CONNECTED_OK", "")),
        ServerCommand::Status("Sunucuya başarıyla bağlanıldı!".to_string())
    );
    assert_eq!(
        parse_server_unit(simple("DOCUMENT_CREATED_OK", "a.txt")),
        ServerCommand::Status("'a.txt' belgesi sunucuda oluşturuldu.".to_string())
    );
    assert_eq!(
        parse_server_unit(simple("DOCUMENT_CREATED_FAIL", "Belge zaten var.")),
        ServerCommand::Error("Belge oluşturma hatası: Belge zaten var.".to_string())
    );
    assert_eq!(
        parse_server_unit(simple("HATA", "Bilinmeyen komut: x")),
        ServerCommand::Status("[SUNUCU BİLİNMEYEN]: HATA Bilinmeyen komut: x".to_string())
    );
    assert_eq!(
        parse_server_unit(simple("PING", "")),
        ServerCommand::Status("[SUNUCU BİLİNMEYEN]: PING".to_string())
    );
    assert_eq!(
        parse_server_unit(ProtocolUnit::Framed {
            verb: "DOCUMENT_CONTENT".to_string(),
            name: "a.txt".to_string(),
            body: "x\ny".to_string()
        }),
        ServerCommand::ReceiveDocumentContent { name: "a.txt".to_string(), content: "x\ny".to_string() }
    );
    assert_eq!(
        parse_server_unit(ProtocolUnit::Framed {
            verb: "DOCUMENT_UPDATED".to_string(),
            name: "a.txt".to_string(),
            body: String::new()
        }),
        ServerCommand::UpdateDocumentContent { name: "a.txt".to_string(), content: String::new() }
    );
}

#[test]
fn listener_hears_units_line_by_line() {
    let mut listener = ServerListener::new();
    assert_eq!(listener.on_line("\n"), None);
    assert_eq!(
        listener.on_line("USER_JOINED bob\n"),
        Some(AppEvent::ServerMessage(ServerCommand::UserJoined("bob".to_string())))
    );
    assert_eq!(listener.on_line("DOCUMENT_UPDATED a.txt\n"), None);
    assert_eq!(listener.on_line("hello\n"), None);
    assert_eq!(listener.on_line("world\n"), None);
    assert_eq!(
        listener.on_line("END_OF_MESSAGE\n"),
        Some(AppEvent::ServerMessage(ServerCommand::UpdateDocumentContent {
            name: "a.txt".to_string(),
            content: "hello\nworld".to_string()
        }))
    );
    assert_eq!(
        listener.on_end(),
        AppEvent::ServerMessage(ServerCommand::Error("Sunucu bağlantısı kesildi.".to_string()))
    );
    assert_eq!(
        ServerListener::new().on_read_error("reset"),
        AppEvent::ServerMessage(ServerCommand::Error("Sunucudan okuma hatası: reset".to_string()))
    );
}
