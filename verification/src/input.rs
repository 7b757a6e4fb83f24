//! What an event does to the client: a key edits the command line, runs a
//! command or moves in the list of documents; a message of the server
//! changes what the client knows. What is to be sent to the server comes
//! back as lines.
use vstd::prelude::*;
use vstd::string::*;
use crate::app_state::{
    logged, next_selection, previous_selection, push_text, ActiveWindow, AppState, AppView,
};
use crate::event::{AppEvent, AppEventView, Key, ServerCommand, ServerCommandView};
use crate::protocol::{
    command_line, document_message, format_command_with_arg, format_document_message, wire_line,
    CREATE_DOCUMENT_CMD, DISCONNECT_CMD, LIST_DOCUMENTS_CMD, SWITCH_DOCUMENT_CMD,
    UPDATE_DOCUMENT_CMD,
};
use crate::text::{
    after_first, before_first, contains, has_substring, lines, lines_of, list_contains,
    remove_all, split_at_first, str_eq, trim, trimmed, without,
};

verus! {

/// `String::push` adds the character at the end of the string.
pub assume_specification[ String::push ](s: &mut String, ch: char)
    ensures
        final(s)@ == old(s)@.push(ch),
;

/// What `str::to_uppercase` makes of a string.
pub uninterp spec fn uppercase(s: Seq<char>) -> Seq<char>;

/// `str::to_uppercase`. The result is given its name; nothing else is
/// claimed of it.
#[verifier::external_body]
fn to_uppercase(s: &str) -> (r: String)
    ensures
        r@ == uppercase(s@),
{
    s.to_uppercase()
}

/// `app` with one more message in its log.
pub open spec fn with_log(app: AppView, message: Seq<char>) -> AppView {
    AppView { event_log: logged(app.event_log, message), ..app }
}

/// The state after the command line `command` was run, and the lines for the
/// server. `verb` is the first word of the command in upper case, `argument`
/// what follows the first space.
///
/// `QUIT` leaves, `LIST` asks for the documents, `CREATE` and `SWITCH` need
/// a name, `EDIT` sends the argument as the new content of the open
/// document. Anything else is logged as not understood.
pub open spec fn command_run(
    app: AppView,
    command: Seq<char>,
    verb: Seq<char>,
    argument: Seq<char>,
) -> (AppView, Seq<Seq<char>>) {
    if verb == "QUIT"@ {
        (AppView { should_quit: true, ..app }, seq![wire_line(DISCONNECT_CMD@)])
    } else if verb == "LIST"@ {
        (app, seq![wire_line(LIST_DOCUMENTS_CMD@)])
    } else if verb == "CREATE"@ && argument.len() > 0 {
        (app, seq![wire_line(command_line(CREATE_DOCUMENT_CMD@, argument))])
    } else if verb == "SWITCH"@ && argument.len() > 0 {
        (app, seq![wire_line(command_line(SWITCH_DOCUMENT_CMD@, argument))])
    } else if verb == "EDIT"@ {
        match app.current_document_name {
            Some(name) => (
                app,
                seq![wire_line(document_message(UPDATE_DOCUMENT_CMD@, name, argument))],
            ),
            None => (with_log(app, "ERROR: No active document to edit."@), Seq::empty()),
        }
    } else {
        (with_log(app, "Unknown command or missing argument: "@ + command), Seq::empty())
    }
}

/// The state after Enter on the command line: the line is taken, trimmed,
/// logged and run, and the command line is empty again.
pub open spec fn command_entered(app: AppView) -> (AppView, Seq<Seq<char>>) {
    let command = trimmed(app.command_input);
    command_run(
        with_log(AppView { command_input: Seq::empty(), ..app }, "Sending: "@ + command),
        command,
        uppercase(before_first(command, ' ')),
        after_first(command, ' '),
    )
}

/// The state after Enter in the list of documents: the server is asked for
/// the marked document, if one is marked, and the keys go to the command
/// line again.
pub open spec fn document_chosen(app: AppView) -> (AppView, Seq<Seq<char>>) {
    let back = AppView { active_window: ActiveWindow::CommandInput, ..app };
    match app.selected {
        Some(i) => if i < app.available_documents.len() {
            let name = app.available_documents[i as int];
            (
                with_log(back, "Requesting to switch to '"@ + name + "'."@),
                seq![wire_line(command_line(SWITCH_DOCUMENT_CMD@, name))],
            )
        } else {
            (back, Seq::empty())
        },
        None => (back, Seq::empty()),
    }
}

/// The state after a key, and the lines for the server.
pub open spec fn key_applied(app: AppView, key: Key) -> (AppView, Seq<Seq<char>>) {
    match app.active_window {
        ActiveWindow::CommandInput => match key {
            Key::Enter => command_entered(app),
            Key::Char(c) => (
                AppView { command_input: app.command_input.push(c), ..app },
                Seq::empty(),
            ),
            Key::Backspace => (
                AppView {
                    command_input: if app.command_input.len() > 0 {
                        app.command_input.drop_last()
                    } else {
                        app.command_input
                    },
                    ..app
                },
                Seq::empty(),
            ),
            Key::Tab => (AppView { active_window: ActiveWindow::DocumentList, ..app }, Seq::empty()),
            _ => (app, Seq::empty()),
        },
        ActiveWindow::DocumentList => match key {
            Key::Enter => document_chosen(app),
            Key::Up => (
                AppView {
                    selected: previous_selection(app.available_documents.len(), app.selected),
                    ..app
                },
                Seq::empty(),
            ),
            Key::Down => (
                AppView {
                    selected: next_selection(app.available_documents.len(), app.selected),
                    ..app
                },
                Seq::empty(),
            ),
            Key::Tab => (AppView { active_window: ActiveWindow::CommandInput, ..app }, Seq::empty()),
            _ => (app, Seq::empty()),
        },
    }
}

/// `list` with `name` at its end, unless it holds `name` already.
pub open spec fn with_name(list: Seq<Seq<char>>, name: Seq<char>) -> Seq<Seq<char>> {
    if list.contains(name) {
        list
    } else {
        list.push(name)
    }
}

/// The state after a message of the server.
pub open spec fn server_command_applied(app: AppView, command: ServerCommandView) -> AppView {
    match command {
        ServerCommandView::UpdateDocumentList(names) => with_log(
            AppView {
                available_documents: names,
                selected: if app.selected is None && names.len() > 0 {
                    Some(0usize)
                } else {
                    app.selected
                },
                ..app
            },
            "Document list updated."@,
        ),
        ServerCommandView::NewDocumentAvailable(name) => with_log(
            AppView { available_documents: with_name(app.available_documents, name), ..app },
            "New document available: "@ + name,
        ),
        ServerCommandView::UserJoined(name) => with_log(
            AppView { active_users: with_name(app.active_users, name), ..app },
            name + " joined."@,
        ),
        ServerCommandView::UserLeft(name) => with_log(
            AppView { active_users: without(app.active_users, name), ..app },
            name + " left."@,
        ),
        ServerCommandView::ReceiveDocumentContent { name, content } => with_log(
            AppView {
                current_document_name: Some(name),
                current_document_content: lines_of(content),
                ..app
            },
            "Loaded document '"@ + name + "'."@,
        ),
        ServerCommandView::UpdateDocumentContent { name, content } => {
            if app.current_document_name == Some(name) {
                with_log(
                    AppView { current_document_content: lines_of(content), ..app },
                    "Active document '"@ + name + "' updated."@,
                )
            } else {
                with_log(app, "Inactive document '"@ + name + "' was updated."@)
            }
        },
        ServerCommandView::SwitchedToDocument { name } => with_log(
            AppView {
                current_document_name: Some(name),
                current_document_content: Seq::empty(),
                ..app
            },
            "Switched to document '"@ + name + "'."@,
        ),
        ServerCommandView::Status(text) => with_log(app, "[SERVER] "@ + text),
        ServerCommandView::Error(text) => with_log(
            AppView {
                should_quit: app.should_quit || has_substring(text, "Server connection closed"@),
                ..app
            },
            "[ERROR] "@ + text,
        ),
    }
}

/// The state after an event, and the lines for the server.
pub open spec fn event_applied(app: AppView, event: AppEventView) -> (AppView, Seq<Seq<char>>) {
    match event {
        AppEventView::Input(key) => key_applied(app, key),
        AppEventView::ServerMessage(command) => (
            server_command_applied(app, command),
            Seq::empty(),
        ),
    }
}

fn framed(head: &str, middle: &str, tail: &str) -> (r: String)
    ensures
        r@ == head@ + middle@ + tail@,
{
    let mut r = String::from_str(head);
    r.append(middle);
    r.append(tail);
    r
}

fn one_line(message: &str) -> (out: Vec<String>)
    ensures
        out.deep_view() == seq![wire_line(message@)],
{
    proof {
        reveal_strlit("\n");
    }
    let mut line = String::from_str(message);
    line.append("\n");
    assert("\n"@ =~= seq!['\n']);
    let mut out: Vec<String> = Vec::new();
    assert(out.deep_view() =~= Seq::<Seq<char>>::empty());
    push_text(&mut out, line);
    assert(out.deep_view() =~= seq![wire_line(message@)]);
    out
}

fn no_lines() -> (out: Vec<String>)
    ensures
        out.deep_view() == Seq::<Seq<char>>::empty(),
{
    let out: Vec<String> = Vec::new();
    assert(out.deep_view() =~= Seq::<Seq<char>>::empty());
    out
}

fn is_named(current: &Option<String>, name: &str) -> (r: bool)
    ensures
        r == (current.deep_view() == Some(name@)),
{
    match current {
        Some(open) => str_eq(open.as_str(), name),
        None => false,
    }
}

fn add_name(list: &mut Vec<String>, name: String)
    ensures
        final(list).deep_view() == with_name(old(list).deep_view(), name@),
{
    if !list_contains(list, name.as_str()) {
        push_text(list, name);
    }
}

/// Runs the command line `command`, whose first word in upper case is
/// `verb` and whose argument is `argument`.
pub fn run_command(app: &mut AppState, command: &str, verb: &str, argument: &str) -> (out: Vec<
    String,
>)
    ensures
        (final(app)@, out.deep_view()) == command_run(old(app)@, command@, verb@, argument@),
{
    if str_eq(verb, "QUIT") {
        app.should_quit = true;
        one_line(DISCONNECT_CMD)
    } else if str_eq(verb, "LIST") {
        one_line(LIST_DOCUMENTS_CMD)
    } else if str_eq(verb, "CREATE") && !argument.is_empty() {
        let line = format_command_with_arg(CREATE_DOCUMENT_CMD, argument);
        one_line(line.as_str())
    } else if str_eq(verb, "SWITCH") && !argument.is_empty() {
        let line = format_command_with_arg(SWITCH_DOCUMENT_CMD, argument);
        one_line(line.as_str())
    } else if str_eq(verb, "EDIT") {
        match &app.current_document_name {
            Some(name) => {
                let message = format_document_message(UPDATE_DOCUMENT_CMD, name.as_str(), argument);
                one_line(message.as_str())
            },
            None => {
                app.add_event_log(String::from_str("ERROR: No active document to edit."));
                no_lines()
            },
        }
    } else {
        app.add_event_log(framed("Unknown command or missing argument: ", command, ""));
        proof {
            reveal_strlit("");
            assert("Unknown command or missing argument: "@ + command@ + ""@
                =~= "Unknown command or missing argument: "@ + command@);
        }
        no_lines()
    }
}

fn enter_command(app: &mut AppState) -> (out: Vec<String>)
    ensures
        (final(app)@, out.deep_view()) == command_entered(old(app)@),
{
    let command = String::from_str(trim(app.command_input.as_str()));
    app.command_input = String::new();
    let mut notice = String::from_str("Sending: ");
    notice.append(command.as_str());
    app.add_event_log(notice);
    let (head, argument) = split_at_first(command.as_str(), ' ');
    let verb = to_uppercase(head);
    run_command(app, command.as_str(), verb.as_str(), argument)
}

fn choose_document(app: &mut AppState) -> (out: Vec<String>)
    ensures
        (final(app)@, out.deep_view()) == document_chosen(old(app)@),
{
    app.active_window = ActiveWindow::CommandInput;
    match app.documents_list_state.selected() {
        Some(i) => {
            if i < app.available_documents.len() {
                let name = app.available_documents[i].clone();
                let line = format_command_with_arg(SWITCH_DOCUMENT_CMD, name.as_str());
                let out = one_line(line.as_str());
                app.add_event_log(framed("Requesting to switch to '", name.as_str(), "'."));
                out
            } else {
                no_lines()
            }
        },
        None => no_lines(),
    }
}

fn remove_last(text: &mut String)
    ensures
        final(text)@ == if old(text)@.len() > 0 {
            old(text)@.drop_last()
        } else {
            old(text)@
        },
{
    let n = text.as_str().unicode_len();
    if n > 0 {
        let shorter = String::from_str(text.as_str().substring_char(0, n - 1));
        assert(shorter@ =~= text@.drop_last());
        *text = shorter;
    }
}

/// Handles a key that the user has pressed.
pub fn handle_key_event(key: Key, app: &mut AppState) -> (out: Vec<String>)
    ensures
        (final(app)@, out.deep_view()) == key_applied(old(app)@, key),
{
    match app.active_window {
        ActiveWindow::CommandInput => match key {
            Key::Enter => enter_command(app),
            Key::Char(c) => {
                app.command_input.push(c);
                no_lines()
            },
            Key::Backspace => {
                remove_last(&mut app.command_input);
                no_lines()
            },
            Key::Tab => {
                app.active_window = ActiveWindow::DocumentList;
                no_lines()
            },
            _ => no_lines(),
        },
        ActiveWindow::DocumentList => match key {
            Key::Enter => choose_document(app),
            Key::Up => {
                app.select_previous_document();
                no_lines()
            },
            Key::Down => {
                app.select_next_document();
                no_lines()
            },
            Key::Tab => {
                app.active_window = ActiveWindow::CommandInput;
                no_lines()
            },
            _ => no_lines(),
        },
    }
}

/// Handles a message of the server.
pub fn handle_server_command(server_cmd: ServerCommand, app: &mut AppState)
    ensures
        final(app)@ == server_command_applied(old(app)@, server_cmd@),
{
    match server_cmd {
        ServerCommand::UpdateDocumentList(names) => {
            app.available_documents = names;
            if app.documents_list_state.selected().is_none() && app.available_documents.len() > 0 {
                app.documents_list_state.select(Some(0));
            }
            app.add_event_log(String::from_str("Document list updated."));
        },
        ServerCommand::NewDocumentAvailable(name) => {
            let notice = framed("New document available: ", name.as_str(), "");
            proof {
                reveal_strlit("");
                assert(notice@ =~= "New document available: "@ + name@);
            }
            add_name(&mut app.available_documents, name);
            app.add_event_log(notice);
        },
        ServerCommand::UserJoined(name) => {
            let notice = framed("", name.as_str(), " joined.");
            proof {
                reveal_strlit("");
                assert(notice@ =~= name@ + " joined."@);
            }
            add_name(&mut app.active_users, name);
            app.add_event_log(notice);
        },
        ServerCommand::UserLeft(name) => {
            let notice = framed("", name.as_str(), " left.");
            proof {
                reveal_strlit("");
                assert(notice@ =~= name@ + " left."@);
            }
            let mut users: Vec<String> = Vec::new();
            core::mem::swap(&mut users, &mut app.active_users);
            app.active_users = remove_all(users, name.as_str());
            app.add_event_log(notice);
        },
        ServerCommand::ReceiveDocumentContent { name, content } => {
            let notice = framed("Loaded document '", name.as_str(), "'.");
            app.current_document_name = Some(name);
            app.current_document_content = lines(content.as_str());
            app.add_event_log(notice);
        },
        ServerCommand::UpdateDocumentContent { name, content } => {
            if is_named(&app.current_document_name, name.as_str()) {
                app.current_document_content = lines(content.as_str());
                app.add_event_log(framed("Active document '", name.as_str(), "' updated."));
            } else {
                app.add_event_log(framed("Inactive document '", name.as_str(), "' was updated."));
            }
        },
        ServerCommand::SwitchedToDocument { name } => {
            let notice = framed("Switched to document '", name.as_str(), "'.");
            app.current_document_name = Some(name);
            let empty: Vec<String> = Vec::new();
            assert(empty.deep_view() =~= Seq::<Seq<char>>::empty());
            app.current_document_content = empty;
            app.add_event_log(notice);
        },
        ServerCommand::Status(text) => {
            let notice = framed("[SERVER] ", text.as_str(), "");
            proof {
                reveal_strlit("");
                assert(notice@ =~= "[SERVER] "@ + text@);
            }
            app.add_event_log(notice);
        },
        ServerCommand::Error(text) => {
            let notice = framed("[ERROR] ", text.as_str(), "");
            proof {
                reveal_strlit("");
                assert(notice@ =~= "[ERROR] "@ + text@);
            }
            app.add_event_log(notice);
            if contains(text.as_str(), "Server connection closed") {
                app.should_quit = true;
            }
        },
    }
}

/// Handles one event of the main loop.
pub fn handle_event(event: AppEvent, app: &mut AppState) -> (out: Vec<String>)
    ensures
        (final(app)@, out.deep_view()) == event_applied(old(app)@, event@),
{
    match event {
        AppEvent::Input(key) => handle_key_event(key, app),
        AppEvent::ServerMessage(server_cmd) => {
            handle_server_command(server_cmd, app);
            no_lines()
        },
    }
}

} // verus!
