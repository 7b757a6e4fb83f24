use shared_editor::dispatch::Delivery;
use shared_editor::documents::DocumentStore;
use shared_editor::protocol::ProtocolUnit;
use shared_editor::server::{
    close_session, complete_write, handle_unit, Connection, ServerSharedState, Step,
};
use shared_editor::sessions::SessionRegistry;

fn simple(verb: &str, argument: &str) -> ProtocolUnit {
    ProtocolUnit::Simple { verb: verb.to_string(), argument: argument.to_string() }
}

fn framed(verb: &str, name: &str, body: &str) -> ProtocolUnit {
    ProtocolUnit::Framed { verb: verb.to_string(), name: name.to_string(), body: body.to_string() }
}

fn to(id: u64, text: &str) -> Delivery {
    Delivery { to: id, text: text.to_string() }
}

fn deliveries(step: Step) -> Vec<Delivery> {
    match step {
        Step::Deliver(out) => out,
        other => panic!("deliveries were expected, not {:?}", other),
    }
}

/// Serves a unit and completes a write with a durable copy.
fn serve(docs: &mut DocumentStore, clients: &mut SessionRegistry, id: u64, unit: ProtocolUnit) -> Vec<Delivery> {
    match handle_unit(docs, clients, id, &unit) {
        Step::Deliver(out) => out,
        Step::Persist(write) => complete_write(docs, clients, id, write, true),
        Step::Close => panic!("unexpected close"),
    }
}

fn server_with_alice_and_bob() -> (DocumentStore, SessionRegistry) {
    let mut docs = DocumentStore::new();
    let mut clients = SessionRegistry::new();
    clients.register(1);
    clients.register(2);
    serve(&mut docs, &mut clients, 1, simple("CONNECT", "alice"));
    serve(&mut docs, &mut clients, 2, simple("CONNECT", "bob"));
    (docs, clients)
}

#[test]
fn unidentified_client_can_only_connect_or_leave() {
    let mut docs = DocumentStore::new();
    let mut clients = SessionRegistry::new();
    clients.register(1);
    for unit in [
        simple("LIST_DOCUMENTS", ""),
        simple("CREATE_DOCUMENT", "a"),
        simple("SWITCH_DOCUMENT", "a.txt"),
        simple("GET_DOCUMENT", "a.txt"),
        framed("UPDATE_DOCUMENT", "a.txt", "x"),
        simple("NONSENSE", ""),
    ] {
        let step = handle_unit(&docs, &mut clients, 1, &unit);
        assert_eq!(deliveries(step), vec![to(1, "HATA Önce CONNECT ile bağlanın\n")]);
    }
    assert_eq!(docs.len(), 0);
    assert_eq!(clients.get(1).unwrap().username, None);
    assert_eq!(handle_unit(&mut docs, &mut clients, 1, &simple("DISCONNECT", "")), Step::Close);
    assert!(clients.contains(1));
}

#[test]
fn connect_needs_a_name_and_works_once() {
    let mut docs = DocumentStore::new();
    docs.load("a.txt".to_string(), "x".to_string());
    let mut clients = SessionRegistry::new();
    clients.register(1);
    clients.register(2);
    assert_eq!(
        serve(&mut docs, &mut clients, 1, simple("CONNECT", "")),
        vec![to(1, "HATA Kullanıcı adı sağlanmadı\n")]
    );
    assert_eq!(
        serve(&mut docs, &mut clients, 1, simple("CONNECT", "alice")),
        vec![to(1, "CONNECTED_OK\n"), to(1, "DOCUMENTS_LIST a.txt\n"), to(2, "USER_JOINED alice\n")]
    );
    assert_eq!(
        serve(&mut docs, &mut clients, 1, simple("CONNECT", "mallory")),
        vec![to(1, "HATA Kullanıcı adı zaten belirlendi\n")]
    );
    assert_eq!(clients.get(1).unwrap().username.as_deref(), Some("alice"));
}

#[test]
fn unknown_verb_gets_an_error_and_nothing_changes() {
    let (mut docs, mut clients) = server_with_alice_and_bob();
    let before = clients.snapshot();
    assert_eq!(
        serve(&mut docs, &mut clients, 1, simple("connect", "x")),
        vec![to(1, "HATA Bilinmeyen komut: connect\n")]
    );
    assert_eq!(
        serve(&mut docs, &mut clients, 1, framed("DOCUMENT_CONTENT", "a.txt", "x")),
        vec![to(1, "HATA Bilinmeyen komut: DOCUMENT_CONTENT\n")]
    );
    assert_eq!(clients.snapshot(), before);
    assert_eq!(docs.len(), 0);
}

#[test]
fn missing_arguments_are_errors() {
    let (mut docs, mut clients) = server_with_alice_and_bob();
    assert_eq!(
        serve(&mut docs, &mut clients, 1, simple("CREATE_DOCUMENT", "")),
        vec![to(1, "HATA Belge adı sağlanmadı\n")]
    );
    assert_eq!(
        serve(&mut docs, &mut clients, 1, simple("SWITCH_DOCUMENT", "")),
        vec![to(1, "HATA Geçiş yapılacak belge adı sağlanmadı\n")]
    );
    assert_eq!(
        serve(&mut docs, &mut clients, 1, simple("GET_DOCUMENT", "")),
        vec![to(1, "HATA Belge adı GET_DOCUMENT için sağlanmadı\n")]
    );
    assert_eq!(
        serve(&mut docs, &mut clients, 1, framed("UPDATE_DOCUMENT", "", "x")),
        vec![to(1, "HATA Belge adı UPDATE_DOCUMENT için sağlanmadı\n")]
    );
}

#[test]
fn second_creation_of_a_name_fails() {
    let (mut docs, mut clients) = server_with_alice_and_bob();
    assert_eq!(
        serve(&mut docs, &mut clients, 1, simple("CREATE_DOCUMENT", "notes")),
        vec![
            to(1, "DOCUMENT_CREATED_OK notes.txt\n"),
            to(1, "NEW_DOCUMENT_AVAILABLE notes.txt\n"),
            to(2, "NEW_DOCUMENT_AVAILABLE notes.txt\n"),
        ]
    );
    assert_eq!(
        serve(&mut docs, &mut clients, 2, simple("CREATE_DOCUMENT", "notes.txt")),
        vec![to(2, "DOCUMENT_CREATED_FAIL Belge zaten var.\n")]
    );
    assert_eq!(docs.list(), vec!["notes.txt"]);
}

#[test]
fn creation_that_lost_a_race_is_reported_as_existing() {
    let (mut docs, mut clients) = server_with_alice_and_bob();
    let first = match handle_unit(&docs, &mut clients, 1, &simple("CREATE_DOCUMENT", "notes")) {
        Step::Persist(write) => write,
        other => panic!("{:?}", other),
    };
    let second = match handle_unit(&docs, &mut clients, 2, &simple("CREATE_DOCUMENT", "notes")) {
        Step::Persist(write) => write,
        other => panic!("{:?}", other),
    };
    assert_eq!(complete_write(&mut docs, &clients, 1, first, true).len(), 3);
    assert_eq!(
        complete_write(&mut docs, &clients, 2, second, true),
        vec![to(2, "DOCUMENT_CREATED_FAIL Belge zaten var.\n")]
    );
}

#[test]
fn listing_is_repeatable() {
    let (mut docs, mut clients) = server_with_alice_and_bob();
    serve(&mut docs, &mut clients, 1, simple("CREATE_DOCUMENT", "b"));
    serve(&mut docs, &mut clients, 1, simple("CREATE_DOCUMENT", "a"));
    let first = serve(&mut docs, &mut clients, 2, simple("LIST_DOCUMENTS", "ignored"));
    let second = serve(&mut docs, &mut clients, 2, simple("LIST_DOCUMENTS", ""));
    assert_eq!(first, vec![to(2, "DOCUMENTS_LIST b.txt,a.txt\n")]);
    assert_eq!(first, second);
}

#[test]
fn switch_opens_the_document_and_tells_the_others() {
    let (mut docs, mut clients) = server_with_alice_and_bob();
    docs.load("a.txt".to_string(), "first\nsecond\n".to_string());
    assert_eq!(
        serve(&mut docs, &mut clients, 1, simple("SWITCH_DOCUMENT", "missing.txt")),
        vec![to(1, "HATA Belge bulunamadı: missing.txt\n")]
    );
    assert_eq!(clients.get(1).unwrap().current_document_name, None);
    assert_eq!(
        serve(&mut docs, &mut clients, 1, simple("SWITCH_DOCUMENT", "a.txt")),
        vec![
            to(1, "DOCUMENT_SWITCHED a.txt\n"),
            to(1, "DOCUMENT_CONTENT a.txt\nfirst\nsecond\nEND_OF_MESSAGE\n"),
            to(2, "USER_JOINED alice a.txt belgesine geçti.\n"),
        ]
    );
    assert_eq!(clients.get(1).unwrap().current_document_name.as_deref(), Some("a.txt"));
}

#[test]
fn get_opens_the_document_and_sends_only_the_content() {
    let (mut docs, mut clients) = server_with_alice_and_bob();
    docs.load("a.txt".to_string(), "text".to_string());
    assert_eq!(
        serve(&mut docs, &mut clients, 2, simple("GET_DOCUMENT", "a.txt")),
        vec![to(2, "DOCUMENT_CONTENT a.txt\ntext\nEND_OF_MESSAGE\n")]
    );
    assert_eq!(clients.get(2).unwrap().current_document_name.as_deref(), Some("a.txt"));
    assert_eq!(
        serve(&mut docs, &mut clients, 2, simple("GET_DOCUMENT", "b.txt")),
        vec![to(2, "HATA Belge bulunamadı: b.txt\n")]
    );
    assert_eq!(clients.get(2).unwrap().current_document_name.as_deref(), Some("a.txt"));
}

#[test]
fn update_goes_to_the_other_editors_of_the_document_only() {
    let (mut docs, mut clients) = server_with_alice_and_bob();
    clients.register(3);
    serve(&mut docs, &mut clients, 3, simple("CONNECT", "carol"));
    docs.load("a.txt".to_string(), String::new());
    docs.load("b.txt".to_string(), String::new());
    serve(&mut docs, &mut clients, 1, simple("SWITCH_DOCUMENT", "a.txt"));
    serve(&mut docs, &mut clients, 2, simple("SWITCH_DOCUMENT", "a.txt"));
    serve(&mut docs, &mut clients, 3, simple("SWITCH_DOCUMENT", "b.txt"));
    assert_eq!(
        serve(&mut docs, &mut clients, 1, framed("UPDATE_DOCUMENT", "a.txt", "new text")),
        vec![to(2, "DOCUMENT_UPDATED a.txt\nnew text\nEND_OF_MESSAGE\n")]
    );
    assert_eq!(docs.get("a.txt").unwrap().as_str(), "new text");
    assert_eq!(docs.get("b.txt").unwrap().as_str(), "");
}

#[test]
fn later_update_is_what_a_switch_observes() {
    let (mut docs, mut clients) = server_with_alice_and_bob();
    docs.load("foo".to_string(), String::new());
    serve(&mut docs, &mut clients, 1, simple("SWITCH_DOCUMENT", "foo"));
    serve(&mut docs, &mut clients, 2, simple("SWITCH_DOCUMENT", "foo"));
    serve(&mut docs, &mut clients, 1, framed("UPDATE_DOCUMENT", "foo", "X"));
    serve(&mut docs, &mut clients, 2, framed("UPDATE_DOCUMENT", "foo", "Y"));
    clients.register(3);
    serve(&mut docs, &mut clients, 3, simple("CONNECT", "carol"));
    let out = serve(&mut docs, &mut clients, 3, simple("SWITCH_DOCUMENT", "foo"));
    assert_eq!(out[1], to(3, "DOCUMENT_CONTENT foo\nY\nEND_OF_MESSAGE\n"));
}

#[test]
fn update_of_a_document_that_has_gone_is_an_error() {
    let (mut docs, mut clients) = server_with_alice_and_bob();
    clients.set_open_document(1, "ghost.txt").unwrap();
    assert_eq!(
        serve(&mut docs, &mut clients, 1, framed("UPDATE_DOCUMENT", "ghost.txt", "x")),
        vec![to(1, "HATA Güncellenecek belge sunucuda bulunamadı.\n")]
    );
    assert_eq!(docs.len(), 0);
}

#[test]
fn closing_tells_the_others_only_of_a_named_client() {
    let (_docs, mut clients) = server_with_alice_and_bob();
    clients.register(3);
    assert!(close_session(&mut clients, 3).is_empty());
    assert_eq!(close_session(&mut clients, 1), vec![to(2, "USER_LEFT alice\n")]);
    assert!(close_session(&mut clients, 1).is_empty());
    assert_eq!(clients.len(), 1);
}

#[test]
fn unit_of_a_client_that_is_not_registered_closes() {
    let mut docs = DocumentStore::new();
    let mut clients = SessionRegistry::new();
    assert_eq!(handle_unit(&mut docs, &mut clients, 5, &simple("CONNECT", "x")), Step::Close);
    assert_eq!(clients.len(), 0);
}

#[test]
fn connection_decodes_and_serves() {
    let mut state = ServerSharedState::new();
    let mut connection = state.accept(4);
    assert_eq!(connection.id(), 4);
    assert_eq!(deliveries(state.handle_line(&mut connection, "\n")), vec![]);
    assert_eq!(
        deliveries(state.handle_line(&mut connection, "  CONNECT  dave \n")),
        vec![to(4, "CONNECTED_OK\n"), to(4, "DOCUMENTS_LIST\n")]
    );
    assert_eq!(state.clients.get(4).unwrap().username.as_deref(), Some(" dave"));
    assert_eq!(state.handle_line(&mut connection, "DISCONNECT\n"), Step::Close);
    let (ended, out) = state.close(connection);
    assert_eq!(ended, Ok(()));
    assert!(out.is_empty());
    assert_eq!(state.clients.len(), 0);
}

#[test]
fn connection_opened_on_a_registry_of_its_own() {
    let docs = DocumentStore::new();
    let mut clients = SessionRegistry::new();
    let mut connection = Connection::open(&mut clients, 1);
    assert!(clients.contains(1));
    let step = connection.handle_line(&docs, &mut clients, "CONNECT a\n");
    assert_eq!(deliveries(step).len(), 2);
    let (ended, _) = connection.close(&mut clients);
    assert_eq!(ended, Ok(()));
}
