use shared_editor::dispatch::{
    broadcast_message, broadcast_message_to_all, broadcast_message_to_others,
    send_available_documents, send_full_document_content, send_message, Delivery, Selector,
};
use shared_editor::documents::DocumentStore;
use shared_editor::sessions::{ClientInfo, RegistryError, SessionRegistry};

fn client(id: u64, username: Option<&str>, open: Option<&str>) -> ClientInfo {
    ClientInfo {
        id,
        username: username.map(String::from),
        current_document_name: open.map(String::from),
    }
}

fn ids(out: &[Delivery]) -> Vec<u64> {
    out.iter().map(|d| d.to).collect()
}

fn three_clients() -> Vec<ClientInfo> {
    vec![
        client(1, Some("alice"), Some("notes.txt")),
        client(2, Some("bob"), Some("notes.txt")),
        client(3, None, None),
        client(4, Some("dan"), Some("other.txt")),
    ]
}

#[test]
fn registered_client_has_no_name_and_no_document() {
    let mut registry = SessionRegistry::new();
    assert_eq!(registry.len(), 0);
    registry.register(7);
    assert!(registry.contains(7));
    assert!(!registry.contains(8));
    assert_eq!(registry.get(7), Some(&client(7, None, None)));
    assert_eq!(registry.get(8), None);
    assert_eq!(ClientInfo::new(7), client(7, None, None));
}

#[test]
fn registering_again_starts_the_session_afresh() {
    let mut registry = SessionRegistry::new();
    registry.register(1);
    registry.register(2);
    registry.set_identity(1, "alice").unwrap();
    registry.register(1);
    assert_eq!(registry.snapshot(), vec![client(1, None, None), client(2, None, None)]);
}

#[test]
fn first_identity_wins() {
    let mut registry = SessionRegistry::new();
    registry.register(1);
    assert_eq!(registry.set_identity(1, "alice"), Ok(()));
    assert_eq!(registry.set_identity(1, "mallory"), Err(RegistryError::AlreadySet));
    assert_eq!(registry.set_identity(2, "bob"), Err(RegistryError::UnknownSession));
    assert_eq!(registry.get(1), Some(&client(1, Some("alice"), None)));
    assert_eq!(registry.len(), 1);
}

#[test]
fn open_document_is_overwritten_without_checks() {
    let mut registry = SessionRegistry::new();
    registry.register(1);
    registry.set_identity(1, "alice").unwrap();
    assert_eq!(registry.set_open_document(1, "a.txt"), Ok(()));
    assert_eq!(registry.set_open_document(1, "no such document"), Ok(()));
    assert_eq!(registry.set_open_document(9, "a.txt"), Err(RegistryError::UnknownSession));
    assert_eq!(registry.get(1), Some(&client(1, Some("alice"), Some("no such document"))));
    assert!(registry.get(1).unwrap().has_open("no such document"));
    assert!(!registry.get(1).unwrap().has_open("a.txt"));
}

#[test]
fn unregister_hands_the_record_out() {
    let mut registry = SessionRegistry::new();
    registry.register(1);
    registry.register(2);
    registry.register(3);
    registry.set_identity(2, "bob").unwrap();
    assert_eq!(registry.unregister(2), Some(client(2, Some("bob"), None)));
    assert_eq!(registry.unregister(2), None);
    assert_eq!(registry.snapshot(), vec![client(1, None, None), client(3, None, None)]);
}

#[test]
fn snapshot_is_a_copy() {
    let mut registry = SessionRegistry::new();
    registry.register(1);
    let before = registry.snapshot();
    registry.set_identity(1, "alice").unwrap();
    assert_eq!(before, vec![client(1, None, None)]);
    assert_eq!(registry.snapshot(), vec![client(1, Some("alice"), None)]);
    assert_eq!(before[0].copy(), before[0]);
}

#[test]
fn selectors_pick_their_clients() {
    let alice = client(1, Some("alice"), Some("notes.txt"));
    let idle = client(3, None, None);
    assert!(Selector::All.picks(&alice));
    assert!(Selector::All.picks(&idle));
    assert!(!Selector::AllExcept(1).picks(&alice));
    assert!(Selector::AllExcept(1).picks(&idle));
    assert!(Selector::OnDocument("notes.txt".to_string()).picks(&alice));
    assert!(!Selector::OnDocument("notes.txt".to_string()).picks(&idle));
    assert!(!Selector::OnDocument("other.txt".to_string()).picks(&alice));
    assert!(!Selector::OnDocumentExcept("notes.txt".to_string(), 1).picks(&alice));
    assert!(Selector::OnDocumentExcept("notes.txt".to_string(), 2).picks(&alice));
}

#[test]
fn send_message_adds_the_line_feed() {
    let mut out = Vec::new();
    send_message(&mut out, 5, "CONNECTED_OK");
    send_message(&mut out, 6, "");
    assert_eq!(
        out,
        vec![
            Delivery { to: 5, text: "CONNECTED_OK\n".to_string() },
            Delivery { to: 6, text: "\n".to_string() }
        ]
    );
}

#[test]
fn broadcast_goes_to_the_selected_clients_in_order() {
    let clients = three_clients();
    let mut out = Vec::new();
    send_message(&mut out, 9, "first");
    broadcast_message(&mut out, &clients, &Selector::OnDocumentExcept("notes.txt".to_string(), 1), "m");
    assert_eq!(ids(&out), vec![9, 2]);
    assert_eq!(out[1].text, "m\n");
    let mut out = Vec::new();
    broadcast_message(&mut out, &clients, &Selector::OnDocument("notes.txt".to_string()), "m");
    assert_eq!(ids(&out), vec![1, 2]);
    let mut out = Vec::new();
    broadcast_message_to_all(&mut out, &clients, "USER_LEFT x");
    assert_eq!(ids(&out), vec![1, 2, 3, 4]);
    assert!(out.iter().all(|d| d.text == "USER_LEFT x\n"));
    let mut out = Vec::new();
    broadcast_message_to_others(&mut out, &clients, 3, "USER_JOINED y");
    assert_eq!(ids(&out), vec![1, 2, 4]);
    let mut out = Vec::new();
    broadcast_message_to_all(&mut out, &Vec::new(), "nobody");
    assert!(out.is_empty());
}

#[test]
fn documents_are_listed_with_commas() {
    let mut docs = DocumentStore::new();
    let mut out = Vec::new();
    send_available_documents(&mut out, 1, &docs);
    docs.load("a.txt".to_string(), String::new());
    send_available_documents(&mut out, 1, &docs);
    docs.load("b.txt".to_string(), String::new());
    send_available_documents(&mut out, 2, &docs);
    assert_eq!(
        out,
        vec![
            Delivery { to: 1, text: "DOCUMENTS_LIST\n".to_string() },
            Delivery { to: 1, text: "DOCUMENTS_LIST a.txt\n".to_string() },
            Delivery { to: 2, text: "DOCUMENTS_LIST a.txt,b.txt\n".to_string() },
        ]
    );
}

#[test]
fn document_content_is_sent_framed() {
    let mut out = Vec::new();
    send_full_document_content(&mut out, 3, "a.txt", "one\ntwo\n");
    assert_eq!(
        out,
        vec![Delivery { to: 3, text: "DOCUMENT_CONTENT a.txt\none\ntwo\nEND_OF_MESSAGE\n".to_string() }]
    );
}
