use ticket_store::actor::{handle_command, Command, Reply};
use ticket_store::data::{Status, Ticket, TicketDescription, TicketDraft, TicketId, TicketPatch, TicketTitle};
use ticket_store::store::TicketStore;

fn draft(title: &str, description: &str) -> TicketDraft {
    TicketDraft::new(title.to_string(), Some(description.to_string()))
}

#[test]
fn draft_without_description_gets_default() {
    let d = TicketDraft::new("First Ticket".to_string(), None);
    assert_eq!(d.title, TicketTitle("First Ticket".to_string()));
    assert_eq!(d.description, TicketDescription("Default description".to_string()));
    let d = draft("A", "B");
    assert_eq!(d.description, TicketDescription("B".to_string()));
}

#[test]
fn creates_hand_out_consecutive_ids() {
    let mut store = TicketStore::new();
    for i in 0..5u64 {
        let id = store.add_ticket(TicketDraft::new(format!("Ticket {}", i), None));
        assert_eq!(id, TicketId(i));
    }
    assert_eq!(store.len(), 5);
    assert!(store.can_create());
}

#[test]
fn get_after_create_returns_draft_with_todo() {
    let mut store = TicketStore::new();
    let id = store.add_ticket(draft("Buy milk", "2%"));
    assert_eq!(id, TicketId(0));
    let t = store.get(id).unwrap();
    assert_eq!(
        t,
        Ticket {
            id: TicketId(0),
            title: TicketTitle("Buy milk".to_string()),
            description: TicketDescription("2%".to_string()),
            status: Status::ToDo,
        }
    );
}

#[test]
fn get_unknown_id_is_absent() {
    let mut store = TicketStore::new();
    assert_eq!(store.get(TicketId(0)), None);
    store.add_ticket(draft("a", "b"));
    assert_eq!(store.get(TicketId(1)), None);
    assert_eq!(store.get(TicketId(999)), None);
}

#[test]
fn patch_changes_only_present_fields() {
    let mut store = TicketStore::new();
    store.add_ticket(draft("Buy milk", "2%"));
    store.add_ticket(draft("Other", "untouched"));
    let found = store.update(TicketPatch {
        id: TicketId(0),
        title: None,
        description: None,
        status: Some(Status::Done),
    });
    assert!(found);
    let t = store.get(TicketId(0)).unwrap();
    assert_eq!(t.title, TicketTitle("Buy milk".to_string()));
    assert_eq!(t.description, TicketDescription("2%".to_string()));
    assert_eq!(t.status, Status::Done);
    let found = store.update(TicketPatch {
        id: TicketId(0),
        title: Some(TicketTitle("Updated Title".to_string())),
        description: None,
        status: None,
    });
    assert!(found);
    let t = store.get(TicketId(0)).unwrap();
    assert_eq!(t.title, TicketTitle("Updated Title".to_string()));
    assert_eq!(t.description, TicketDescription("2%".to_string()));
    assert_eq!(t.status, Status::Done);
    let other = store.get(TicketId(1)).unwrap();
    assert_eq!(other.title, TicketTitle("Other".to_string()));
    assert_eq!(other.status, Status::ToDo);
}

#[test]
fn patch_of_unknown_record_changes_nothing() {
    let mut store = TicketStore::new();
    store.add_ticket(draft("a", "b"));
    let found = store.update(TicketPatch {
        id: TicketId(7),
        title: Some(TicketTitle("x".to_string())),
        description: None,
        status: None,
    });
    assert!(!found);
    assert_eq!(store.len(), 1);
    assert_eq!(store.get(TicketId(0)).unwrap().title, TicketTitle("a".to_string()));
}

#[test]
fn apply_patch_merges_fields() {
    let mut t = Ticket {
        id: TicketId(3),
        title: TicketTitle("t".to_string()),
        description: TicketDescription("d".to_string()),
        status: Status::ToDo,
    };
    t.apply_patch(TicketPatch {
        id: TicketId(9),
        title: None,
        description: Some(TicketDescription("new".to_string())),
        status: Some(Status::InProgress),
    });
    assert_eq!(t.id, TicketId(3));
    assert_eq!(t.title, TicketTitle("t".to_string()));
    assert_eq!(t.description, TicketDescription("new".to_string()));
    assert_eq!(t.status, Status::InProgress);
    assert_eq!(t.snapshot(), t);
}

#[test]
fn worker_handles_insert_then_get() {
    let mut store = TicketStore::new();
    let reply = handle_command(&mut store, Command::Insert { draft: draft("Buy milk", "2%") });
    assert!(matches!(reply, Reply::Inserted(TicketId(0))));
    let reply = handle_command(&mut store, Command::Insert { draft: draft("Second", "x") });
    assert!(matches!(reply, Reply::Inserted(TicketId(1))));
    match handle_command(&mut store, Command::Get { id: TicketId(0) }) {
        Reply::Found(Some(t)) => {
            assert_eq!(t.title, TicketTitle("Buy milk".to_string()));
            assert_eq!(t.status, Status::ToDo);
        }
        _ => panic!("expected the record"),
    }
    assert!(matches!(
        handle_command(&mut store, Command::Get { id: TicketId(5) }),
        Reply::Found(None)
    ));
    assert_eq!(store.len(), 2);
}

#[test]
fn ticket_id_reads_unsigned_text() {
    assert_eq!(TicketId::parse("0"), Some(TicketId(0)));
    assert_eq!(TicketId::parse("+17"), Some(TicketId(17)));
    assert_eq!(TicketId::parse("18446744073709551615"), Some(TicketId(u64::MAX)));
    assert_eq!(TicketId::parse("18446744073709551616"), None);
    assert_eq!(TicketId::parse("-1"), None);
    assert_eq!(TicketId::parse("1x"), None);
    assert_eq!(TicketId::parse(""), None);
    assert_eq!("42".parse::<TicketId>(), Ok(TicketId(42)));
    assert!("abc".parse::<TicketId>().is_err());
}
