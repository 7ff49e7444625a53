use host_agent::ledger::{Ledger, LedgerError, LedgerStore, Section};

const ID: &str = "67e55044-10b1-426f-9247-bb680e5fe0c8";

fn created() -> LedgerStore {
    let mut store = LedgerStore { record: None };
    store.create_with_id(ID.to_string()).unwrap();
    store
}

fn is_uuid_text(s: &str) -> bool {
    let b = s.as_bytes();
    b.len() == 36
        && b.iter().enumerate().all(|(i, c)| {
            if i == 8 || i == 13 || i == 18 || i == 23 {
                *c == b'-'
            } else {
                c.is_ascii_digit() || (b'a'..=b'f').contains(c)
            }
        })
}

#[test]
fn created_record_has_four_sections() {
    let store = created();
    assert_eq!(
        store.record.as_deref(),
        Some(
            "-----BEGIN UUID-----\n67e55044-10b1-426f-9247-bb680e5fe0c8\n-----END UUID-----\n\
-----BEGIN SERVICES TO VERIFY-----\n\n-----END SERVICES TO VERIFY-----\n\
-----BEGIN TASKS TO VERIFY-----\n\n-----END TASKS TO VERIFY-----"
        )
    );
    assert_eq!(store.read_services().unwrap(), Vec::<String>::new());
    assert_eq!(store.read_tasks().unwrap(), Vec::<String>::new());
}

#[test]
fn write_then_read_keeps_order() {
    let mut store = created();
    store.add_service("s1").unwrap();
    store.add_service("s2").unwrap();
    store.add_task("t1").unwrap();
    assert_eq!(store.read_services().unwrap(), vec!["s1".to_string(), "s2".to_string()]);
    assert_eq!(store.read_tasks().unwrap(), vec!["t1".to_string()]);
    assert_eq!(
        store.record.as_deref(),
        Some(
            "-----BEGIN UUID-----\n67e55044-10b1-426f-9247-bb680e5fe0c8\n-----END UUID-----\n\
-----BEGIN SERVICES TO VERIFY-----\ns1\ns2\n-----END SERVICES TO VERIFY-----\n\
-----BEGIN TASKS TO VERIFY-----\nt1\n-----END TASKS TO VERIFY-----"
        )
    );
}

#[test]
fn ledger_render_parse_round_trip() {
    let ledger = Ledger {
        agent_id: ID.to_string(),
        services: vec!["s1".to_string(), "s2".to_string()],
        tasks: vec!["t1".to_string()],
    };
    let back = Ledger::parse(&ledger.render()).unwrap();
    assert_eq!(back.agent_id, ID);
    assert_eq!(back.services, vec!["s1".to_string(), "s2".to_string()]);
    assert_eq!(back.tasks, vec!["t1".to_string()]);
}

#[test]
fn add_service_twice_is_idempotent() {
    let mut store = created();
    store.add_service("nginx").unwrap();
    let once = store.record.clone();
    store.add_service("nginx").unwrap();
    assert_eq!(store.record, once);
    assert_eq!(store.read_services().unwrap(), vec!["nginx".to_string()]);
}

#[test]
fn add_then_remove_restores_record() {
    let mut store = created();
    store.add_service("a").unwrap();
    store.add_task("backup").unwrap();
    let before = store.record.clone();
    store.add_service("b").unwrap();
    store.remove_service("b").unwrap();
    assert_eq!(store.record, before);
    store.add_task("cleanup").unwrap();
    store.remove_task("cleanup").unwrap();
    assert_eq!(store.record, before);
}

#[test]
fn remove_is_exact_match() {
    let mut store = created();
    store.add_service("ssh").unwrap();
    store.add_service("sshd").unwrap();
    store.remove_service("ssh").unwrap();
    assert_eq!(store.read_services().unwrap(), vec!["sshd".to_string()]);
    store.remove_service("absent").unwrap();
    assert_eq!(store.read_services().unwrap(), vec!["sshd".to_string()]);
}

#[test]
fn add_uses_exact_match() {
    let mut store = created();
    store.add_task("backup-db").unwrap();
    store.add_task("backup").unwrap();
    assert_eq!(store.read_tasks().unwrap(), vec!["backup-db".to_string(), "backup".to_string()]);
}

#[test]
fn create_then_read_agent_id() {
    let mut store = LedgerStore { record: None };
    store.create().unwrap();
    let id = store.read_agent_id().unwrap();
    assert!(is_uuid_text(&id), "{id}");
    assert_eq!(&id[14..15], "4");
    assert!(["8", "9", "a", "b"].contains(&&id[19..20]), "{id}");
    let record = store.record.clone();
    assert_eq!(store.create(), Err(LedgerError::AlreadyExists));
    assert_eq!(store.record, record);
    assert_eq!(store.read_agent_id().unwrap(), id);
}

#[test]
fn two_creations_draw_different_ids() {
    let mut a = LedgerStore { record: None };
    let mut b = LedgerStore { record: None };
    a.create().unwrap();
    b.create().unwrap();
    assert_ne!(a.read_agent_id().unwrap(), b.read_agent_id().unwrap());
}

#[test]
fn read_agent_id_gives_canonical_text() {
    let text = "-----BEGIN UUID-----\n67E55044-10B1-426F-9247-BB680E5FE0C8\n-----END UUID-----\n\
-----BEGIN SERVICES TO VERIFY-----\n\n-----END SERVICES TO VERIFY-----\n\
-----BEGIN TASKS TO VERIFY-----\n\n-----END TASKS TO VERIFY-----";
    let store = LedgerStore { record: Some(text.to_string()) };
    assert_eq!(store.read_agent_id().unwrap(), ID);
}

#[test]
fn read_agent_id_rejects_non_uuid() {
    let text = "-----BEGIN UUID-----\nnot-a-uuid\n-----END UUID-----\n\
-----BEGIN SERVICES TO VERIFY-----\n\n-----END SERVICES TO VERIFY-----\n\
-----BEGIN TASKS TO VERIFY-----\n\n-----END TASKS TO VERIFY-----";
    let store = LedgerStore { record: Some(text.to_string()) };
    assert_eq!(store.read_agent_id(), Err(LedgerError::Malformed));
}

#[test]
fn blank_entries_are_not_items() {
    let text = "-----BEGIN UUID-----\n67e55044-10b1-426f-9247-bb680e5fe0c8\n-----END UUID-----\n\
-----BEGIN SERVICES TO VERIFY-----\n\ns1\n\ns2\n-----END SERVICES TO VERIFY-----\n\
-----BEGIN TASKS TO VERIFY-----\n\nt1\n-----END TASKS TO VERIFY-----";
    let mut store = LedgerStore { record: Some(text.to_string()) };
    assert_eq!(store.read_services().unwrap(), vec!["s1".to_string(), "s2".to_string()]);
    assert_eq!(store.read_tasks().unwrap(), vec!["t1".to_string()]);
    store.compact().unwrap();
    assert_eq!(
        store.record.as_deref(),
        Some(
            "-----BEGIN UUID-----\n67e55044-10b1-426f-9247-bb680e5fe0c8\n-----END UUID-----\n\
-----BEGIN SERVICES TO VERIFY-----\ns1\ns2\n-----END SERVICES TO VERIFY-----\n\
-----BEGIN TASKS TO VERIFY-----\nt1\n-----END TASKS TO VERIFY-----"
        )
    );
}

#[test]
fn missing_record_is_not_found() {
    let mut store = LedgerStore { record: None };
    assert!(!store.has_record());
    assert_eq!(store.read_agent_id(), Err(LedgerError::NotFound));
    assert_eq!(store.read_services(), Err(LedgerError::NotFound));
    assert_eq!(store.read_tasks(), Err(LedgerError::NotFound));
    assert_eq!(store.add_service("x"), Err(LedgerError::NotFound));
    assert_eq!(store.remove_task("x"), Err(LedgerError::NotFound));
    assert_eq!(store.compact(), Err(LedgerError::NotFound));
    assert_eq!(store.record, None);
}

#[test]
fn malformed_record_is_reported() {
    let mut store = LedgerStore { record: Some("-----BEGIN UUID-----\nabc\n".to_string()) };
    assert!(store.has_record());
    assert_eq!(store.read_services(), Err(LedgerError::Malformed));
    assert_eq!(store.add_task("x"), Err(LedgerError::Malformed));
    assert_eq!(store.record.as_deref(), Some("-----BEGIN UUID-----\nabc\n"));
    let no_tasks = "-----BEGIN UUID-----\nabc\n-----END UUID-----\n\
-----BEGIN SERVICES TO VERIFY-----\n\n-----END SERVICES TO VERIFY-----\nx\ny\nz";
    let store = LedgerStore { record: Some(no_tasks.to_string()) };
    assert_eq!(store.read_tasks(), Err(LedgerError::Malformed));
}

#[test]
fn invalid_names_are_refused() {
    let mut store = created();
    let before = store.record.clone();
    assert_eq!(store.add_service(""), Err(LedgerError::InvalidEntry));
    assert_eq!(store.add_service("a\nb"), Err(LedgerError::InvalidEntry));
    assert_eq!(
        store.add_task("-----END TASKS TO VERIFY-----"),
        Err(LedgerError::InvalidEntry)
    );
    assert_eq!(store.record, before);
    assert_eq!(store.remove_service(""), Ok(()));
    assert_eq!(store.remove_task("a\nb"), Ok(()));
    assert_eq!(store.remove_task("-----END TASKS TO VERIFY-----"), Ok(()));
    assert_eq!(store.record, before);
}

#[test]
fn ledger_entries_by_section() {
    let mut ledger = Ledger::new(ID.to_string());
    ledger.add_entry(Section::Tasks, "t");
    ledger.add_entry(Section::Services, "s");
    ledger.add_entry(Section::Services, "s");
    assert_eq!(ledger.entries(Section::Services), vec!["s".to_string()]);
    ledger.remove_entry(Section::Services, "s");
    assert!(ledger.entries(Section::Services).is_empty());
    assert_eq!(ledger.entries(Section::Tasks), vec!["t".to_string()]);
}

fn record_with_id(id: &str) -> LedgerStore {
    LedgerStore {
        record: Some(format!(
            "-----BEGIN UUID-----\n{id}\n-----END UUID-----\n\
-----BEGIN SERVICES TO VERIFY-----\n\n-----END SERVICES TO VERIFY-----\n\
-----BEGIN TASKS TO VERIFY-----\n\n-----END TASKS TO VERIFY-----"
        )),
    }
}

#[test]
fn read_agent_id_accepts_every_uuid_form() {
    for form in [
        "67e5504410b1426f9247bb680e5fe0c8",
        "{67e55044-10b1-426f-9247-bb680e5fe0c8}",
        "urn:uuid:67e55044-10b1-426f-9247-bb680e5fe0c8",
        "URN:UUID:67E55044-10B1-426F-9247-BB680E5FE0C8",
    ] {
        assert_eq!(record_with_id(form).read_agent_id().unwrap(), ID, "{form}");
    }
}

#[test]
fn read_agent_id_rejects_near_uuids() {
    for form in [
        "",
        "67e55044-10b1-426f-9247-bb680e5fe0c",
        "67e55044-10b1-426f-9247-bb680e5fe0cg",
        "67e55044_10b1-426f-9247-bb680e5fe0c8",
        "(67e55044-10b1-426f-9247-bb680e5fe0c8)",
        "urn:uid:-67e55044-10b1-426f-9247-bb680e5fe0c8",
    ] {
        assert_eq!(record_with_id(form).read_agent_id(), Err(LedgerError::Malformed), "{form}");
    }
}

#[test]
fn add_laws_hold_on_hand_edited_record() {
    let text = "-----BEGIN UUID-----\nabc\n-----END UUID-----\n\
-----BEGIN SERVICES TO VERIFY-----\n-----BEGIN UUID-----\n\nweb\n-----END SERVICES TO VERIFY-----\n\
-----BEGIN TASKS TO VERIFY-----\n-----END SERVICES TO VERIFY-----\n-----END TASKS TO VERIFY-----";
    let mut store = LedgerStore { record: Some(text.to_string()) };
    let mut compacted = LedgerStore { record: Some(text.to_string()) };
    compacted.compact().unwrap();
    store.add_service("db").unwrap();
    let once = store.record.clone();
    store.add_service("db").unwrap();
    assert_eq!(store.record, once);
    store.remove_service("db").unwrap();
    assert_eq!(store.record, compacted.record);
    assert_eq!(
        store.read_services().unwrap(),
        vec!["-----BEGIN UUID-----".to_string(), "web".to_string()]
    );
    assert_eq!(store.read_tasks().unwrap(), vec!["-----END SERVICES TO VERIFY-----".to_string()]);
    store.remove_task("-----END SERVICES TO VERIFY-----").unwrap();
    assert!(store.read_tasks().unwrap().is_empty());
    store.remove_service("-----BEGIN UUID-----").unwrap();
    assert_eq!(store.read_services().unwrap(), vec!["web".to_string()]);
}
