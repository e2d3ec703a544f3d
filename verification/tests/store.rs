use platinum_shell::app_store::{
    contact, message, migration_for, migration_steps, ContactRecord, LauncherStore, MessageThread,
    Migration, ThreadKind, SCHEMA_VERSION,
};

fn names(contacts: &[ContactRecord]) -> Vec<&str> {
    contacts.iter().map(|c| c.name.as_str()).collect()
}

fn titles(threads: &[MessageThread]) -> Vec<&str> {
    threads.iter().map(|t| t.title.as_str()).collect()
}

#[test]
fn seeded_store() {
    let store = LauncherStore::seeded(true, 10_000);
    assert_eq!(
        names(store.contacts()),
        vec!["Operator Desk", "Base Station", "Field Team", "Emergency Link"]
    );
    assert_eq!(store.contacts()[3].phone, "112");
    assert_eq!(store.contacts()[0].created_at, 9_760);
    assert_eq!(store.contacts()[0].last_called_at, 0);
    assert_eq!(store.contacts()[0].last_message_at, 9_760);
    assert_eq!(titles(store.threads()), vec!["Field Team", "Contacts Queue", "Relay Bridge"]);
    assert_eq!(store.threads()[2].status, "Linked");
    assert_eq!(store.threads()[2].kind, ThreadKind::Relay);
    assert_eq!(store.threads()[2].messages[1].body, "Transport available. Ready for outbound sync.");
    let offline = LauncherStore::seeded(false, 10_000);
    assert_eq!(offline.threads()[2].status, "Standby");
    assert_eq!(offline.threads()[2].messages[1].body, "Transport unavailable. Waiting for network.");
}

#[test]
fn load_or_init_keeps_a_loaded_store() {
    let loaded = LauncherStore::from_records(vec![contact("Ann", "1", "x", 5)], Vec::new());
    let store = LauncherStore::load_or_init(Some(loaded), true, 10_000);
    assert_eq!(names(store.contacts()), vec!["Ann"]);
    assert!(store.threads().is_empty());
    let fresh = LauncherStore::load_or_init(None, false, 10_000);
    assert_eq!(fresh.contacts().len(), 4);
    assert_eq!(fresh.threads().len(), 3);
}

#[test]
fn contacts_snapshot_is_alphabetical() {
    let store = LauncherStore::seeded(true, 10_000);
    assert_eq!(
        names(&store.contacts_snapshot()),
        vec!["Base Station", "Emergency Link", "Field Team", "Operator Desk"]
    );
}

#[test]
fn recents_put_the_latest_call_first() {
    let mut store = LauncherStore::seeded(true, 10_000);
    assert_eq!(
        names(&store.recents_snapshot()),
        vec!["Emergency Link", "Field Team", "Base Station", "Operator Desk"]
    );
    assert!(store.mark_called("+7 912 440 12 01", 20_000));
    let recents = store.recents_snapshot();
    assert_eq!(recents[0].name, "Base Station");
    assert_eq!(recents[0].note, "Called now");
    assert_eq!(recents[0].last_called_at, 20_000);
    assert_eq!(recents[0].updated_at, 20_000);
}

#[test]
fn recents_break_ties_by_name() {
    let store = LauncherStore::from_records(
        vec![contact("Zed", "1", "", 5), contact("Amy", "2", "", 5)],
        Vec::new(),
    );
    assert_eq!(names(&store.recents_snapshot()), vec!["Amy", "Zed"]);
}

#[test]
fn calling_an_unknown_number_changes_nothing() {
    let mut store = LauncherStore::seeded(true, 10_000);
    let before = store.clone();
    assert!(!store.mark_called("555", 20_000));
    assert_eq!(store.contacts(), before.contacts());
    assert_eq!(store.threads(), before.threads());
}

#[test]
fn mark_called_stamps_the_time() {
    let mut store = LauncherStore::seeded(true, 10_000);
    assert!(store.mark_called("112", 1_700_000_000));
    let called = &store.contacts()[3];
    assert_eq!(called.last_called_at, 1_700_000_000);
    assert_eq!(called.updated_at, called.last_called_at);
}

#[test]
fn threads_snapshot_puts_the_latest_first() {
    let mut store = LauncherStore::seeded(true, 10_000);
    assert_eq!(
        titles(&store.threads_snapshot()),
        vec!["Relay Bridge", "Contacts Queue", "Field Team"]
    );
    assert!(store.append_outgoing_message(0, "On my way", 20_000));
    let threads = store.threads_snapshot();
    assert_eq!(threads[0].title, "Field Team");
    assert_eq!(threads[0].preview, "On my way");
    assert_eq!(threads[0].status, "Updated");
    assert_eq!(threads[0].messages.last().unwrap().body, "On my way");
}

#[test]
fn threads_snapshot_sorts_messages_oldest_first() {
    let thread = MessageThread {
        title: String::from("T"),
        status: String::new(),
        preview: String::new(),
        messages: vec![message("a", "late", false, 30), message("b", "early", false, 10), message("c", "tie", true, 30)],
        created_at: 1,
        last_message_at: 30,
        kind: ThreadKind::Group,
        updated_at: 30,
    };
    let store = LauncherStore::from_records(Vec::new(), vec![thread]);
    let snapshot = store.threads_snapshot();
    let bodies: Vec<&str> = snapshot[0].messages.iter().map(|m| m.body.as_str()).collect();
    assert_eq!(bodies, vec!["early", "late", "tie"]);
}

#[test]
fn direct_thread_with_a_new_contact() {
    let mut store = LauncherStore::seeded(true, 10_000);
    let ann = contact("Base Station", "+7 912 440 12 01", "Direct", 0);
    let other = contact("Nova", "+1 555 0100", "Direct", 0);
    let index = store.ensure_direct_thread(&other, 20_000);
    assert_eq!(index, 3);
    let thread = &store.threads()[3];
    assert_eq!(thread.title, "Nova");
    assert_eq!(thread.kind, ThreadKind::Direct);
    assert_eq!(thread.preview, "Conversation with Nova");
    assert_eq!(thread.messages[0].body, "Direct line ready at +1 555 0100.");
    assert_eq!(thread.messages[1].author, "You");
    assert_eq!(thread.messages[1].created_at, 20_001);
    assert_eq!(thread.last_message_at, 20_001);
    let again = store.ensure_direct_thread(&other, 30_000);
    assert_eq!(again, 3);
    assert_eq!(store.threads().len(), 4);
    assert_eq!(store.threads()[3].updated_at, 30_000);
    let with_known = store.ensure_direct_thread(&ann, 40_000);
    assert_eq!(with_known, 4);
    assert_eq!(store.contacts()[1].last_message_at, 40_001);
}

#[test]
fn direct_thread_reuses_a_titled_thread() {
    let mut store = LauncherStore::seeded(true, 10_000);
    let team = contact("Field Team", "+7 912 440 53 20", "Direct", 0);
    let index = store.ensure_direct_thread(&team, 20_000);
    assert_eq!(index, 0);
    assert_eq!(store.threads().len(), 3);
    assert_eq!(store.threads()[0].kind, ThreadKind::Direct);
    assert_eq!(store.threads()[0].updated_at, 20_000);
    assert_eq!(store.threads()[0].messages.len(), 3);
    assert!(store.ensure_direct_thread(&team, 50_000) == 0);
}

#[test]
fn outgoing_messages_touch_the_direct_contact() {
    let mut store = LauncherStore::seeded(true, 10_000);
    let team = contact("Field Team", "+7 912 440 53 20", "Direct", 0);
    store.ensure_direct_thread(&team, 20_000);
    assert!(store.append_outgoing_message(0, "Copy that", 30_000));
    assert_eq!(store.contacts()[2].last_message_at, 30_000);
    assert_eq!(store.contacts()[2].updated_at, 30_000);
    assert!(store.append_outgoing_message(2, "Relay ping", 31_000));
    assert_eq!(store.contacts()[2].last_message_at, 30_000);
    assert!(!store.append_outgoing_message(9, "Lost", 32_000));
    assert!(store.append_outgoing_message(1, "Now", 33_000));
    assert_eq!(store.threads()[1].last_message_at, 33_000);
}

#[test]
fn thread_kinds_round_trip_through_the_database() {
    for kind in [ThreadKind::Direct, ThreadKind::Group, ThreadKind::Relay, ThreadKind::System] {
        assert_eq!(ThreadKind::from_db_value(kind.as_db_value()), kind);
    }
    assert_eq!(ThreadKind::Direct.as_db_value(), "direct");
    assert_eq!(ThreadKind::from_db_value("channel"), ThreadKind::System);
    assert_eq!(ThreadKind::from_db_value("Direct"), ThreadKind::System);
}

#[test]
fn schema_migrations() {
    assert_eq!(SCHEMA_VERSION, 3);
    assert_eq!(migration_steps(0), Some(vec![1, 2, 3]));
    assert_eq!(migration_steps(2), Some(vec![3]));
    assert_eq!(migration_steps(3), Some(vec![]));
    assert_eq!(migration_steps(4), None);
    assert_eq!(migration_steps(-1), Some(vec![0, 1, 2, 3]));
    assert_eq!(migration_for(1), Some(Migration::CreateTables));
    assert_eq!(migration_for(2), Some(Migration::AddTimestamps));
    assert_eq!(migration_for(3), Some(Migration::AddActivity));
    assert_eq!(migration_for(0), None);
    assert_eq!(migration_for(4), None);
}

#[test]
fn a_call_puts_the_callee_first_in_recents() {
    let mut store = LauncherStore::seeded(true, 10_000);
    assert!(store.mark_called("+7 912 440 77 90", 20_000));
    let recents = store.recents_snapshot();
    assert_eq!(recents[0].phone, "+7 912 440 77 90");
    assert_eq!(recents[0].note, "Called now");
    assert_eq!(recents[0].last_called_at, 20_000);
}

#[test]
fn a_message_puts_its_thread_first_with_the_message_last() {
    let mut store = LauncherStore::seeded(true, 10_000);
    assert!(store.append_outgoing_message(1, "Reviewed", 20_000));
    let threads = store.threads_snapshot();
    assert_eq!(threads[0].title, "Contacts Queue");
    assert_eq!(threads[0].preview, "Reviewed");
    assert_eq!(threads[0].status, "Updated");
    let last = threads[0].messages.last().unwrap();
    assert_eq!((last.author.as_str(), last.body.as_str(), last.outgoing, last.created_at), ("You", "Reviewed", true, 20_000));
}

#[test]
fn thread_order_and_rows() {
    let store = LauncherStore::seeded(true, 10_000);
    assert_eq!(store.thread_order(), vec![2, 1, 0]);
    assert_eq!(store.listed_position(0), 2);
    assert_eq!(store.listed_position(2), 0);
}
