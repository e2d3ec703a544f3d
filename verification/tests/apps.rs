use platinum_shell::app_sdk::{
    AppLaunchPayload, AppLaunchRequest, AppNavigator, AppPermission, ContactPayload,
};
use platinum_shell::app_store::{contact, LauncherStore};
use platinum_shell::apps::{
    builtin_manifest, builtin_manifests, contact_launch_request, AiApp, AppsCatalogApp,
    CalendarApp, CallApp, ClockApp, ContactsApp, MessageApp, PlatinumOneApp, RelayApp,
    SettingsApp,
};
use platinum_shell::conversation::Conversation;
use platinum_shell::device::load_device_snapshot;
use platinum_shell::dialer::Dialer;
use platinum_shell::shell_state::load_shell_state;
use std::cell::RefCell;
use std::rc::Rc;

fn field_team() -> Option<AppLaunchPayload> {
    Some(AppLaunchPayload::Contact(ContactPayload {
        name: String::from("Field Team"),
        phone: String::from("+7 912 440 53 20"),
    }))
}

#[test]
fn builtin_apps_in_registry_order() {
    let ids: Vec<&str> = builtin_manifests().iter().map(|m| m.id).collect();
    assert_eq!(
        ids,
        vec!["calendar", "clock", "contacts", "apps", "ai", "call", "message", "settings", "relay", "platinum_one"]
    );
    assert_eq!(builtin_manifest("call").unwrap().title, "Call");
    assert_eq!(builtin_manifest("message").unwrap().icon_name, "message");
    assert_eq!(builtin_manifest("phone"), None);
    assert_eq!(CallApp.manifest(), builtin_manifest("call").unwrap());
    assert_eq!(CallApp.permissions(), &[AppPermission::Contacts, AppPermission::Network]);
    assert_eq!(
        MessageApp.permissions(),
        &[AppPermission::Contacts, AppPermission::Network, AppPermission::ShellState]
    );
    assert_eq!(ContactsApp.permissions(), &[AppPermission::Contacts]);
    assert_eq!(SettingsApp.manifest().title, "Settings");
    assert_eq!(CalendarApp.manifest().id, "calendar");
    assert_eq!(ClockApp.manifest().id, "clock");
    assert_eq!(AppsCatalogApp.manifest().id, "apps");
    assert_eq!(AiApp.manifest().id, "ai");
    assert_eq!(RelayApp.manifest().id, "relay");
    assert_eq!(PlatinumOneApp.manifest().id, "platinum_one");
}

#[test]
fn shell_state_lists_every_app() {
    let s = load_shell_state(&load_device_snapshot(None, None, 1_700_000_000));
    let ids: Vec<&str> = s.apps.modules.iter().map(|m| m.id).collect();
    assert_eq!(ids.len(), 10);
    assert_eq!(ids[5], "call");
    assert_eq!(s.apps.modules[5].title, "Call");
    assert_eq!(s.apps.modules[5].icon_name, "call");
}

#[test]
fn contact_buttons_send_requests() {
    let record = contact("Base Station", "+7 912 440 12 01", "Pinned", 5);
    let request = contact_launch_request(&record, "message");
    assert_eq!(
        request,
        AppLaunchRequest {
            app_id: "message",
            payload: Some(AppLaunchPayload::Contact(ContactPayload {
                name: String::from("Base Station"),
                phone: String::from("+7 912 440 12 01"),
            })),
        }
    );
}

#[test]
fn navigator_calls_back_with_the_request() {
    let seen: Rc<RefCell<Vec<AppLaunchRequest>>> = Rc::new(RefCell::new(Vec::new()));
    let sink = seen.clone();
    let navigator = AppNavigator::new(move |request: AppLaunchRequest| sink.borrow_mut().push(request));
    let copy = navigator.clone();
    navigator.open("contacts", None);
    copy.open("call", field_team());
    let got = seen.borrow();
    assert_eq!(got.len(), 2);
    assert_eq!(got[0], AppLaunchRequest { app_id: "contacts", payload: None });
    assert_eq!(got[1], AppLaunchRequest { app_id: "call", payload: field_team() });
}

#[test]
fn dialer_keys_and_buttons() {
    let mut d = Dialer::new(&None, true);
    assert_eq!((d.number(), d.status()), ("", "Ready to place a call"));
    assert!(d.call_enabled());
    d.press_key("5");
    d.press_key("#");
    assert_eq!((d.number(), d.status()), ("5#", "Number updated"));
    d.erase();
    assert_eq!((d.number(), d.status()), ("5", "Removed last digit"));
    d.press_key("1");
    d.erase();
    d.erase();
    assert_eq!((d.number(), d.status()), ("", "Ready to place a call"));
    d.erase();
    assert_eq!((d.number(), d.status()), ("", "Ready to place a call"));
    d.press_key("9");
    d.clear();
    assert_eq!((d.number(), d.status()), ("", "Dialer cleared"));
    d.load_recent("Emergency Link", "112");
    assert_eq!((d.number(), d.status()), ("112", "Loaded Emergency Link"));
    let offline = Dialer::new(&None, false);
    assert_eq!(offline.status(), "No network available");
    assert!(!offline.call_enabled());
}

#[test]
fn dialer_calls() {
    let mut store = LauncherStore::seeded(true, 10_000);
    let mut d = Dialer::new(&field_team(), true);
    assert_eq!((d.number(), d.status()), ("+7 912 440 53 20", "Loaded Field Team"));
    assert!(d.call(&mut store, 20_000));
    assert_eq!(d.status(), "Calling Field Team");
    assert_eq!(store.contacts()[2].last_called_at, 20_000);
    d.clear();
    assert!(!d.call(&mut store, 30_000));
    assert_eq!(d.status(), "Enter a number first");
    d.press_key("7");
    assert!(!d.call(&mut store, 30_000));
    assert_eq!(d.status(), "Calling 7");
    d.load_recent("Emergency Link", "112");
    assert!(d.call(&mut store, 40_000));
    assert_eq!(d.status(), "Calling 112");
    assert_eq!(store.contacts()[3].last_called_at, 40_000);
}

#[test]
fn conversation_with_a_launched_contact() {
    let mut store = LauncherStore::seeded(true, 10_000);
    let mut c = Conversation::open(&mut store, &field_team(), 20_000);
    assert_eq!(c.active(), 2);
    assert_eq!(store.threads_snapshot()[2].title, "Field Team");
    assert_eq!(c.composer_status(), "Composing to Field Team");
    assert!(!c.send(&mut store, "  \n ", 21_000));
    assert_eq!(c.composer_status(), "Type a message first");
    assert_eq!(store.threads()[0].messages.len(), 3);
    assert!(c.send(&mut store, "  Copy that \n", 22_000));
    assert_eq!(c.composer_status(), "Message queued locally");
    assert_eq!(store.threads()[0].messages.last().unwrap().body, "Copy that");
    assert_eq!(c.active(), 0);
    let shown = &store.threads_snapshot()[c.active()];
    assert_eq!(shown.title, "Field Team");
    assert_eq!(shown.preview, "Copy that");
    c.select(2);
    assert_eq!((c.active(), c.composer_status()), (2, "Conversation selected"));
    c.clear_draft();
    assert_eq!((c.active(), c.composer_status()), (2, "Draft cleared"));
}

#[test]
fn conversation_sends_to_the_thread_shown() {
    let mut store = LauncherStore::seeded(true, 10_000);
    let mut c = Conversation::open(&mut store, &None, 20_000);
    assert_eq!((c.active(), c.composer_status()), (0, "Draft ready"));
    assert_eq!(store.threads_snapshot()[0].title, "Relay Bridge");
    assert!(c.send(&mut store, "hi", 20_000));
    assert_eq!(store.threads()[2].messages.last().unwrap().body, "hi");
    assert_eq!(store.threads()[0].messages.len(), 3);
    assert_eq!(store.threads()[1].messages.len(), 2);
    assert_eq!(store.threads_snapshot()[c.active()].title, "Relay Bridge");
    c.select(1);
    assert!(c.send(&mut store, "queue it", 21_000));
    assert_eq!(store.threads()[1].messages.last().unwrap().body, "queue it");
    assert_eq!(c.active(), 0);
    assert_eq!(store.threads_snapshot()[0].title, "Contacts Queue");
}

#[test]
fn conversation_with_a_new_contact() {
    let mut store = LauncherStore::seeded(true, 10_000);
    let mut fresh = Conversation::open(
        &mut store,
        &Some(AppLaunchPayload::Contact(ContactPayload {
            name: String::from("Nova"),
            phone: String::from("+1 555 0100"),
        })),
        20_000,
    );
    assert_eq!(store.threads()[3].title, "Nova");
    assert_eq!(fresh.active(), 0);
    assert_eq!(store.threads_snapshot()[0].title, "Nova");
    assert!(fresh.send(&mut store, "hello", 25_000));
    assert_eq!(store.threads()[3].last_message_at, 25_000);
    assert_eq!(fresh.active(), 0);
    fresh.select(9);
    assert!(fresh.send(&mut store, "lost", 26_000));
    assert_eq!(fresh.active(), 9);
    assert_eq!(store.threads().len(), 4);
    assert_eq!(store.threads()[3].messages.last().unwrap().body, "hello");
}

#[test]
fn delete_undoes_a_key() {
    let mut d = Dialer::new(&field_team(), true);
    let before = d.number().to_string();
    d.press_key("9");
    d.erase();
    assert_eq!(d.number(), before);
    d.set_number("12");
    assert_eq!((d.number(), d.status()), ("12", "Removed last digit"));
}
