//! The apps built into the shell: their manifests and permissions, and the
//! registry order in which the shell lists them.
use vstd::prelude::*;

use crate::app_sdk::{AppLaunchPayload, AppLaunchRequest, AppManifest, AppPermission, ContactPayload};
use crate::app_store::ContactRecord;
use crate::search::{first_index, lemma_first_index_is};
use crate::text::str_eq;

verus! {

/// The calendar.
pub struct CalendarApp;

/// The manifest of the Calendar app.
pub open spec fn calendar_manifest() -> AppManifest {
    AppManifest {
        id: "calendar",
        title: "Calendar",
        icon_name: "calendar-home",
        description: "Native calendar surface for upcoming events and schedule blocks.",
    }
}

impl CalendarApp {
    pub fn manifest(&self) -> (m: AppManifest)
        ensures
            m == calendar_manifest(),
    {
        AppManifest {
            id: "calendar",
            title: "Calendar",
            icon_name: "calendar-home",
            description: "Native calendar surface for upcoming events and schedule blocks.",
        }
    }

    pub fn permissions(&self) -> (p: &'static [AppPermission])
        ensures
            p@ == seq![AppPermission::Clock],
    {
        &[AppPermission::Clock]
    }
}

/// The clock.
pub struct ClockApp;

/// The manifest of the Clock app.
pub open spec fn clock_manifest() -> AppManifest {
    AppManifest {
        id: "clock",
        title: "Clock",
        icon_name: "clock",
        description: "World clock, alarms, and timer surface.",
    }
}

impl ClockApp {
    pub fn manifest(&self) -> (m: AppManifest)
        ensures
            m == clock_manifest(),
    {
        AppManifest {
            id: "clock",
            title: "Clock",
            icon_name: "clock",
            description: "World clock, alarms, and timer surface.",
        }
    }

    pub fn permissions(&self) -> (p: &'static [AppPermission])
        ensures
            p@ == seq![AppPermission::Clock],
    {
        &[AppPermission::Clock]
    }
}

/// The address book.
pub struct ContactsApp;

/// The manifest of the Contacts app.
pub open spec fn contacts_manifest() -> AppManifest {
    AppManifest {
        id: "contacts",
        title: "Contacts",
        icon_name: "contacts",
        description: "People, favorites, and recent communication entries.",
    }
}

impl ContactsApp {
    pub fn manifest(&self) -> (m: AppManifest)
        ensures
            m == contacts_manifest(),
    {
        AppManifest {
            id: "contacts",
            title: "Contacts",
            icon_name: "contacts",
            description: "People, favorites, and recent communication entries.",
        }
    }

    pub fn permissions(&self) -> (p: &'static [AppPermission])
        ensures
            p@ == seq![AppPermission::Contacts],
    {
        &[AppPermission::Contacts]
    }
}

/// The catalog of installed apps.
pub struct AppsCatalogApp;

/// The manifest of the Apps app.
pub open spec fn apps_catalog_manifest() -> AppManifest {
    AppManifest {
        id: "apps",
        title: "Apps",
        icon_name: "apps",
        description: "Installed launcher applications and native module entry points.",
    }
}

impl AppsCatalogApp {
    pub fn manifest(&self) -> (m: AppManifest)
        ensures
            m == apps_catalog_manifest(),
    {
        AppManifest {
            id: "apps",
            title: "Apps",
            icon_name: "apps",
            description: "Installed launcher applications and native module entry points.",
        }
    }

    pub fn permissions(&self) -> (p: &'static [AppPermission])
        ensures
            p@ == seq![AppPermission::ShellState],
    {
        &[AppPermission::ShellState]
    }
}

/// The assistant.
pub struct AiApp;

/// The manifest of the AI app.
pub open spec fn ai_manifest() -> AppManifest {
    AppManifest {
        id: "ai",
        title: "AI",
        icon_name: "ai",
        description: "Assistant workflows and local inference handoff point.",
    }
}

impl AiApp {
    pub fn manifest(&self) -> (m: AppManifest)
        ensures
            m == ai_manifest(),
    {
        AppManifest {
            id: "ai",
            title: "AI",
            icon_name: "ai",
            description: "Assistant workflows and local inference handoff point.",
        }
    }

    pub fn permissions(&self) -> (p: &'static [AppPermission])
        ensures
            p@ == seq![AppPermission::Network, AppPermission::ShellState],
    {
        &[AppPermission::Network, AppPermission::ShellState]
    }
}

/// The dialer.
pub struct CallApp;

/// The manifest of the Call app.
pub open spec fn call_manifest() -> AppManifest {
    AppManifest {
        id: "call",
        title: "Call",
        icon_name: "call",
        description: "Dialer and recent voice sessions for the handheld communicator.",
    }
}

impl CallApp {
    pub fn manifest(&self) -> (m: AppManifest)
        ensures
            m == call_manifest(),
    {
        AppManifest {
            id: "call",
            title: "Call",
            icon_name: "call",
            description: "Dialer and recent voice sessions for the handheld communicator.",
        }
    }

    pub fn permissions(&self) -> (p: &'static [AppPermission])
        ensures
            p@ == seq![AppPermission::Contacts, AppPermission::Network],
    {
        &[AppPermission::Contacts, AppPermission::Network]
    }
}

/// Messaging.
pub struct MessageApp;

/// The manifest of the Message app.
pub open spec fn message_manifest() -> AppManifest {
    AppManifest {
        id: "message",
        title: "Message",
        icon_name: "message",
        description: "Conversations, relay threads, and device message sync.",
    }
}

impl MessageApp {
    pub fn manifest(&self) -> (m: AppManifest)
        ensures
            m == message_manifest(),
    {
        AppManifest {
            id: "message",
            title: "Message",
            icon_name: "message",
            description: "Conversations, relay threads, and device message sync.",
        }
    }

    pub fn permissions(&self) -> (p: &'static [AppPermission])
        ensures
            p@ == seq![AppPermission::Contacts, AppPermission::Network, AppPermission::ShellState],
    {
        &[AppPermission::Contacts, AppPermission::Network, AppPermission::ShellState]
    }
}

/// The settings.
pub struct SettingsApp;

/// The manifest of the Settings app.
pub open spec fn settings_manifest() -> AppManifest {
    AppManifest {
        id: "settings",
        title: "Settings",
        icon_name: "settings",
        description: "Shell tuning, appearance, and system preferences.",
    }
}

impl SettingsApp {
    pub fn manifest(&self) -> (m: AppManifest)
        ensures
            m == settings_manifest(),
    {
        AppManifest {
            id: "settings",
            title: "Settings",
            icon_name: "settings",
            description: "Shell tuning, appearance, and system preferences.",
        }
    }

    pub fn permissions(&self) -> (p: &'static [AppPermission])
        ensures
            p@ == seq![AppPermission::Battery, AppPermission::Network, AppPermission::ShellState],
    {
        &[AppPermission::Battery, AppPermission::Network, AppPermission::ShellState]
    }
}

/// The relay bridge.
pub struct RelayApp;

/// The manifest of the Relay app.
pub open spec fn relay_manifest() -> AppManifest {
    AppManifest {
        id: "relay",
        title: "Relay",
        icon_name: "relay",
        description: "Local bridge and device-to-device connectivity surface.",
    }
}

impl RelayApp {
    pub fn manifest(&self) -> (m: AppManifest)
        ensures
            m == relay_manifest(),
    {
        AppManifest {
            id: "relay",
            title: "Relay",
            icon_name: "relay",
            description: "Local bridge and device-to-device connectivity surface.",
        }
    }

    pub fn permissions(&self) -> (p: &'static [AppPermission])
        ensures
            p@ == seq![AppPermission::Network],
    {
        &[AppPermission::Network]
    }
}

/// The primary product surface.
pub struct PlatinumOneApp;

/// The manifest of the Platinum One app.
pub open spec fn platinum_one_manifest() -> AppManifest {
    AppManifest {
        id: "platinum_one",
        title: "Platinum One",
        icon_name: "platinum-one-home",
        description: "Primary product surface and custom native experience entry point.",
    }
}

impl PlatinumOneApp {
    pub fn manifest(&self) -> (m: AppManifest)
        ensures
            m == platinum_one_manifest(),
    {
        AppManifest {
            id: "platinum_one",
            title: "Platinum One",
            icon_name: "platinum-one-home",
            description: "Primary product surface and custom native experience entry point.",
        }
    }

    pub fn permissions(&self) -> (p: &'static [AppPermission])
        ensures
            p@ == seq![AppPermission::ShellState, AppPermission::Network],
    {
        &[AppPermission::ShellState, AppPermission::Network]
    }
}

/// The manifests of the built-in apps, in the order in which the registry
/// holds them.
pub open spec fn builtin_manifest_list() -> Seq<AppManifest> {
    seq![
        calendar_manifest(),
        clock_manifest(),
        contacts_manifest(),
        apps_catalog_manifest(),
        ai_manifest(),
        call_manifest(),
        message_manifest(),
        settings_manifest(),
        relay_manifest(),
        platinum_one_manifest(),
    ]
}

/// The manifests of the built-in apps, in registry order.
pub fn builtin_manifests() -> (r: Vec<AppManifest>)
    ensures
        r@ == builtin_manifest_list(),
{
    let mut r: Vec<AppManifest> = Vec::new();
    r.push(CalendarApp.manifest());
    r.push(ClockApp.manifest());
    r.push(ContactsApp.manifest());
    r.push(AppsCatalogApp.manifest());
    r.push(AiApp.manifest());
    r.push(CallApp.manifest());
    r.push(MessageApp.manifest());
    r.push(SettingsApp.manifest());
    r.push(RelayApp.manifest());
    r.push(PlatinumOneApp.manifest());
    assert(r@ =~= builtin_manifest_list());
    r
}

/// Manifests with the id `id`.
pub open spec fn has_id(id: Seq<char>) -> spec_fn(AppManifest) -> bool {
    |m: AppManifest| m.id@ == id
}

/// The first manifest of `manifests` with the id `id`, if any.
pub open spec fn manifest_with_id(manifests: Seq<AppManifest>, id: Seq<char>) -> Option<AppManifest> {
    let k = first_index(manifests, has_id(id));
    if k < manifests.len() {
        Some(manifests[k])
    } else {
        None
    }
}

/// The first manifest of `manifests` with the id `id`, if any.
pub fn find_manifest(manifests: &Vec<AppManifest>, id: &str) -> (r: Option<AppManifest>)
    ensures
        r == manifest_with_id(manifests@, id@),
{
    let ghost views = manifests@;
    let mut i: usize = 0;
    while i < manifests.len()
        invariant
            i <= manifests.len(),
            views == manifests@,
            forall|j: int| 0 <= j < i ==> !has_id(id@)(#[trigger] views[j]),
        decreases manifests.len() - i,
    {
        if str_eq(manifests[i].id, id) {
            proof {
                lemma_first_index_is(views, has_id(id@), i as int);
            }
            return Some(manifests[i]);
        }
        i = i + 1;
    }
    proof {
        lemma_first_index_is(views, has_id(id@), i as int);
    }
    None
}

/// The manifest of the built-in app with the id `id`, if any.
pub fn builtin_manifest(id: &str) -> (r: Option<AppManifest>)
    ensures
        r == manifest_with_id(builtin_manifest_list(), id@),
{
    let manifests = builtin_manifests();
    find_manifest(&manifests, id)
}


/// No two built-in apps share an id.
pub proof fn lemma_builtin_ids_distinct()
    ensures
        forall|i: int, j: int|
            0 <= i < j < builtin_manifest_list().len() ==> (#[trigger] builtin_manifest_list()[i]).id@
                != (#[trigger] builtin_manifest_list()[j]).id@,
{
    reveal_strlit("calendar");
    reveal_strlit("clock");
    reveal_strlit("contacts");
    reveal_strlit("apps");
    reveal_strlit("ai");
    reveal_strlit("call");
    reveal_strlit("message");
    reveal_strlit("settings");
    reveal_strlit("relay");
    reveal_strlit("platinum_one");
    let l = builtin_manifest_list();
    assert forall|i: int, j: int| 0 <= i < j < l.len() implies (#[trigger] l[i]).id@ != (#[trigger] l[j]).id@ by {
        let a = l[i].id@;
        let b = l[j].id@;
        if a.len() == b.len() {
            if a[0] == b[0] {
                assert(a[1] != b[1] || a[2] != b[2] || a[3] != b[3]);
            } else {
                assert(a[0] != b[0]);
            }
        }
    }
}

/// Looking up the id of a built-in app finds that app's manifest.
pub proof fn lemma_builtin_lookup(i: int)
    requires
        0 <= i < builtin_manifest_list().len(),
    ensures
        manifest_with_id(builtin_manifest_list(), builtin_manifest_list()[i].id@) == Some(
            builtin_manifest_list()[i],
        ),
{
    let l = builtin_manifest_list();
    lemma_builtin_ids_distinct();
    assert forall|j: int| 0 <= j < i implies !has_id(l[i].id@)(#[trigger] l[j]) by {
        assert(l[j].id@ != l[i].id@);
    }
    lemma_first_index_is(l, has_id(l[i].id@), i);
}

/// The request that a contact's Call or Message button sends: open the app
/// `app_id` with the contact's name and phone number.
pub fn contact_launch_request(record: &ContactRecord, app_id: &'static str) -> (r: AppLaunchRequest)
    ensures
        r.app_id == app_id,
        r.payload matches Some(AppLaunchPayload::Contact(c)) && c.name@ == record.name@ && c.phone@
            == record.phone@,
{
    AppLaunchRequest {
        app_id,
        payload: Some(
            AppLaunchPayload::Contact(
                ContactPayload { name: record.name.clone(), phone: record.phone.clone() },
            ),
        ),
    }
}

} // verus!
