//! What the shell knows of an app: its manifest, its permissions, and the
//! requests that open it.
use vstd::prelude::*;

use std::rc::Rc;

verus! {

/// A capability that an app asks for.
#[derive(Debug, Clone, Copy, PartialEq, Eq, Structural)]
pub enum AppPermission {
    Battery,
    Contacts,
    Clock,
    Network,
    ShellState,
}

/// The identity of an app: its id, title, icon and description.
#[derive(Debug, Clone, Copy, PartialEq, Eq)]
pub struct AppManifest {
    pub id: &'static str,
    pub title: &'static str,
    pub icon_name: &'static str,
    pub description: &'static str,
}

/// A manifest, as values.
pub struct ManifestView {
    pub id: Seq<char>,
    pub title: Seq<char>,
    pub icon_name: Seq<char>,
    pub description: Seq<char>,
}

impl View for AppManifest {
    type V = ManifestView;

    open spec fn view(&self) -> ManifestView {
        ManifestView {
            id: self.id@,
            title: self.title@,
            icon_name: self.icon_name@,
            description: self.description@,
        }
    }
}

/// A contact handed to the app that opens.
#[derive(Debug, PartialEq, Eq)]
pub struct ContactPayload {
    pub name: String,
    pub phone: String,
}

impl Clone for ContactPayload {
    fn clone(&self) -> (r: Self)
        ensures
            r == *self,
    {
        ContactPayload { name: self.name.clone(), phone: self.phone.clone() }
    }
}

/// What an app is opened with.
#[derive(Debug, PartialEq, Eq)]
pub enum AppLaunchPayload {
    Contact(ContactPayload),
}

impl Clone for AppLaunchPayload {
    fn clone(&self) -> (r: Self)
        ensures
            r == *self,
    {
        match self {
            AppLaunchPayload::Contact(contact) => AppLaunchPayload::Contact(contact.clone()),
        }
    }
}

/// Copies an optional payload.
pub fn clone_payload(payload: &Option<AppLaunchPayload>) -> (r: Option<AppLaunchPayload>)
    ensures
        r == *payload,
{
    match payload {
        Some(p) => Some(p.clone()),
        None => None,
    }
}

/// A request to open the app `app_id` with `payload`.
#[derive(Debug, PartialEq, Eq)]
pub struct AppLaunchRequest {
    pub app_id: &'static str,
    pub payload: Option<AppLaunchPayload>,
}

impl Clone for AppLaunchRequest {
    fn clone(&self) -> (r: Self)
        ensures
            r == *self,
    {
        AppLaunchRequest { app_id: self.app_id, payload: clone_payload(&self.payload) }
    }
}


/// What apps use to ask the shell to open an app: a callback that the
/// shell hands them, shared by every copy. `F` is the callback's type; the
/// shell uses a boxed closure.
pub struct AppNavigator<F: Fn(AppLaunchRequest)> {
    navigate: Rc<F>,
}

impl<F: Fn(AppLaunchRequest)> AppNavigator<F> {
    /// The callback that the navigator calls.
    pub closed spec fn callback(&self) -> F {
        *self.navigate
    }

    /// A navigator that calls `navigate`.
    pub fn new(navigate: F) -> (r: Self)
        ensures
            r.callback() == navigate,
    {
        AppNavigator { navigate: Rc::new(navigate) }
    }

    /// Asks the shell to open `app_id` with `payload`: calls the callback
    /// with that request.
    pub fn open(&self, app_id: &'static str, payload: Option<AppLaunchPayload>)
        requires
            forall|r: AppLaunchRequest| call_requires(self.callback(), (r,)),
        ensures
            call_ensures(self.callback(), (AppLaunchRequest { app_id, payload },), ()),
    {
        let request = AppLaunchRequest { app_id, payload };
        assert(call_requires(self.callback(), (request,)));
        (self.navigate)(request);
    }
}

impl<F: Fn(AppLaunchRequest)> Clone for AppNavigator<F> {
    fn clone(&self) -> (r: Self)
        ensures
            r.callback() == self.callback(),
    {
        AppNavigator { navigate: Rc::clone(&self.navigate) }
    }
}

} // verus!
