//! The app modules that the apps screen lists.
use vstd::prelude::*;

use crate::app_sdk::AppManifest;
use crate::apps::{builtin_manifest_list, builtin_manifests};
use crate::device::DeviceSnapshot;

verus! {

/// An app as the apps screen shows it.
#[derive(Debug, PartialEq, Eq)]
pub struct AppModule {
    pub id: &'static str,
    pub icon_name: &'static str,
    pub title: String,
}

/// A module, as values.
pub struct ModuleView {
    pub id: Seq<char>,
    pub icon_name: Seq<char>,
    pub title: Seq<char>,
}

impl View for AppModule {
    type V = ModuleView;

    open spec fn view(&self) -> ModuleView {
        ModuleView { id: self.id@, icon_name: self.icon_name@, title: self.title@ }
    }
}

impl Clone for AppModule {
    fn clone(&self) -> (r: Self)
        ensures
            r == *self,
    {
        AppModule { id: self.id, icon_name: self.icon_name, title: self.title.clone() }
    }
}

/// The modules of the apps screen.
#[derive(Debug, PartialEq, Eq)]
pub struct AppsState {
    pub modules: Vec<AppModule>,
}

impl Clone for AppsState {
    fn clone(&self) -> (r: Self)
        ensures
            module_views(r.modules@) == module_views(self.modules@),
    {
        let mut modules: Vec<AppModule> = Vec::new();
        let mut i: usize = 0;
        while i < self.modules.len()
            invariant
                i <= self.modules.len(),
                modules@ == self.modules@.take(i as int),
            decreases self.modules.len() - i,
        {
            modules.push(self.modules[i].clone());
            assert(self.modules@.take(i + 1) =~= self.modules@.take(i as int).push(self.modules@[i as int]));
            i = i + 1;
        }
        assert(self.modules@.take(i as int) =~= self.modules@);
        AppsState { modules }
    }
}

/// The state of the shell's screens.
#[derive(Debug, PartialEq, Eq)]
pub struct ShellState {
    pub apps: AppsState,
}

impl Clone for ShellState {
    fn clone(&self) -> (r: Self)
        ensures
            module_views(r.apps.modules@) == module_views(self.apps.modules@),
    {
        ShellState { apps: self.apps.clone() }
    }
}

/// The views of a sequence of modules.
pub open spec fn module_views(s: Seq<AppModule>) -> Seq<ModuleView> {
    s.map_values(|m: AppModule| m@)
}

/// The module that shows the app of a manifest.
pub open spec fn module_of(m: AppManifest) -> ModuleView {
    ModuleView { id: m.id@, icon_name: m.icon_name@, title: m.title@ }
}

/// The modules of the built-in apps, in registry order.
pub open spec fn builtin_modules() -> Seq<ModuleView> {
    builtin_manifest_list().map_values(|m: AppManifest| module_of(m))
}

/// The module that shows the app of a manifest.
pub fn app_from_manifest(manifest: AppManifest) -> (r: AppModule)
    ensures
        r@ == module_of(manifest),
{
    AppModule { id: manifest.id, icon_name: manifest.icon_name, title: String::from_str(manifest.title) }
}

/// The shell state: a module for each built-in app, in registry order. The
/// device snapshot does not change it.
pub fn load_shell_state(snapshot: &DeviceSnapshot) -> (r: ShellState)
    ensures
        module_views(r.apps.modules@) == builtin_modules(),
{
    let manifests = builtin_manifests();
    let mut modules: Vec<AppModule> = Vec::new();
    let mut i: usize = 0;
    while i < manifests.len()
        invariant
            i <= manifests.len(),
            manifests@ == builtin_manifest_list(),
            module_views(modules@) == builtin_manifest_list().take(i as int).map_values(|m: AppManifest| module_of(m)),
        decreases manifests.len() - i,
    {
        let module = app_from_manifest(manifests[i]);
        let ghost prev = modules@;
        modules.push(module);
        assert(module_views(modules@) =~= module_views(prev).push(module@));
        assert(builtin_manifest_list().take(i + 1) =~= builtin_manifest_list().take(i as int).push(builtin_manifest_list()[i as int]));
        i = i + 1;
    }
    assert(builtin_manifest_list().take(i as int) =~= builtin_manifest_list());
    ShellState { apps: AppsState { modules } }
}

} // verus!
