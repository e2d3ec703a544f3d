//! Where the shell stands: one of its surfaces, or an open app; and how the
//! dock steps between them.
use vstd::prelude::*;

use crate::text::str_eq;

verus! {

/// A page of the shell's carousel.
#[derive(Debug, Clone, Copy, PartialEq, Eq, Structural)]
pub enum AppSurface {
    Home,
    Apps,
}

/// A surface of the shell, or the app with the given id.
#[derive(Debug, Clone, Copy, PartialEq, Eq)]
pub enum AppRoute {
    Surface(AppSurface),
    App(&'static str),
}

/// A route, as values.
pub enum RouteView {
    Surface(AppSurface),
    App(Seq<char>),
}

impl View for AppRoute {
    type V = RouteView;

    open spec fn view(&self) -> RouteView {
        match *self {
            AppRoute::Surface(surface) => RouteView::Surface(surface),
            AppRoute::App(id) => RouteView::App(id@),
        }
    }
}

/// The position of a surface in the carousel.
pub open spec fn spec_surface_index(surface: AppSurface) -> u32 {
    match surface {
        AppSurface::Home => 0,
        AppSurface::Apps => 1,
    }
}

/// The surface at a position of the carousel; past the last page, home.
pub open spec fn spec_surface_for_index(index: u32) -> AppSurface {
    if index == 1 {
        AppSurface::Apps
    } else {
        AppSurface::Home
    }
}

/// The position of a surface in the carousel.
pub fn surface_index(surface: AppSurface) -> (r: u32)
    ensures
        r == spec_surface_index(surface),
{
    match surface {
        AppSurface::Home => 0,
        AppSurface::Apps => 1,
    }
}

/// The surface at a position of the carousel; past the last page, home.
pub fn surface_for_index(index: u32) -> (r: AppSurface)
    ensures
        r == spec_surface_for_index(index),
{
    match index {
        0 => AppSurface::Home,
        1 => AppSurface::Apps,
        _ => AppSurface::Home,
    }
}

/// The dock's next tab: home, apps, call, message, and round to home; any
/// other route steps to home.
pub open spec fn dock_next(route: RouteView) -> RouteView {
    match route {
        RouteView::Surface(AppSurface::Home) => RouteView::Surface(AppSurface::Apps),
        RouteView::Surface(AppSurface::Apps) => RouteView::App("call"@),
        RouteView::App(id) => if id == "call"@ {
            RouteView::App("message"@)
        } else {
            RouteView::Surface(AppSurface::Home)
        },
    }
}

/// The dock's previous tab: home, message, call, apps, and round to home;
/// any other route steps to home.
pub open spec fn dock_prev(route: RouteView) -> RouteView {
    match route {
        RouteView::Surface(AppSurface::Home) => RouteView::App("message"@),
        RouteView::Surface(AppSurface::Apps) => RouteView::Surface(AppSurface::Home),
        RouteView::App(id) => if id == "call"@ {
            RouteView::Surface(AppSurface::Apps)
        } else if id == "message"@ {
            RouteView::App("call"@)
        } else {
            RouteView::Surface(AppSurface::Home)
        },
    }
}

/// The routes that the dock shows: home, apps, call and message.
pub open spec fn is_dock_route(route: RouteView) -> bool {
    match route {
        RouteView::Surface(_) => true,
        RouteView::App(id) => id == "call"@ || id == "message"@,
    }
}

/// The dock's next tab after `route`.
pub open spec fn next_route(route: AppRoute) -> AppRoute {
    match route {
        AppRoute::Surface(AppSurface::Home) => AppRoute::Surface(AppSurface::Apps),
        AppRoute::Surface(AppSurface::Apps) => AppRoute::App("call"),
        AppRoute::App(id) => if id@ == "call"@ {
            AppRoute::App("message")
        } else {
            AppRoute::Surface(AppSurface::Home)
        },
    }
}

/// The dock's previous tab before `route`.
pub open spec fn prev_route(route: AppRoute) -> AppRoute {
    match route {
        AppRoute::Surface(AppSurface::Home) => AppRoute::App("message"),
        AppRoute::Surface(AppSurface::Apps) => AppRoute::Surface(AppSurface::Home),
        AppRoute::App(id) => if id@ == "call"@ {
            AppRoute::Surface(AppSurface::Apps)
        } else if id@ == "message"@ {
            AppRoute::App("call")
        } else {
            AppRoute::Surface(AppSurface::Home)
        },
    }
}

/// The dock's next tab after `route`.
pub fn dock_tab_next(route: AppRoute) -> (r: AppRoute)
    ensures
        r == next_route(route),
        r@ == dock_next(route@),
{
    match route {
        AppRoute::Surface(AppSurface::Home) => AppRoute::Surface(AppSurface::Apps),
        AppRoute::Surface(AppSurface::Apps) => AppRoute::App("call"),
        AppRoute::App(id) => {
            if str_eq(id, "call") {
                AppRoute::App("message")
            } else {
                AppRoute::Surface(AppSurface::Home)
            }
        },
    }
}

/// The dock's previous tab before `route`.
pub fn dock_tab_prev(route: AppRoute) -> (r: AppRoute)
    ensures
        r == prev_route(route),
        r@ == dock_prev(route@),
{
    match route {
        AppRoute::Surface(AppSurface::Home) => AppRoute::App("message"),
        AppRoute::Surface(AppSurface::Apps) => AppRoute::Surface(AppSurface::Home),
        AppRoute::App(id) => {
            if str_eq(id, "call") {
                AppRoute::Surface(AppSurface::Apps)
            } else if str_eq(id, "message") {
                AppRoute::App("call")
            } else {
                AppRoute::Surface(AppSurface::Home)
            }
        },
    }
}

/// Reading back the surface at a surface's position gives the surface.
pub proof fn lemma_surface_index_round_trip(surface: AppSurface)
    ensures
        spec_surface_for_index(spec_surface_index(surface)) == surface,
{
}

/// Stepping forward then back, or back then forward, over the dock returns
/// to the tab where it started.
pub proof fn lemma_dock_steps_invert(route: RouteView)
    requires
        is_dock_route(route),
    ensures
        dock_prev(dock_next(route)) == route,
        dock_next(dock_prev(route)) == route,
        is_dock_route(dock_next(route)),
        is_dock_route(dock_prev(route)),
{
    reveal_strlit("call");
    reveal_strlit("message");
    assert("call"@ != "message"@) by {
        assert("call"@.len() != "message"@.len());
    }
}

/// Four steps forward over the dock come round to the start.
pub proof fn lemma_dock_cycle(route: RouteView)
    requires
        is_dock_route(route),
    ensures
        dock_next(dock_next(dock_next(dock_next(route)))) == route,
{
    reveal_strlit("call");
    reveal_strlit("message");
    assert("call"@ != "message"@) by {
        assert("call"@.len() != "message"@.len());
    }
}

} // verus!
