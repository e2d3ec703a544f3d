use vstd::prelude::*;

pub mod app_sdk;
pub mod app_store;
pub mod apps;
pub mod clock;
pub mod components;
pub mod conversation;
pub mod device;
pub mod device_service;
pub mod dialer;
pub mod indicators;
pub mod navigation;
pub mod search;
pub mod shell;
pub mod shell_state;
pub mod sort;
pub mod text;
pub mod theme;
pub mod window;

verus! {

} // verus!
