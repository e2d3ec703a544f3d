//! The call app's dialer: the number being dialed, the status line under
//! it, and what each key and button does to them.
use vstd::prelude::*;

use crate::app_sdk::AppLaunchPayload;
use crate::app_store::{has_phone, store_after_call, LauncherStore};
use crate::search::first_index;
use crate::text::{chars_eq, chars_of, slice_chars, string_from_chars};

verus! {

/// The dialer of the call app.
#[derive(Debug)]
pub struct Dialer {
    number: String,
    status: String,
    launched: Option<(String, String)>,
    network_online: bool,
}

/// A dialer, as values.
pub struct DialerView {
    /// The number being dialed.
    pub number: Seq<char>,
    /// The status line.
    pub status: Seq<char>,
    /// The name and phone number of the contact the app was opened with.
    pub launched: Option<(Seq<char>, Seq<char>)>,
    /// Whether a call can be placed.
    pub network_online: bool,
}

impl View for Dialer {
    type V = DialerView;

    closed spec fn view(&self) -> DialerView {
        DialerView {
            number: self.number@,
            status: self.status@,
            launched: match self.launched {
                Some((name, phone)) => Some((name@, phone@)),
                None => None,
            },
            network_online: self.network_online,
        }
    }
}

/// The contact, as name and phone number, that a launch payload carries.
pub open spec fn launched_contact(payload: Option<AppLaunchPayload>) -> Option<(Seq<char>, Seq<char>)> {
    match payload {
        Some(AppLaunchPayload::Contact(c)) => Some((c.name@, c.phone@)),
        None => None,
    }
}

/// The dialer that the call app opens with: the launched contact's number,
/// loaded; else an empty number, ready where the network is online.
pub open spec fn initial_dialer(payload: Option<AppLaunchPayload>, network_online: bool) -> DialerView {
    DialerView {
        number: match launched_contact(payload) {
            Some((_, phone)) => phone,
            None => Seq::empty(),
        },
        status: match launched_contact(payload) {
            Some((name, _)) => "Loaded "@ + name,
            None => if network_online {
                "Ready to place a call"@
            } else {
                "No network available"@
            },
        },
        launched: launched_contact(payload),
        network_online,
    }
}

/// The status of a call to `number`: the launched contact's name where the
/// number is theirs, else the number.
pub open spec fn calling_status(number: Seq<char>, launched: Option<(Seq<char>, Seq<char>)>) -> Seq<char> {
    match launched {
        Some((name, phone)) => if phone == number {
            "Calling "@ + name
        } else {
            "Calling "@ + number
        },
        None => "Calling "@ + number,
    }
}

/// The dialer after a key of the pad: its label appended to the number.
pub open spec fn after_key(d: DialerView, key: Seq<char>) -> DialerView {
    DialerView { number: d.number + key, status: "Number updated"@, ..d }
}

/// The dialer after Delete: the number without its last character, where
/// it has one; ready once it is empty.
pub open spec fn after_erase(d: DialerView) -> DialerView {
    DialerView {
        number: if d.number.len() > 0 {
            d.number.drop_last()
        } else {
            d.number
        },
        status: if d.number.len() <= 1 {
            "Ready to place a call"@
        } else {
            "Removed last digit"@
        },
        ..d
    }
}

/// Delete undoes a key: after a one-character key and Delete the number is
/// what it was.
pub proof fn lemma_erase_undoes_key(d: DialerView, key: Seq<char>)
    requires
        key.len() == 1,
    ensures
        after_erase(after_key(d, key)).number == d.number,
        after_erase(after_key(d, key)).launched == d.launched,
{
    assert((d.number + key).drop_last() =~= d.number);
}

/// `prefix` followed by `rest`.
fn joined(prefix: &str, rest: &str) -> (r: String)
    ensures
        r@ == prefix@ + rest@,
{
    let mut r = String::from_str(prefix);
    r.append(rest);
    r
}

impl Dialer {
    /// The dialer as the call app opens it.
    pub fn new(payload: &Option<AppLaunchPayload>, network_online: bool) -> (r: Dialer)
        ensures
            r@ == initial_dialer(*payload, network_online),
    {
        match payload {
            Some(AppLaunchPayload::Contact(c)) => Dialer {
                number: c.phone.clone(),
                status: joined("Loaded ", c.name.as_str()),
                launched: Some((c.name.clone(), c.phone.clone())),
                network_online,
            },
            None => Dialer {
                number: String::new(),
                status: String::from_str(
                    if network_online {
                        "Ready to place a call"
                    } else {
                        "No network available"
                    },
                ),
                launched: None,
                network_online,
            },
        }
    }

    /// The number being dialed.
    pub fn number(&self) -> (r: &str)
        ensures
            r@ == self@.number,
    {
        self.number.as_str()
    }

    /// The status line.
    pub fn status(&self) -> (r: &str)
        ensures
            r@ == self@.status,
    {
        self.status.as_str()
    }

    /// Whether the call button takes presses: only with a network.
    pub fn call_enabled(&self) -> (r: bool)
        ensures
            r == self@.network_online,
    {
        self.network_online
    }

    /// The number was typed into the entry by hand: it becomes the number,
    /// and the status line stays.
    pub fn set_number(&mut self, number: &str)
        ensures
            final(self)@ == (DialerView { number: number@, ..old(self)@ }),
    {
        self.number = String::from_str(number);
    }

    /// A key of the pad appends its label to the number.
    pub fn press_key(&mut self, key: &str)
        ensures
            final(self)@ == after_key(old(self)@, key@),
    {
        self.number.append(key);
        self.status = String::from_str("Number updated");
    }

    /// Delete drops the last character of the number, where there is one.
    pub fn erase(&mut self)
        ensures
            final(self)@ == after_erase(old(self)@),
    {
        let chars = chars_of(self.number.as_str());
        if chars.len() > 0 {
            let kept = slice_chars(&chars, 0, chars.len() - 1);
            assert(kept@ =~= chars@.drop_last());
            self.number = string_from_chars(&kept);
        }
        if chars.len() <= 1 {
            self.status = String::from_str("Ready to place a call");
        } else {
            self.status = String::from_str("Removed last digit");
        }
    }

    /// Clear empties the number.
    pub fn clear(&mut self)
        ensures
            final(self)@ == (DialerView { number: Seq::empty(), status: "Dialer cleared"@, ..old(self)@ }),
    {
        self.number = String::new();
        self.status = String::from_str("Dialer cleared");
    }

    /// A recent call's row loads its number.
    pub fn load_recent(&mut self, name: &str, number: &str)
        ensures
            final(self)@ == (DialerView { number: number@, status: "Loaded "@ + name@, ..old(self)@ }),
    {
        self.number = String::from_str(number);
        self.status = joined("Loaded ", name);
    }

    /// Call places a call to the number at `now`: with no number it asks
    /// for one and changes nothing; else the store marks the number's
    /// contact called and the status names whom is called. Tells whether
    /// the store changed.
    pub fn call(&mut self, store: &mut LauncherStore, now: i64) -> (changed: bool)
        ensures
            old(self)@.number.len() == 0 ==> {
                &&& final(self)@ == (DialerView { status: "Enter a number first"@, ..old(self)@ })
                &&& final(store)@ == old(store)@
                &&& !changed
            },
            old(self)@.number.len() > 0 ==> {
                &&& final(self)@ == (DialerView {
                    status: calling_status(old(self)@.number, old(self)@.launched),
                    ..old(self)@
                })
                &&& final(store)@ == store_after_call(old(store)@, old(self)@.number, now)
                &&& changed == (first_index(old(store)@.contacts, has_phone(old(self)@.number))
                    < old(store)@.contacts.len())
            },
    {
        if self.number.as_str().is_empty() {
            self.status = String::from_str("Enter a number first");
            return false;
        }
        let changed = store.mark_called(self.number.as_str(), now);
        let status = match &self.launched {
            Some((name, phone)) => {
                let p = chars_of(phone.as_str());
                let n = chars_of(self.number.as_str());
                if chars_eq(&p, &n) {
                    joined("Calling ", name.as_str())
                } else {
                    joined("Calling ", self.number.as_str())
                }
            },
            None => joined("Calling ", self.number.as_str()),
        };
        self.status = status;
        changed
    }

}

} // verus!
