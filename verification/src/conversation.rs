//! The message app's conversation pane: which thread is shown, the status
//! line under the composer, and what sending and clearing do.
use vstd::prelude::*;

use crate::app_sdk::AppLaunchPayload;
use crate::app_store::{
    direct_thread_index, lemma_direct_thread_idempotent, lemma_thread_order, listed_position,
    shown_thread, store_after_direct_thread, store_after_outgoing, thread_order, threads_listing,
    ContactRecord, LauncherStore,
};
use crate::text::{chars_of, string_from_chars, trim_chars, trim_spec, CharClass};

verus! {

/// The conversation pane of the message app.
#[derive(Debug)]
pub struct Conversation {
    active: usize,
    composer_status: String,
}

/// A conversation pane, as values.
pub struct ConversationView {
    /// The row of the threads list (`threads_snapshot`, `threads_listing`)
    /// whose thread the detail view shows and the composer writes to.
    pub active: int,
    /// The status line under the composer.
    pub composer_status: Seq<char>,
}

impl View for Conversation {
    type V = ConversationView;

    closed spec fn view(&self) -> ConversationView {
        ConversationView { active: self.active as int, composer_status: self.composer_status@ }
    }
}

impl Conversation {
    /// The pane as the message app opens it at `now`: for a launched
    /// contact, the row of the direct thread with them (made where there is
    /// none) and a status saying to whom the draft goes; else the first row
    /// and a ready draft.
    pub fn open(store: &mut LauncherStore, payload: &Option<AppLaunchPayload>, now: i64) -> (r:
        Conversation)
        requires
            match *payload {
                Some(AppLaunchPayload::Contact(c)) => direct_thread_index(old(store)@, c.name@)
                    >= old(store)@.threads.len() ==> now < i64::MAX,
                None => true,
            },
        ensures
            match *payload {
                Some(AppLaunchPayload::Contact(c)) => {
                    &&& final(store)@ == store_after_direct_thread(old(store)@, c.name@, c.phone@, now)
                    &&& r@.active == listed_position(
                        final(store)@.threads,
                        direct_thread_index(old(store)@, c.name@),
                    )
                    &&& thread_order(final(store)@.threads)[r@.active] == direct_thread_index(
                        old(store)@,
                        c.name@,
                    )
                    &&& 0 <= r@.active < threads_listing(final(store)@.threads).len()
                    &&& threads_listing(final(store)@.threads)[r@.active].title == c.name@
                    &&& r@.composer_status == "Composing to "@ + c.name@
                },
                None => {
                    &&& final(store)@ == old(store)@
                    &&& r@.active == 0
                    &&& r@.composer_status == "Draft ready"@
                },
            },
    {
        match payload {
            Some(AppLaunchPayload::Contact(c)) => {
                let record = ContactRecord {
                    name: c.name.clone(),
                    phone: c.phone.clone(),
                    note: String::from_str("Direct"),
                    created_at: 0,
                    last_called_at: 0,
                    last_message_at: 0,
                    updated_at: 0,
                };
                let ghost before = store@;
                let stored = store.ensure_direct_thread(&record, now);
                proof {
                    lemma_direct_thread_idempotent(before, c.name@, c.phone@, now, now);
                    lemma_thread_order(store@.threads);
                }
                let active = store.listed_position(stored);
                let mut status = String::from_str("Composing to ");
                status.append(c.name.as_str());
                Conversation { active, composer_status: status }
            },
            None => Conversation { active: 0, composer_status: String::from_str("Draft ready") },
        }
    }

    /// The position of the thread shown.
    pub fn active(&self) -> (r: usize)
        ensures
            r as int == self@.active,
    {
        self.active
    }

    /// The status line under the composer.
    pub fn composer_status(&self) -> (r: &str)
        ensures
            r@ == self@.composer_status,
    {
        self.composer_status.as_str()
    }

    /// Tapping a thread shows it.
    pub fn select(&mut self, index: usize)
        ensures
            final(self)@ == (ConversationView {
                active: index as int,
                composer_status: "Conversation selected"@,
            }),
    {
        self.active = index;
        self.composer_status = String::from_str("Conversation selected");
    }

    /// Clear empties the draft.
    pub fn clear_draft(&mut self)
        ensures
            final(self)@ == (ConversationView {
                composer_status: "Draft cleared"@,
                ..old(self)@
            }),
    {
        self.composer_status = String::from_str("Draft cleared");
    }

    /// Send, with the composer holding `text`, at `now`: a text that is
    /// blank once trimmed is not sent and the status asks for one; else the
    /// trimmed text goes, as an outgoing message, to the thread shown (the
    /// one at the pane's row of the threads list), the status says it is
    /// queued, and the pane follows that thread to its new row. Tells whether
    /// it was sent, and so whether the composer is emptied.
    pub fn send(&mut self, store: &mut LauncherStore, text: &str, now: i64) -> (sent: bool)
        ensures
            sent == (trim_spec(text@, CharClass::Whitespace).len() > 0),
            !sent ==> {
                &&& final(self)@ == (ConversationView {
                    composer_status: "Type a message first"@,
                    ..old(self)@
                })
                &&& final(store)@ == old(store)@
            },
            sent ==> {
                &&& final(self)@.composer_status == "Message queued locally"@
                &&& final(store)@ == store_after_outgoing(
                    old(store)@,
                    shown_thread(old(store)@.threads, old(self)@.active),
                    trim_spec(text@, CharClass::Whitespace),
                    now,
                )
                &&& final(self)@.active == if shown_thread(old(store)@.threads, old(self)@.active) >= 0 {
                    listed_position(final(store)@.threads, shown_thread(old(store)@.threads, old(self)@.active))
                } else {
                    old(self)@.active
                }
                &&& shown_thread(old(store)@.threads, old(self)@.active) >= 0 ==> thread_order(
                    final(store)@.threads,
                )[final(self)@.active] == shown_thread(old(store)@.threads, old(self)@.active)
            },
    {
        let chars = chars_of(text);
        let trimmed = trim_chars(&chars, CharClass::Whitespace);
        if trimmed.len() == 0 {
            self.composer_status = String::from_str("Type a message first");
            return false;
        }
        let body = string_from_chars(&trimmed);
        let order = store.thread_order();
        proof {
            lemma_thread_order(store@.threads);
        }
        if self.active < order.len() {
            let stored = order[self.active];
            assert(stored as int == thread_order(store@.threads)[self.active as int]);
            let _ = store.append_outgoing_message(stored, body.as_str(), now);
            proof {
                lemma_thread_order(store@.threads);
            }
            self.active = store.listed_position(stored);
        }
        self.composer_status = String::from_str("Message queued locally");
        true
    }
}

} // verus!
