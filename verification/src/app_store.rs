//! The launcher's store of contacts and message threads, and the updates
//! that calling and messaging make to it.
use vstd::prelude::*;

use crate::sort::{
    lemma_order_is_total_preorder, lemma_sorted_seq_stable, lemma_stable_first, lemma_stable_last,
    lemma_stably_sorted_is_permutation, order_of, sorted_seq, stable_sort, stably_sorted_by, views,
    SortOrder,
};
use crate::search::{first_index, lemma_first_index, lemma_first_index_is};
use crate::text::{lex_le, lemma_lex_le_total, lemma_lex_le_trans, str_eq, str_le};

verus! {

/// A contact of the address book.
#[derive(Debug, PartialEq, Eq)]
pub struct ContactRecord {
    pub name: String,
    pub phone: String,
    pub note: String,
    pub created_at: i64,
    pub last_called_at: i64,
    pub last_message_at: i64,
    pub updated_at: i64,
}

/// What a contact is, as values.
pub struct ContactView {
    pub name: Seq<char>,
    pub phone: Seq<char>,
    pub note: Seq<char>,
    pub created_at: i64,
    pub last_called_at: i64,
    pub last_message_at: i64,
    pub updated_at: i64,
}

impl View for ContactRecord {
    type V = ContactView;

    open spec fn view(&self) -> ContactView {
        ContactView {
            name: self.name@,
            phone: self.phone@,
            note: self.note@,
            created_at: self.created_at,
            last_called_at: self.last_called_at,
            last_message_at: self.last_message_at,
            updated_at: self.updated_at,
        }
    }
}

impl Clone for ContactRecord {
    fn clone(&self) -> (r: Self)
        ensures
            r == *self,
    {
        ContactRecord {
            name: self.name.clone(),
            phone: self.phone.clone(),
            note: self.note.clone(),
            created_at: self.created_at,
            last_called_at: self.last_called_at,
            last_message_at: self.last_message_at,
            updated_at: self.updated_at,
        }
    }
}

/// The kind of a message thread.
#[derive(Debug, Clone, Copy, PartialEq, Eq, Structural)]
pub enum ThreadKind {
    Direct,
    Group,
    Relay,
    System,
}

/// A message of a thread.
#[derive(Debug, PartialEq, Eq)]
pub struct MessageRecord {
    pub author: String,
    pub body: String,
    pub outgoing: bool,
    pub created_at: i64,
    pub updated_at: i64,
}

/// What a message is, as values.
pub struct MessageView {
    pub author: Seq<char>,
    pub body: Seq<char>,
    pub outgoing: bool,
    pub created_at: i64,
    pub updated_at: i64,
}

impl View for MessageRecord {
    type V = MessageView;

    open spec fn view(&self) -> MessageView {
        MessageView {
            author: self.author@,
            body: self.body@,
            outgoing: self.outgoing,
            created_at: self.created_at,
            updated_at: self.updated_at,
        }
    }
}

impl Clone for MessageRecord {
    fn clone(&self) -> (r: Self)
        ensures
            r == *self,
    {
        MessageRecord {
            author: self.author.clone(),
            body: self.body.clone(),
            outgoing: self.outgoing,
            created_at: self.created_at,
            updated_at: self.updated_at,
        }
    }
}

/// A conversation.
#[derive(Debug, PartialEq, Eq)]
pub struct MessageThread {
    pub title: String,
    pub status: String,
    pub preview: String,
    pub messages: Vec<MessageRecord>,
    pub created_at: i64,
    pub last_message_at: i64,
    pub kind: ThreadKind,
    pub updated_at: i64,
}

/// What a thread is, as values.
pub struct ThreadView {
    pub title: Seq<char>,
    pub status: Seq<char>,
    pub preview: Seq<char>,
    pub messages: Seq<MessageView>,
    pub created_at: i64,
    pub last_message_at: i64,
    pub kind: ThreadKind,
    pub updated_at: i64,
}

impl View for MessageThread {
    type V = ThreadView;

    open spec fn view(&self) -> ThreadView {
        ThreadView {
            title: self.title@,
            status: self.status@,
            preview: self.preview@,
            messages: views(self.messages@),
            created_at: self.created_at,
            last_message_at: self.last_message_at,
            kind: self.kind,
            updated_at: self.updated_at,
        }
    }
}

/// Copies the messages of a thread.
fn clone_messages(messages: &Vec<MessageRecord>) -> (r: Vec<MessageRecord>)
    ensures
        r@ == messages@,
{
    let mut r: Vec<MessageRecord> = Vec::new();
    let mut i: usize = 0;
    while i < messages.len()
        invariant
            i <= messages.len(),
            r@ == messages@.take(i as int),
        decreases messages.len() - i,
    {
        r.push(messages[i].clone());
        assert(messages@.take(i + 1) =~= messages@.take(i as int).push(messages@[i as int]));
        i = i + 1;
    }
    assert(messages@.take(i as int) =~= messages@);
    r
}

impl Clone for MessageThread {
    fn clone(&self) -> (r: Self)
        ensures
            r@ == self@,
    {
        let messages = clone_messages(&self.messages);
        MessageThread {
            title: self.title.clone(),
            status: self.status.clone(),
            preview: self.preview.clone(),
            messages,
            created_at: self.created_at,
            last_message_at: self.last_message_at,
            kind: self.kind,
            updated_at: self.updated_at,
        }
    }
}


/// Contacts in alphabetical order of their names.
pub struct ContactsByName;

impl SortOrder<ContactRecord> for ContactsByName {
    open spec fn le(a: ContactView, b: ContactView) -> bool {
        lex_le(a.name, b.name)
    }

    proof fn lemma_total(a: ContactView, b: ContactView) {
        lemma_lex_le_total(a.name, b.name);
    }

    proof fn lemma_trans(a: ContactView, b: ContactView, c: ContactView) {
        lemma_lex_le_trans(a.name, b.name, c.name);
    }

    fn le_exec(a: &ContactRecord, b: &ContactRecord) -> (r: bool) {
        str_le(a.name.as_str(), b.name.as_str())
    }
}

/// Contacts most recently called first, then most recently messaged, then
/// most recently updated, then by name.
pub struct ContactsByRecency;

impl SortOrder<ContactRecord> for ContactsByRecency {
    open spec fn le(a: ContactView, b: ContactView) -> bool {
        if a.last_called_at != b.last_called_at {
            a.last_called_at > b.last_called_at
        } else if a.last_message_at != b.last_message_at {
            a.last_message_at > b.last_message_at
        } else if a.updated_at != b.updated_at {
            a.updated_at > b.updated_at
        } else {
            lex_le(a.name, b.name)
        }
    }

    proof fn lemma_total(a: ContactView, b: ContactView) {
        lemma_lex_le_total(a.name, b.name);
    }

    proof fn lemma_trans(a: ContactView, b: ContactView, c: ContactView) {
        if a.last_called_at == b.last_called_at && b.last_called_at == c.last_called_at
            && a.last_message_at == b.last_message_at && b.last_message_at == c.last_message_at
            && a.updated_at == b.updated_at && b.updated_at == c.updated_at {
            lemma_lex_le_trans(a.name, b.name, c.name);
        }
    }

    fn le_exec(a: &ContactRecord, b: &ContactRecord) -> (r: bool) {
        if a.last_called_at != b.last_called_at {
            a.last_called_at > b.last_called_at
        } else if a.last_message_at != b.last_message_at {
            a.last_message_at > b.last_message_at
        } else if a.updated_at != b.updated_at {
            a.updated_at > b.updated_at
        } else {
            str_le(a.name.as_str(), b.name.as_str())
        }
    }
}

/// Threads with the latest message first, then most recently updated, then
/// by title.
pub struct ThreadsByActivity;

impl SortOrder<MessageThread> for ThreadsByActivity {
    open spec fn le(a: ThreadView, b: ThreadView) -> bool {
        if a.last_message_at != b.last_message_at {
            a.last_message_at > b.last_message_at
        } else if a.updated_at != b.updated_at {
            a.updated_at > b.updated_at
        } else {
            lex_le(a.title, b.title)
        }
    }

    proof fn lemma_total(a: ThreadView, b: ThreadView) {
        lemma_lex_le_total(a.title, b.title);
    }

    proof fn lemma_trans(a: ThreadView, b: ThreadView, c: ThreadView) {
        if a.last_message_at == b.last_message_at && b.last_message_at == c.last_message_at
            && a.updated_at == b.updated_at && b.updated_at == c.updated_at {
            lemma_lex_le_trans(a.title, b.title, c.title);
        }
    }

    fn le_exec(a: &MessageThread, b: &MessageThread) -> (r: bool) {
        if a.last_message_at != b.last_message_at {
            a.last_message_at > b.last_message_at
        } else if a.updated_at != b.updated_at {
            a.updated_at > b.updated_at
        } else {
            str_le(a.title.as_str(), b.title.as_str())
        }
    }
}

/// Messages oldest first.
pub struct MessagesByTime;

impl SortOrder<MessageRecord> for MessagesByTime {
    open spec fn le(a: MessageView, b: MessageView) -> bool {
        a.created_at <= b.created_at
    }

    proof fn lemma_total(a: MessageView, b: MessageView) {
    }

    proof fn lemma_trans(a: MessageView, b: MessageView, c: MessageView) {
    }

    fn le_exec(a: &MessageRecord, b: &MessageRecord) -> (r: bool) {
        a.created_at <= b.created_at
    }
}


/// Contacts whose phone number is `phone`.
pub open spec fn has_phone(phone: Seq<char>) -> spec_fn(ContactView) -> bool {
    |c: ContactView| c.phone == phone
}

/// Contacts whose name is `name`.
pub open spec fn has_name(name: Seq<char>) -> spec_fn(ContactView) -> bool {
    |c: ContactView| c.name == name
}

/// Threads whose title is `title`.
pub open spec fn has_title(title: Seq<char>) -> spec_fn(ThreadView) -> bool {
    |t: ThreadView| t.title == title
}

/// The position of the first contact with phone number `phone`, or the
/// number of contacts.
fn find_contact_by_phone(contacts: &Vec<ContactRecord>, phone: &str) -> (k: usize)
    ensures
        k == first_index(views(contacts@), has_phone(phone@)),
{
    let mut i: usize = 0;
    while i < contacts.len()
        invariant
            i <= contacts.len(),
            forall|j: int| 0 <= j < i ==> !has_phone(phone@)(#[trigger] views(contacts@)[j]),
        decreases contacts.len() - i,
    {
        if str_eq(contacts[i].phone.as_str(), phone) {
            proof {
                lemma_first_index_is(views(contacts@), has_phone(phone@), i as int);
            }
            return i;
        }
        i = i + 1;
    }
    proof {
        lemma_first_index_is(views(contacts@), has_phone(phone@), i as int);
    }
    i
}

/// The position of the first contact named `name`, or the number of
/// contacts.
fn find_contact_by_name(contacts: &Vec<ContactRecord>, name: &str) -> (k: usize)
    ensures
        k == first_index(views(contacts@), has_name(name@)),
{
    let mut i: usize = 0;
    while i < contacts.len()
        invariant
            i <= contacts.len(),
            forall|j: int| 0 <= j < i ==> !has_name(name@)(#[trigger] views(contacts@)[j]),
        decreases contacts.len() - i,
    {
        if str_eq(contacts[i].name.as_str(), name) {
            proof {
                lemma_first_index_is(views(contacts@), has_name(name@), i as int);
            }
            return i;
        }
        i = i + 1;
    }
    proof {
        lemma_first_index_is(views(contacts@), has_name(name@), i as int);
    }
    i
}

/// The position of the first thread titled `title`, or the number of
/// threads.
fn find_thread_by_title(threads: &Vec<MessageThread>, title: &str) -> (k: usize)
    ensures
        k == first_index(views(threads@), has_title(title@)),
{
    let mut i: usize = 0;
    while i < threads.len()
        invariant
            i <= threads.len(),
            forall|j: int| 0 <= j < i ==> !has_title(title@)(#[trigger] views(threads@)[j]),
        decreases threads.len() - i,
    {
        if str_eq(threads[i].title.as_str(), title) {
            proof {
                lemma_first_index_is(views(threads@), has_title(title@), i as int);
            }
            return i;
        }
        i = i + 1;
    }
    proof {
        lemma_first_index_is(views(threads@), has_title(title@), i as int);
    }
    i
}


/// A contact created at `timestamp`.
pub open spec fn contact_view(name: Seq<char>, phone: Seq<char>, note: Seq<char>, timestamp: i64) -> ContactView {
    ContactView {
        name,
        phone,
        note,
        created_at: timestamp,
        last_called_at: 0,
        last_message_at: timestamp,
        updated_at: timestamp,
    }
}

/// A message written at `timestamp`.
pub open spec fn message_view(author: Seq<char>, body: Seq<char>, outgoing: bool, timestamp: i64) -> MessageView {
    MessageView { author, body, outgoing, created_at: timestamp, updated_at: timestamp }
}

/// Builds a contact created at `timestamp`, never called.
pub fn contact(name: &str, phone: &str, note: &str, timestamp: i64) -> (r: ContactRecord)
    ensures
        r@ == contact_view(name@, phone@, note@, timestamp),
{
    ContactRecord {
        name: String::from_str(name),
        phone: String::from_str(phone),
        note: String::from_str(note),
        created_at: timestamp,
        last_called_at: 0,
        last_message_at: timestamp,
        updated_at: timestamp,
    }
}

/// Builds a message written at `timestamp`.
pub fn message(author: &str, body: &str, outgoing: bool, timestamp: i64) -> (r: MessageRecord)
    ensures
        r@ == message_view(author@, body@, outgoing, timestamp),
{
    MessageRecord {
        author: String::from_str(author),
        body: String::from_str(body),
        outgoing,
        created_at: timestamp,
        updated_at: timestamp,
    }
}

/// The contacts and message threads of the launcher.
#[derive(Debug)]
pub struct LauncherStore {
    contacts: Vec<ContactRecord>,
    threads: Vec<MessageThread>,
}

/// What a store holds, as values.
pub struct StoreView {
    pub contacts: Seq<ContactView>,
    pub threads: Seq<ThreadView>,
}

impl View for LauncherStore {
    type V = StoreView;

    closed spec fn view(&self) -> StoreView {
        StoreView { contacts: views(self.contacts@), threads: views(self.threads@) }
    }
}

/// Copies contacts.
fn clone_contacts(contacts: &Vec<ContactRecord>) -> (r: Vec<ContactRecord>)
    ensures
        r@ == contacts@,
{
    let mut r: Vec<ContactRecord> = Vec::new();
    let mut i: usize = 0;
    while i < contacts.len()
        invariant
            i <= contacts.len(),
            r@ == contacts@.take(i as int),
        decreases contacts.len() - i,
    {
        r.push(contacts[i].clone());
        assert(contacts@.take(i + 1) =~= contacts@.take(i as int).push(contacts@[i as int]));
        i = i + 1;
    }
    assert(contacts@.take(i as int) =~= contacts@);
    r
}

/// Copies threads.
fn clone_threads(threads: &Vec<MessageThread>) -> (r: Vec<MessageThread>)
    ensures
        views(r@) == views(threads@),
{
    let mut r: Vec<MessageThread> = Vec::new();
    let mut i: usize = 0;
    while i < threads.len()
        invariant
            i <= threads.len(),
            views(r@) == views(threads@).take(i as int),
        decreases threads.len() - i,
    {
        let t = threads[i].clone();
        proof {
            assert(views(r@.push(t)) =~= views(r@).push(t@));
        }
        r.push(t);
        assert(views(threads@).take(i + 1) =~= views(threads@).take(i as int).push(views(threads@)[i as int]));
        i = i + 1;
    }
    assert(views(threads@).take(i as int) =~= views(threads@));
    r
}

impl Clone for LauncherStore {
    fn clone(&self) -> (r: Self)
        ensures
            r@ == self@,
    {
        LauncherStore { contacts: clone_contacts(&self.contacts), threads: clone_threads(&self.threads) }
    }
}

/// A contact as it stands after a call at `now`.
pub open spec fn called_contact(c: ContactView, now: i64) -> ContactView {
    ContactView { note: "Called now"@, last_called_at: now, updated_at: now, ..c }
}

/// A contact as it stands after a message at `ts`.
pub open spec fn messaged_contact(c: ContactView, ts: i64) -> ContactView {
    ContactView { last_message_at: ts, updated_at: ts, ..c }
}

/// The store after a call to `phone` at `now`: the first contact with that
/// number is marked called; without such a contact nothing changes.
pub open spec fn store_after_call(s: StoreView, phone: Seq<char>, now: i64) -> StoreView {
    let k = first_index(s.contacts, has_phone(phone));
    if k < s.contacts.len() {
        StoreView { contacts: s.contacts.update(k, called_contact(s.contacts[k], now)), threads: s.threads }
    } else {
        s
    }
}

impl LauncherStore {
    /// A store that holds `contacts` and `threads`.
    pub fn from_records(contacts: Vec<ContactRecord>, threads: Vec<MessageThread>) -> (r: Self)
        ensures
            r@ == (StoreView { contacts: views(contacts@), threads: views(threads@) }),
    {
        LauncherStore { contacts, threads }
    }

    /// The contacts, in the order in which they are stored.
    pub fn contacts(&self) -> (r: &Vec<ContactRecord>)
        ensures
            views(r@) == self@.contacts,
    {
        &self.contacts
    }

    /// The threads, in the order in which they are stored.
    pub fn threads(&self) -> (r: &Vec<MessageThread>)
        ensures
            views(r@) == self@.threads,
    {
        &self.threads
    }

    /// Marks the first contact with phone number `phone` as called at `now`;
    /// tells whether there was such a contact.
    pub fn mark_called(&mut self, phone: &str, now: i64) -> (changed: bool)
        ensures
            final(self)@ == store_after_call(old(self)@, phone@, now),
            changed == (first_index(old(self)@.contacts, has_phone(phone@)) < old(self)@.contacts.len()),
    {
        let ghost before = self@;
        let k = find_contact_by_phone(&self.contacts, phone);
        proof {
            lemma_first_index(before.contacts, has_phone(phone@));
        }
        if k < self.contacts.len() {
            let mut c = self.contacts.remove(k);
            c.note = String::from_str("Called now");
            c.last_called_at = now;
            c.updated_at = now;
            self.contacts.insert(k, c);
            assert(self@.contacts =~= before.contacts.update(k as int, called_contact(before.contacts[k as int], now)));
            true
        } else {
            false
        }
    }

    /// Makes sure a direct thread with the contact exists and returns its
    /// position. A thread titled with the contact's name becomes a direct
    /// thread, updated at `now`; without one, a new direct thread is
    /// appended and the first contact with the contact's phone number is
    /// marked as messaged at `now + 1`.
    pub fn ensure_direct_thread(&mut self, contact: &ContactRecord, now: i64) -> (index: usize)
        requires
            direct_thread_index(old(self)@, contact.name@) >= old(self)@.threads.len() ==> now < i64::MAX,
        ensures
            final(self)@ == store_after_direct_thread(old(self)@, contact.name@, contact.phone@, now),
            index == direct_thread_index(old(self)@, contact.name@),
            index < final(self)@.threads.len(),
    {
        let ghost before = self@;
        let k = find_thread_by_title(&self.threads, contact.name.as_str());
        proof {
            lemma_first_index(before.threads, has_title(contact.name@));
        }
        if k < self.threads.len() {
            let mut t = self.threads.remove(k);
            t.kind = ThreadKind::Direct;
            t.updated_at = now;
            let ghost tv = t@;
            self.threads.insert(k, t);
            assert(self@.threads =~= before.threads.update(k as int, tv));
            return k;
        }
        let mut preview = String::from_str("Conversation with ");
        preview.append(contact.name.as_str());
        let mut body = String::from_str("Direct line ready at ");
        body.append(contact.phone.as_str());
        body.append(".");
        let mut messages: Vec<MessageRecord> = Vec::new();
        messages.push(message(contact.name.as_str(), body.as_str(), false, now));
        messages.push(message("You", "Draft channel opened from Contacts.", true, now + 1));
        let thread = MessageThread {
            title: contact.name.clone(),
            status: String::from_str("Direct"),
            preview,
            messages,
            created_at: now,
            last_message_at: now + 1,
            kind: ThreadKind::Direct,
            updated_at: now + 1,
        };
        assert(thread@.messages =~= direct_thread_view(contact.name@, contact.phone@, now).messages);
        let ghost tv = thread@;
        self.threads.push(thread);
        assert(self@.threads =~= before.threads.push(tv));
        let c = find_contact_by_phone(&self.contacts, contact.phone.as_str());
        proof {
            lemma_first_index(before.contacts, has_phone(contact.phone@));
        }
        if c < self.contacts.len() {
            let mut record = self.contacts.remove(c);
            record.last_message_at = now + 1;
            record.updated_at = now + 1;
            self.contacts.insert(c, record);
            assert(self@.contacts =~= before.contacts.update(c as int, messaged_contact(before.contacts[c as int], (now + 1) as i64)));
        }
        self.threads.len() - 1
    }

    /// Appends an outgoing message with `body`, written at `now`, to the
    /// thread at `thread_index`, which then shows it as its preview; a direct
    /// thread's contact is marked as messaged. Tells whether there was such a
    /// thread; without one nothing changes.
    pub fn append_outgoing_message(&mut self, thread_index: usize, body: &str, now: i64) -> (changed: bool)
        ensures
            final(self)@ == store_after_outgoing(old(self)@, thread_index as int, body@, now),
            changed == (thread_index < old(self)@.threads.len()),
    {
        let ghost before = self@;
        if thread_index >= self.threads.len() {
            return false;
        }
        let mut t = self.threads.remove(thread_index);
        let ghost messages_before = t@.messages;
        t.messages.push(message("You", body, true, now));
        assert(t@.messages =~= messages_before.push(message_view("You"@, body@, true, now)));
        t.preview = String::from_str(body);
        t.status = String::from_str("Updated");
        t.last_message_at = now;
        t.updated_at = now;
        let is_direct = t.kind == ThreadKind::Direct;
        if is_direct {
            let c = find_contact_by_name(&self.contacts, t.title.as_str());
            proof {
                lemma_first_index(before.contacts, has_name(t.title@));
            }
            if c < self.contacts.len() {
                let mut record = self.contacts.remove(c);
                record.last_message_at = now;
                record.updated_at = now;
                self.contacts.insert(c, record);
                assert(self@.contacts =~= before.contacts.update(c as int, messaged_contact(before.contacts[c as int], now)));
            }
        }
        let ghost tv = t@;
        self.threads.insert(thread_index, t);
        assert(self@.threads =~= before.threads.update(thread_index as int, tv));
        true
    }

}

/// The direct thread opened with a contact at `now`.
pub open spec fn direct_thread_view(name: Seq<char>, phone: Seq<char>, now: i64) -> ThreadView {
    ThreadView {
        title: name,
        status: "Direct"@,
        preview: "Conversation with "@ + name,
        messages: seq![
            message_view(name, "Direct line ready at "@ + phone + "."@, false, now),
            message_view("You"@, "Draft channel opened from Contacts."@, true, (now + 1) as i64),
        ],
        created_at: now,
        last_message_at: (now + 1) as i64,
        kind: ThreadKind::Direct,
        updated_at: (now + 1) as i64,
    }
}

/// Where the direct thread with the contact named `name` stands.
pub open spec fn direct_thread_index(s: StoreView, name: Seq<char>) -> int {
    first_index(s.threads, has_title(name))
}

/// The store after making sure of a direct thread with a contact at `now`.
pub open spec fn store_after_direct_thread(s: StoreView, name: Seq<char>, phone: Seq<char>, now: i64) -> StoreView {
    let k = first_index(s.threads, has_title(name));
    if k < s.threads.len() {
        StoreView {
            contacts: s.contacts,
            threads: s.threads.update(k, ThreadView { kind: ThreadKind::Direct, updated_at: now, ..s.threads[k] }),
        }
    } else {
        let c = first_index(s.contacts, has_phone(phone));
        StoreView {
            contacts: if c < s.contacts.len() {
                s.contacts.update(c, messaged_contact(s.contacts[c], (now + 1) as i64))
            } else {
                s.contacts
            },
            threads: s.threads.push(direct_thread_view(name, phone, now)),
        }
    }
}

/// A thread after an outgoing message with `body` at `now`.
pub open spec fn thread_after_outgoing(t: ThreadView, body: Seq<char>, now: i64) -> ThreadView {
    ThreadView {
        messages: t.messages.push(message_view("You"@, body, true, now)),
        preview: body,
        status: "Updated"@,
        last_message_at: now,
        updated_at: now,
        ..t
    }
}

/// The store after an outgoing message with `body` at `now` in the thread at
/// `index`.
pub open spec fn store_after_outgoing(s: StoreView, index: int, body: Seq<char>, now: i64) -> StoreView {
    if 0 <= index < s.threads.len() {
        let t = s.threads[index];
        let c = first_index(s.contacts, has_name(t.title));
        StoreView {
            contacts: if t.kind == ThreadKind::Direct && c < s.contacts.len() {
                s.contacts.update(c, messaged_contact(s.contacts[c], now))
            } else {
                s.contacts
            },
            threads: s.threads.update(index, thread_after_outgoing(t, body, now)),
        }
    } else {
        s
    }
}


/// A thread together with the position at which it is stored.
pub struct ThreadRow {
    pub index: usize,
    pub thread: MessageThread,
}

impl View for ThreadRow {
    type V = (int, ThreadView);

    open spec fn view(&self) -> (int, ThreadView) {
        (self.index as int, self.thread@)
    }
}

/// Stored threads in the order of their threads.
pub struct RowsByActivity;

impl SortOrder<ThreadRow> for RowsByActivity {
    open spec fn le(a: (int, ThreadView), b: (int, ThreadView)) -> bool {
        ThreadsByActivity::le(a.1, b.1)
    }

    proof fn lemma_total(a: (int, ThreadView), b: (int, ThreadView)) {
        ThreadsByActivity::lemma_total(a.1, b.1);
    }

    proof fn lemma_trans(a: (int, ThreadView), b: (int, ThreadView), c: (int, ThreadView)) {
        ThreadsByActivity::lemma_trans(a.1, b.1, c.1);
    }

    fn le_exec(a: &ThreadRow, b: &ThreadRow) -> (r: bool) {
        ThreadsByActivity::le_exec(&a.thread, &b.thread)
    }
}

/// Each thread with the position at which it is stored.
pub open spec fn indexed_threads(s: Seq<ThreadView>) -> Seq<(int, ThreadView)> {
    Seq::new(s.len(), |i: int| (i, s[i]))
}

/// The positions at which the threads are stored, in the order in which
/// the threads list shows them: latest message first, then most recently
/// updated, then by title, ties in stored order.
pub open spec fn thread_order(s: Seq<ThreadView>) -> Seq<int> {
    sorted_seq(indexed_threads(s), order_of::<ThreadRow, RowsByActivity>()).map_values(
        |r: (int, ThreadView)| r.0,
    )
}

/// A thread with its messages sorted oldest first, messages of the same
/// second in stored order.
pub open spec fn with_sorted_messages(t: ThreadView) -> ThreadView {
    ThreadView { messages: sorted_seq(t.messages, order_of::<MessageRecord, MessagesByTime>()), ..t }
}

/// The threads list: the threads in `thread_order`, each with its messages
/// sorted.
pub open spec fn threads_listing(s: Seq<ThreadView>) -> Seq<ThreadView> {
    thread_order(s).map_values(|i: int| with_sorted_messages(s[i]))
}

/// Stored positions equal to `k`.
pub open spec fn is_position(k: int) -> spec_fn(int) -> bool {
    |i: int| i == k
}

/// The row of the threads list that shows the thread stored at `k`.
pub open spec fn listed_position(s: Seq<ThreadView>, k: int) -> int {
    first_index(thread_order(s), is_position(k))
}

/// The stored position of the thread shown at `row` of the threads list;
/// -1 where there is no such row.
pub open spec fn shown_thread(s: Seq<ThreadView>, row: int) -> int {
    if 0 <= row < thread_order(s).len() {
        thread_order(s)[row]
    } else {
        -1
    }
}

/// What the threads order is: one row for each stored thread, each naming a
/// stored position; every stored position has a row; ordered as the
/// threads themselves are sorted.
pub proof fn lemma_thread_order(s: Seq<ThreadView>)
    ensures
        thread_order(s).len() == s.len(),
        forall|p: int| 0 <= p < s.len() ==> 0 <= #[trigger] thread_order(s)[p] < s.len(),
        forall|p: int|
            0 <= p < s.len() ==> #[trigger] sorted_seq(indexed_threads(s), order_of::<ThreadRow, RowsByActivity>())[p]
                == (thread_order(s)[p], s[thread_order(s)[p]]),
        forall|k: int| 0 <= k < s.len() ==> 0 <= #[trigger] listed_position(s, k) < s.len() && thread_order(s)[listed_position(s, k)] == k,
{
    broadcast use vstd::seq_lib::group_to_multiset_ensures;

    let le = order_of::<ThreadRow, RowsByActivity>();
    let inp = indexed_threads(s);
    let out = sorted_seq(inp, le);
    lemma_order_is_total_preorder::<ThreadRow, RowsByActivity>();
    lemma_sorted_seq_stable(inp, le);
    assert forall|p: int| 0 <= p < s.len() implies #[trigger] out[p] == (thread_order(s)[p], s[thread_order(s)[p]]) && 0 <= thread_order(s)[p] < s.len() by {
        assert(out.contains(out[p]));
        assert(inp.to_multiset().count(out[p]) > 0);
        assert(inp.contains(out[p]));
        let i = choose|i: int| 0 <= i < inp.len() && inp[i] == out[p];
        assert(inp[i] == (i, s[i]));
    }
    assert forall|k: int| 0 <= k < s.len() implies 0 <= #[trigger] listed_position(s, k) < s.len() && thread_order(s)[listed_position(s, k)] == k by {
        assert(inp[k] == (k, s[k]));
        assert(inp.contains(inp[k]));
        assert(out.to_multiset().count(inp[k]) > 0);
        assert(out.contains(inp[k]));
        let p = choose|p: int| 0 <= p < out.len() && out[p] == inp[k];
        assert(thread_order(s)[p] == k);
        lemma_first_index(thread_order(s), is_position(k));
        if listed_position(s, k) >= s.len() {
            assert(!is_position(k)(thread_order(s)[p]));
        }
    }
}

impl LauncherStore {
    /// The contacts in alphabetical order of their names; contacts with the
    /// same name keep their stored order.
    pub fn contacts_snapshot(&self) -> (r: Vec<ContactRecord>)
        ensures
            views(r@) == sorted_seq(self@.contacts, order_of::<ContactRecord, ContactsByName>()),
            stably_sorted_by(views(r@), self@.contacts, order_of::<ContactRecord, ContactsByName>()),
            views(r@).to_multiset() == self@.contacts.to_multiset(),
    {
        let copy = clone_contacts(&self.contacts);
        let r = stable_sort::<ContactRecord, ContactsByName>(copy);
        proof {
            lemma_order_is_total_preorder::<ContactRecord, ContactsByName>();
            lemma_stably_sorted_is_permutation(views(r@), self@.contacts, order_of::<ContactRecord, ContactsByName>());
        }
        r
    }

    /// The contacts most recently called first, then most recently messaged,
    /// then most recently updated, then by name; ties keep their stored
    /// order.
    pub fn recents_snapshot(&self) -> (r: Vec<ContactRecord>)
        ensures
            views(r@) == sorted_seq(self@.contacts, order_of::<ContactRecord, ContactsByRecency>()),
            stably_sorted_by(views(r@), self@.contacts, order_of::<ContactRecord, ContactsByRecency>()),
            views(r@).to_multiset() == self@.contacts.to_multiset(),
    {
        let copy = clone_contacts(&self.contacts);
        let r = stable_sort::<ContactRecord, ContactsByRecency>(copy);
        proof {
            lemma_order_is_total_preorder::<ContactRecord, ContactsByRecency>();
            lemma_stably_sorted_is_permutation(views(r@), self@.contacts, order_of::<ContactRecord, ContactsByRecency>());
        }
        r
    }

    /// The positions at which the threads are stored, in the order in which
    /// the threads list shows them.
    pub fn thread_order(&self) -> (r: Vec<usize>)
        ensures
            r@.map_values(|i: usize| i as int) == thread_order(self@.threads),
    {
        let ghost s = self@.threads;
        let mut rows: Vec<ThreadRow> = Vec::new();
        let mut i: usize = 0;
        while i < self.threads.len()
            invariant
                i <= self.threads.len(),
                s == views(self.threads@),
                views(rows@) == indexed_threads(s).take(i as int),
            decreases self.threads.len() - i,
        {
            let row = ThreadRow { index: i, thread: self.threads[i].clone() };
            let ghost before = rows@;
            rows.push(row);
            assert(views(rows@) =~= views(before).push(row@));
            assert(indexed_threads(s).take(i + 1) =~= indexed_threads(s).take(i as int).push((i as int, s[i as int])));
            i = i + 1;
        }
        assert(indexed_threads(s).take(i as int) =~= indexed_threads(s));
        let sorted = stable_sort::<ThreadRow, RowsByActivity>(rows);
        let mut r: Vec<usize> = Vec::new();
        let mut p: usize = 0;
        while p < sorted.len()
            invariant
                p <= sorted.len(),
                views(sorted@) == sorted_seq(indexed_threads(s), order_of::<ThreadRow, RowsByActivity>()),
                r@.map_values(|i: usize| i as int) == thread_order(s).take(p as int),
            decreases sorted.len() - p,
        {
            let ghost before = r@;
            r.push(sorted[p].index);
            assert(views(sorted@)[p as int] == sorted@[p as int]@);
            assert(r@.map_values(|i: usize| i as int) =~= before.map_values(|i: usize| i as int).push(
                sorted@[p as int].index as int,
            ));
            assert(thread_order(s).take(p + 1) =~= thread_order(s).take(p as int).push(thread_order(s)[p as int]));
            p = p + 1;
        }
        assert(thread_order(s).take(p as int) =~= thread_order(s));
        r
    }

    /// The row of the threads list that shows the thread stored at `k`.
    pub fn listed_position(&self, k: usize) -> (p: usize)
        requires
            k < self@.threads.len(),
        ensures
            p == listed_position(self@.threads, k as int),
            p < self@.threads.len(),
            thread_order(self@.threads)[p as int] == k,
    {
        proof {
            lemma_thread_order(self@.threads);
        }
        let order = self.thread_order();
        let ghost o = thread_order(self@.threads);
        let mut p: usize = 0;
        while p < order.len()
            invariant
                p <= order.len(),
                order@.map_values(|i: usize| i as int) == o,
                o == thread_order(self@.threads),
                o.len() == self@.threads.len(),
                forall|j: int| 0 <= j < p ==> !is_position(k as int)(#[trigger] o[j]),
            decreases order.len() - p,
        {
            assert(o[p as int] == order@[p as int] as int);
            if order[p] == k {
                proof {
                    crate::search::lemma_first_index_is(o, is_position(k as int), p as int);
                    assert(o[p as int] == k);
                }
                return p;
            }
            p = p + 1;
        }
        proof {
            crate::search::lemma_first_index_is(o, is_position(k as int), p as int);
            assert(0 <= listed_position(self@.threads, k as int) < self@.threads.len());
        }
        p
    }

    /// The threads list: the threads with the latest message first, then
    /// the most recently updated, then by title, ties in stored order; each
    /// with its messages oldest first, messages of the same second in stored
    /// order.
    pub fn threads_snapshot(&self) -> (r: Vec<MessageThread>)
        ensures
            views(r@) == threads_listing(self@.threads),
    {
        let ghost s = self@.threads;
        proof {
            lemma_thread_order(s);
        }
        let order = self.thread_order();
        let ghost o = thread_order(s);
        let mut r: Vec<MessageThread> = Vec::new();
        let mut p: usize = 0;
        while p < order.len()
            invariant
                p <= order.len(),
                s == views(self.threads@),
                order@.map_values(|i: usize| i as int) == o,
                o == thread_order(s),
                o.len() == s.len(),
                forall|q: int| 0 <= q < s.len() ==> 0 <= #[trigger] o[q] < s.len(),
                views(r@) == threads_listing(s).take(p as int),
            decreases order.len() - p,
        {
            let k = order[p];
            assert(o[p as int] == k as int);
            let t = &self.threads[k];
            let stored = clone_messages(&t.messages);
            assert(views(stored@) == s[k as int].messages);
            let messages = stable_sort::<MessageRecord, MessagesByTime>(stored);
            let sorted = MessageThread {
                title: t.title.clone(),
                status: t.status.clone(),
                preview: t.preview.clone(),
                messages,
                created_at: t.created_at,
                last_message_at: t.last_message_at,
                kind: t.kind,
                updated_at: t.updated_at,
            };
            assert(sorted@ == with_sorted_messages(s[k as int]));
            let ghost before = r@;
            r.push(sorted);
            assert(views(r@) =~= views(before).push(sorted@));
            assert(threads_listing(s).take(p + 1) =~= threads_listing(s).take(p as int).push(threads_listing(s)[p as int]));
            p = p + 1;
        }
        assert(threads_listing(s).take(p as int) =~= threads_listing(s));
        r
    }
}

/// What a first start fills the store with, at `now`.
pub open spec fn seeded_view(network_online: bool, now: i64) -> StoreView {
    StoreView {
        contacts: seq![
            contact_view("Operator Desk"@, "+7 912 440 77 90"@, "Primary"@, (now - 240) as i64),
            contact_view("Base Station"@, "+7 912 440 12 01"@, "Pinned"@, (now - 180) as i64),
            contact_view("Field Team"@, "+7 912 440 53 20"@, "Shared"@, (now - 120) as i64),
            contact_view("Emergency Link"@, "112"@, "Priority"@, (now - 60) as i64),
        ],
        threads: seq![
            ThreadView {
                title: "Field Team"@,
                status: "3 unread"@,
                preview: "Rendezvous updated for 22:30, confirm route lock."@,
                messages: seq![
                    message_view("Field Team"@, "Rendezvous updated for 22:30."@, false, (now - 300) as i64),
                    message_view("You"@, "Received. Syncing route and battery window."@, true, (now - 240) as i64),
                    message_view("Field Team"@, "Confirm route lock when ready."@, false, (now - 180) as i64),
                ],
                created_at: (now - 300) as i64,
                last_message_at: (now - 180) as i64,
                kind: ThreadKind::Group,
                updated_at: (now - 180) as i64,
            },
            ThreadView {
                title: "Contacts Queue"@,
                status: "Updated"@,
                preview: "Three follow-ups extracted from recent assistant activity."@,
                messages: seq![
                    message_view("Contacts Queue"@, "Three follow-ups extracted from assistant context."@, false, (now - 160) as i64),
                    message_view("You"@, "Queue them for morning review."@, true, (now - 130) as i64),
                ],
                created_at: (now - 160) as i64,
                last_message_at: (now - 130) as i64,
                kind: ThreadKind::System,
                updated_at: (now - 130) as i64,
            },
            ThreadView {
                title: "Relay Bridge"@,
                status: if network_online { "Linked"@ } else { "Standby"@ },
                preview: "Relay tunnel prepared for device-to-device handoff."@,
                messages: seq![
                    message_view("Relay Bridge"@, "Relay tunnel prepared for device handoff."@, false, (now - 110) as i64),
                    message_view(
                        "Relay Bridge"@,
                        if network_online {
                            "Transport available. Ready for outbound sync."@
                        } else {
                            "Transport unavailable. Waiting for network."@
                        },
                        false,
                        (now - 90) as i64,
                    ),
                ],
                created_at: (now - 110) as i64,
                last_message_at: (now - 90) as i64,
                kind: ThreadKind::Relay,
                updated_at: (now - 90) as i64,
            },
        ],
    }
}

impl LauncherStore {
    /// The store of a first start at `now`: four contacts and three threads,
    /// the relay thread telling whether the network is online.
    pub fn seeded(network_online: bool, now: i64) -> (r: Self)
        requires
            now >= i64::MIN + 300,
        ensures
            r@ == seeded_view(network_online, now),
    {
        let mut contacts: Vec<ContactRecord> = Vec::new();
        contacts.push(contact("Operator Desk", "+7 912 440 77 90", "Primary", now - 240));
        contacts.push(contact("Base Station", "+7 912 440 12 01", "Pinned", now - 180));
        contacts.push(contact("Field Team", "+7 912 440 53 20", "Shared", now - 120));
        contacts.push(contact("Emergency Link", "112", "Priority", now - 60));

        let mut field: Vec<MessageRecord> = Vec::new();
        field.push(message("Field Team", "Rendezvous updated for 22:30.", false, now - 300));
        field.push(message("You", "Received. Syncing route and battery window.", true, now - 240));
        field.push(message("Field Team", "Confirm route lock when ready.", false, now - 180));

        let mut queue: Vec<MessageRecord> = Vec::new();
        queue.push(message("Contacts Queue", "Three follow-ups extracted from assistant context.", false, now - 160));
        queue.push(message("You", "Queue them for morning review.", true, now - 130));

        let mut relay: Vec<MessageRecord> = Vec::new();
        relay.push(message("Relay Bridge", "Relay tunnel prepared for device handoff.", false, now - 110));
        relay.push(message(
            "Relay Bridge",
            if network_online {
                "Transport available. Ready for outbound sync."
            } else {
                "Transport unavailable. Waiting for network."
            },
            false,
            now - 90,
        ));

        let mut threads: Vec<MessageThread> = Vec::new();
        threads.push(MessageThread {
            title: String::from_str("Field Team"),
            status: String::from_str("3 unread"),
            preview: String::from_str("Rendezvous updated for 22:30, confirm route lock."),
            messages: field,
            created_at: now - 300,
            last_message_at: now - 180,
            kind: ThreadKind::Group,
            updated_at: now - 180,
        });
        threads.push(MessageThread {
            title: String::from_str("Contacts Queue"),
            status: String::from_str("Updated"),
            preview: String::from_str("Three follow-ups extracted from recent assistant activity."),
            messages: queue,
            created_at: now - 160,
            last_message_at: now - 130,
            kind: ThreadKind::System,
            updated_at: now - 130,
        });
        threads.push(MessageThread {
            title: String::from_str("Relay Bridge"),
            status: String::from_str(if network_online { "Linked" } else { "Standby" }),
            preview: String::from_str("Relay tunnel prepared for device-to-device handoff."),
            messages: relay,
            created_at: now - 110,
            last_message_at: now - 90,
            kind: ThreadKind::Relay,
            updated_at: now - 90,
        });
        let r = LauncherStore { contacts, threads };
        assert(r@.contacts =~= seeded_view(network_online, now).contacts);
        assert(r@.threads[0].messages =~= seeded_view(network_online, now).threads[0].messages);
        assert(r@.threads[1].messages =~= seeded_view(network_online, now).threads[1].messages);
        assert(r@.threads[2].messages =~= seeded_view(network_online, now).threads[2].messages);
        assert(r@.threads =~= seeded_view(network_online, now).threads);
        r
    }

    /// The store that was loaded, or else the store of a first start at
    /// `now`.
    pub fn load_or_init(loaded: Option<LauncherStore>, network_online: bool, now: i64) -> (r: Self)
        requires
            now >= i64::MIN + 300,
        ensures
            r@ == match loaded {
                Some(store) => store@,
                None => seeded_view(network_online, now),
            },
    {
        match loaded {
            Some(store) => store,
            None => Self::seeded(network_online, now),
        }
    }
}

impl ThreadKind {
    /// The text that stands for the kind in the database.
    pub fn as_db_value(self) -> (r: &'static str)
        ensures
            r@ == db_value(self),
    {
        match self {
            ThreadKind::Direct => "direct",
            ThreadKind::Group => "group",
            ThreadKind::Relay => "relay",
            ThreadKind::System => "system",
        }
    }

    /// The kind a database text stands for; an unknown text is a system
    /// thread.
    pub fn from_db_value(value: &str) -> (r: ThreadKind)
        ensures
            r == kind_of_db_value(value@),
    {
        if str_eq(value, "direct") {
            ThreadKind::Direct
        } else if str_eq(value, "group") {
            ThreadKind::Group
        } else if str_eq(value, "relay") {
            ThreadKind::Relay
        } else {
            ThreadKind::System
        }
    }
}

/// The database text of a thread kind.
pub open spec fn db_value(kind: ThreadKind) -> Seq<char> {
    match kind {
        ThreadKind::Direct => "direct"@,
        ThreadKind::Group => "group"@,
        ThreadKind::Relay => "relay"@,
        ThreadKind::System => "system"@,
    }
}

/// The thread kind a database text stands for.
pub open spec fn kind_of_db_value(value: Seq<char>) -> ThreadKind {
    if value == "direct"@ {
        ThreadKind::Direct
    } else if value == "group"@ {
        ThreadKind::Group
    } else if value == "relay"@ {
        ThreadKind::Relay
    } else {
        ThreadKind::System
    }
}

/// Reading back the text that a kind is stored as gives the kind.
pub proof fn lemma_db_value_round_trip(kind: ThreadKind)
    ensures
        kind_of_db_value(db_value(kind)) == kind,
{
    reveal_strlit("direct");
    reveal_strlit("group");
    reveal_strlit("relay");
    reveal_strlit("system");
    assert("group"@[0] != "direct"@[0]);
    assert("relay"@[0] != "direct"@[0]);
    assert("relay"@[0] != "group"@[0]);
    assert("system"@[0] != "direct"@[0]);
    assert("system"@[0] != "group"@[0]);
    assert("system"@[0] != "relay"@[0]);
}


/// The schema version in which the store is written.
pub const SCHEMA_VERSION: i32 = 3;

/// A step of the store's schema migration.
#[derive(Debug, Clone, Copy, PartialEq, Eq, Structural)]
pub enum Migration {
    /// To version 1: the contacts, threads and messages tables.
    CreateTables,
    /// To version 2: creation and update times.
    AddTimestamps,
    /// To version 3: last-call and last-message times and thread kinds.
    AddActivity,
}

/// The step that brings the schema to `version`; none for a version that
/// has no step.
pub fn migration_for(version: i32) -> (r: Option<Migration>)
    ensures
        r == if version == 1 {
            Some(Migration::CreateTables)
        } else if version == 2 {
            Some(Migration::AddTimestamps)
        } else if version == 3 {
            Some(Migration::AddActivity)
        } else {
            None
        },
{
    if version == 1 {
        Some(Migration::CreateTables)
    } else if version == 2 {
        Some(Migration::AddTimestamps)
    } else if version == 3 {
        Some(Migration::AddActivity)
    } else {
        None
    }
}

/// The versions, in order, that a schema at `current_version` goes through
/// to reach the current one: each version after it up to `SCHEMA_VERSION`.
/// A schema newer than the current one cannot be migrated: nothing.
pub open spec fn migration_steps_of(current_version: int) -> Option<Seq<int>> {
    if current_version > SCHEMA_VERSION {
        None
    } else {
        Some(Seq::new((SCHEMA_VERSION - current_version) as nat, |i: int| current_version + 1 + i))
    }
}

/// The versions that a schema at `current_version` goes through.
pub fn migration_steps(current_version: i32) -> (r: Option<Vec<i32>>)
    ensures
        match r {
            Some(v) => migration_steps_of(current_version as int) == Some(v@.map_values(|x: i32| x as int)),
            None => migration_steps_of(current_version as int) is None,
        },
{
    if current_version > SCHEMA_VERSION {
        return None;
    }
    let mut steps: Vec<i32> = Vec::new();
    let mut v: i32 = current_version;
    while v < SCHEMA_VERSION
        invariant
            current_version <= v <= SCHEMA_VERSION,
            steps@.map_values(|x: i32| x as int) == Seq::new(
                (v - current_version) as nat,
                |i: int| current_version + 1 + i,
            ),
        decreases SCHEMA_VERSION - v,
    {
        let ghost before = steps@;
        let ghost k = (v - current_version) as nat;
        v = v + 1;
        steps.push(v);
        assert(steps@.map_values(|x: i32| x as int) =~= before.map_values(|x: i32| x as int).push(
            v as int,
        ));
        assert(Seq::new(k + 1, |i: int| current_version + 1 + i) =~= Seq::new(
            k,
            |i: int| current_version + 1 + i,
        ).push(v as int));
    }
    Some(steps)
}

/// Migrating from any version that can be migrated ends at the current
/// version, and each step has a migration.
pub proof fn lemma_migration_steps_reach_current(current_version: int)
    requires
        0 <= current_version <= SCHEMA_VERSION,
    ensures
        migration_steps_of(current_version) matches Some(steps) && (steps.len() == 0 || steps.last()
            == SCHEMA_VERSION) && forall|i: int| 0 <= i < steps.len() ==> 1 <= #[trigger] steps[i]
            <= SCHEMA_VERSION,
{
}


/// A call to a number that no contact has changes nothing; any call keeps
/// the threads and the number of contacts.
pub proof fn lemma_call_changes_only_the_callee(s: StoreView, phone: Seq<char>, now: i64)
    ensures
        first_index(s.contacts, has_phone(phone)) >= s.contacts.len() ==> store_after_call(s, phone, now) == s,
        store_after_call(s, phone, now).threads == s.threads,
        store_after_call(s, phone, now).contacts.len() == s.contacts.len(),
        forall|i: int|
            0 <= i < s.contacts.len() && s.contacts[i].phone != phone ==> #[trigger] store_after_call(
                s,
                phone,
                now,
            ).contacts[i] == s.contacts[i],
{
    lemma_first_index(s.contacts, has_phone(phone));
}

/// After making sure of a direct thread with a contact, the thread at the
/// returned position is titled with the contact's name and is direct; doing
/// it again finds the same thread and adds none.
pub proof fn lemma_direct_thread_idempotent(
    s: StoreView,
    name: Seq<char>,
    phone: Seq<char>,
    now: i64,
    later: i64,
)
    requires
        direct_thread_index(s, name) >= s.threads.len() ==> now < i64::MAX,
    ensures
        ({
            let t = store_after_direct_thread(s, name, phone, now);
            let k = direct_thread_index(s, name);
            &&& 0 <= k < t.threads.len()
            &&& t.threads[k].title == name
            &&& t.threads[k].kind == ThreadKind::Direct
            &&& direct_thread_index(t, name) == k
            &&& store_after_direct_thread(t, name, phone, later).threads.len() == t.threads.len()
        }),
{
    let t = store_after_direct_thread(s, name, phone, now);
    let k = direct_thread_index(s, name);
    lemma_first_index(s.threads, has_title(name));
    assert forall|j: int| 0 <= j < k implies !has_title(name)(#[trigger] t.threads[j]) by {
        assert(t.threads[j] == s.threads[j]);
    }
    lemma_first_index_is(t.threads, has_title(name), k);
}

/// Making sure of a direct thread keeps the number of contacts, and adds a
/// thread exactly when none is titled with the contact's name.
pub proof fn lemma_direct_thread_adds_at_most_one(s: StoreView, name: Seq<char>, phone: Seq<char>, now: i64)
    ensures
        store_after_direct_thread(s, name, phone, now).contacts.len() == s.contacts.len(),
        store_after_direct_thread(s, name, phone, now).threads.len() == s.threads.len() + if direct_thread_index(
            s,
            name,
        ) < s.threads.len() {
            0int
        } else {
            1int
        },
{
    lemma_first_index(s.threads, has_title(name));
    lemma_first_index(s.contacts, has_phone(phone));
}

/// An outgoing message in an existing thread becomes its last message, sent
/// by `You`, and its preview; the store keeps its number of threads and
/// contacts. Where there is no such thread nothing changes.
pub proof fn lemma_outgoing_message_is_last(s: StoreView, index: int, body: Seq<char>, now: i64)
    ensures
        !(0 <= index < s.threads.len()) ==> store_after_outgoing(s, index, body, now) == s,
        0 <= index < s.threads.len() ==> ({
            let t = store_after_outgoing(s, index, body, now).threads[index];
            &&& t.messages.len() == s.threads[index].messages.len() + 1
            &&& t.messages.last() == message_view("You"@, body, true, now)
            &&& t.messages.drop_last() == s.threads[index].messages
            &&& t.preview == body
            &&& t.title == s.threads[index].title
        }),
        store_after_outgoing(s, index, body, now).threads.len() == s.threads.len(),
        store_after_outgoing(s, index, body, now).contacts.len() == s.contacts.len(),
{
    if 0 <= index < s.threads.len() {
        lemma_first_index(s.contacts, has_name(s.threads[index].title));
        let t = store_after_outgoing(s, index, body, now).threads[index];
        assert(t.messages.drop_last() =~= s.threads[index].messages);
    }
}


/// The contact that a call marks at `now`, where no other contact was
/// called at or after `now`, heads the recent calls: `r` is any list sorted
/// as `recents_snapshot` sorts the store after the call, and it starts with
/// the called number, noted as called now, called at `now`.
pub proof fn lemma_call_puts_callee_first(s: StoreView, phone: Seq<char>, now: i64, r: Seq<ContactView>)
    requires
        first_index(s.contacts, has_phone(phone)) < s.contacts.len(),
        forall|i: int|
            0 <= i < s.contacts.len() && i != first_index(s.contacts, has_phone(phone))
                ==> #[trigger] s.contacts[i].last_called_at < now,
        stably_sorted_by(
            r,
            store_after_call(s, phone, now).contacts,
            order_of::<ContactRecord, ContactsByRecency>(),
        ),
    ensures
        r.len() > 0,
        r[0].phone == phone,
        r[0].note == "Called now"@,
        r[0].last_called_at == now,
{
    let k = first_index(s.contacts, has_phone(phone));
    lemma_first_index(s.contacts, has_phone(phone));
    let t = store_after_call(s, phone, now).contacts;
    lemma_order_is_total_preorder::<ContactRecord, ContactsByRecency>();
    assert forall|i: int| 0 <= i < t.len() && i != k implies !order_of::<ContactRecord, ContactsByRecency>()(
        #[trigger] t[i],
        t[k],
    ) by {
        assert(t[i] == s.contacts[i]);
    }
    lemma_stable_first(r, t, order_of::<ContactRecord, ContactsByRecency>(), k);
}

/// The threads list is the threads sorted by activity, ties in stored
/// order, with the messages of each sorted oldest first.
pub proof fn lemma_threads_listing_sorted(s: Seq<ThreadView>)
    ensures
        threads_listing(s).len() == s.len(),
        forall|p: int|
            0 <= p < s.len() ==> #[trigger] threads_listing(s)[p] == with_sorted_messages(
                sorted_seq(s, order_of::<MessageThread, ThreadsByActivity>())[p],
            ),
        stably_sorted_by(
            sorted_seq(s, order_of::<MessageThread, ThreadsByActivity>()),
            s,
            order_of::<MessageThread, ThreadsByActivity>(),
        ),
        forall|p: int|
            0 <= p < s.len() ==> stably_sorted_by(
                (#[trigger] threads_listing(s)[p]).messages,
                s[thread_order(s)[p]].messages,
                order_of::<MessageRecord, MessagesByTime>(),
            ),
{
    let le = order_of::<ThreadRow, RowsByActivity>();
    let lt = order_of::<MessageThread, ThreadsByActivity>();
    lemma_thread_order(s);
    lemma_order_is_total_preorder::<MessageThread, ThreadsByActivity>();
    lemma_order_is_total_preorder::<MessageRecord, MessagesByTime>();
    lemma_sorted_seq_stable(s, lt);
    let snd = |r: (int, ThreadView)| r.1;
    assert forall|a: (int, ThreadView), b: (int, ThreadView)| #[trigger] le(a, b) == lt(snd(a), snd(b)) by {}
    crate::sort::lemma_sorted_seq_map(indexed_threads(s), le, snd, lt);
    assert(indexed_threads(s).map_values(snd) =~= s);
    assert forall|p: int| 0 <= p < s.len() implies stably_sorted_by(
        (#[trigger] threads_listing(s)[p]).messages,
        s[thread_order(s)[p]].messages,
        order_of::<MessageRecord, MessagesByTime>(),
    ) by {
        lemma_sorted_seq_stable(s[thread_order(s)[p]].messages, order_of::<MessageRecord, MessagesByTime>());
    }
}

/// An outgoing message at `now`, where no other thread had a message at or
/// after `now` and the thread holds no message from after `now`, puts its
/// thread first in the threads list of the store after the message, with
/// the message last.
pub proof fn lemma_message_puts_thread_first(s: StoreView, index: int, body: Seq<char>, now: i64)
    requires
        0 <= index < s.threads.len(),
        forall|i: int| 0 <= i < s.threads.len() && i != index ==> #[trigger] s.threads[i].last_message_at < now,
        forall|j: int|
            0 <= j < s.threads[index].messages.len() ==> #[trigger] s.threads[index].messages[j].created_at
                <= now,
    ensures
        ({
            let t = store_after_outgoing(s, index, body, now).threads;
            let r = threads_listing(t);
            &&& thread_order(t)[0] == index
            &&& r.len() > 0
            &&& r[0].title == s.threads[index].title
            &&& r[0].preview == body
            &&& r[0].status == "Updated"@
            &&& r[0].messages.len() > 0
            &&& r[0].messages.last() == message_view("You"@, body, true, now)
        }),
{
    let t = store_after_outgoing(s, index, body, now).threads;
    lemma_first_index(s.contacts, has_name(s.threads[index].title));
    assert(t[index] == thread_after_outgoing(s.threads[index], body, now));
    lemma_thread_order(t);
    lemma_order_is_total_preorder::<ThreadRow, RowsByActivity>();
    let inp = indexed_threads(t);
    let le = order_of::<ThreadRow, RowsByActivity>();
    lemma_sorted_seq_stable(inp, le);
    assert forall|i: int| 0 <= i < inp.len() && i != index implies !le(#[trigger] inp[i], inp[index]) by {
        assert(t[i] == s.threads[i]);
    }
    lemma_stable_first(sorted_seq(inp, le), inp, le, index);
    let msgs = t[index].messages;
    let x = message_view("You"@, body, true, now);
    assert(msgs == s.threads[index].messages.push(x));
    lemma_order_is_total_preorder::<MessageRecord, MessagesByTime>();
    assert forall|j: int| 0 <= j < msgs.len() implies order_of::<MessageRecord, MessagesByTime>()(
        #[trigger] msgs[j],
        msgs.last(),
    ) by {
        if j < msgs.len() - 1 {
            assert(msgs[j] == s.threads[index].messages[j]);
        }
    }
    lemma_sorted_seq_stable(msgs, order_of::<MessageRecord, MessagesByTime>());
    lemma_stable_last(
        sorted_seq(msgs, order_of::<MessageRecord, MessagesByTime>()),
        msgs,
        order_of::<MessageRecord, MessagesByTime>(),
    );
}

} // verus!
