//! The application core: the note table and, while unlocked, the one current
//! cipher session that reads it, with unlocking and key rotation.
use crate::cipher::{CipherSession, ciphertext_of, decrypts_to, plaintext_of};
use crate::models::{Item, NewItem, Timestamp};
use crate::store::{ItemStore, first_titled, has_id, place_for, same_keys, same_rows};
use vstd::prelude::*;

verus! {

/// Errors of the vault.
#[derive(Debug, Clone, Copy, PartialEq, Eq, Structural)]
pub enum CoreError {
    /// The passphrase is empty, or does not open the stored items.
    InvalidCredential,
    /// A note's contents cannot be read under the current key.
    Decryption,
    /// No stored note matches.
    NotFound,
    /// The store has no id left to give a new note.
    IdsExhausted,
    /// Rotation stopped at the item of this table position, whose contents
    /// the current key cannot read; nothing was changed.
    Rotation { index: usize },
    /// The table no longer holds the items a rotation was staged from;
    /// nothing was changed.
    StaleRotation,
}

/// The contents of this item, if any, can be read under `key`.
pub open spec fn readable(key: Seq<char>, item: Item) -> bool {
    match item.contents {
        Some(c) => plaintext_of(key, c@) is Some,
        None => true,
    }
}

/// The item has contents, and they decrypt to `plain` under `key`.
pub open spec fn reads_as(key: Seq<char>, item: Item, plain: Seq<char>) -> bool {
    item.contents matches Some(c) && decrypts_to(key, c@, plain)
}

/// Every item of the table can be read under `key`.
pub open spec fn all_readable(key: Seq<char>, s: Seq<Item>) -> bool {
    forall|i: int| 0 <= i < s.len() ==> readable(key, #[trigger] s[i])
}

/// Item `i` is the first of the table that has contents: the one an unlock
/// tries.
pub open spec fn is_sample(s: Seq<Item>, i: int) -> bool {
    &&& 0 <= i < s.len()
    &&& s[i].contents is Some
    &&& forall|j: int| 0 <= j < i ==> s[j].contents is None
}

/// The passphrase opens the table: it is not empty, and the first item that
/// has contents, if there is one, decrypts under it.
pub open spec fn opens(key: Seq<char>, s: Seq<Item>) -> bool {
    &&& key.len() > 0
    &&& forall|i: int| is_sample(s, i) ==> readable(key, s[i])
}

/// `after` is `before` with its contents decrypted under `old_key` and
/// encrypted again under `new_key`; everything else is kept.
pub open spec fn rekeyed(old_key: Seq<char>, new_key: Seq<char>, before: Item, after: Item) -> bool {
    &&& after.id == before.id
    &&& after.title == before.title
    &&& after.date_added == before.date_added
    &&& after.date_last_modified == before.date_last_modified
    &&& match (before.contents, after.contents) {
        (None, None) => true,
        (Some(c), Some(d)) => match plaintext_of(old_key, c@) {
            Some(plain) => d@ == ciphertext_of(new_key, plain) && decrypts_to(new_key, d@, plain),
            None => false,
        },
        _ => false,
    }
}

/// Position by position, `after` is `before` rekeyed.
pub open spec fn all_rekeyed(old_key: Seq<char>, new_key: Seq<char>, before: Seq<Item>, after: Seq<Item>) -> bool {
    &&& before.len() == after.len()
    &&& forall|i: int| 0 <= i < before.len() ==> rekeyed(old_key, new_key, before[i], after[i])
}

/// After a rotation every item reads under the new key as it read under the
/// old one, and keeps its id and title.
pub proof fn lemma_rotation_keeps_plaintexts(
    old_key: Seq<char>,
    new_key: Seq<char>,
    before: Seq<Item>,
    after: Seq<Item>,
)
    requires
        all_rekeyed(old_key, new_key, before, after),
    ensures
        after.len() == before.len(),
        forall|i: int, plain: Seq<char>|
            0 <= i < before.len() && #[trigger] reads_as(old_key, before[i], plain)
                ==> reads_as(new_key, after[i], plain),
        forall|i: int| 0 <= i < before.len() ==> readable(new_key, #[trigger] after[i]),
        forall|i: int| 0 <= i < before.len() ==> after[i].id == (#[trigger] before[i]).id && after[i].title == before[i].title,
{
    assert forall|i: int| 0 <= i < before.len() implies readable(new_key, #[trigger] after[i]) by {
        assert(rekeyed(old_key, new_key, before[i], after[i]));
    }
    assert forall|i: int, plain: Seq<char>|
        0 <= i < before.len() && #[trigger] reads_as(old_key, before[i], plain) implies reads_as(new_key, after[i], plain) by {
        assert(rekeyed(old_key, new_key, before[i], after[i]));
    }
}

/// A rotation keeps every item's id and title in its place.
pub proof fn lemma_rekeyed_keeps_keys(old_key: Seq<char>, new_key: Seq<char>, before: Seq<Item>, after: Seq<Item>)
    requires
        all_rekeyed(old_key, new_key, before, after),
    ensures
        same_keys(before, after),
{
    assert forall|i: int| 0 <= i < before.len() implies before[i].id == after[i].id && before[i].title@ == after[i].title@ by {
        assert(rekeyed(old_key, new_key, before[i], after[i]));
    }
}

/// With no stored item, every non-empty passphrase opens the table and the
/// empty one does not.
pub proof fn lemma_empty_store_opens(key: Seq<char>)
    ensures
        opens(key, Seq::<Item>::empty()) <==> key.len() > 0,
{
}

/// Item `k` is the first that `key` cannot read.
pub open spec fn first_unreadable(key: Seq<char>, s: Seq<Item>, k: int) -> bool {
    &&& 0 <= k < s.len()
    &&& !readable(key, s[k])
    &&& forall|j: int| 0 <= j < k ==> readable(key, s[j])
}

/// Re-encrypts every item's contents from `old` to `new`, returning the new
/// items in the same order and leaving `items` as they were. Stops at the
/// first item whose contents `old` cannot read and returns its position.
pub fn rotate(old: &CipherSession, new: &CipherSession, items: &Vec<Item>) -> (r: Result<Vec<Item>, usize>)
    ensures
        match r {
            Ok(v) => all_readable(old@, items@) && all_rekeyed(old@, new@, items@, v@),
            Err(k) => first_unreadable(old@, items@, k as int),
        },
{
    let mut staged: Vec<Item> = Vec::new();
    let mut i: usize = 0;
    while i < items.len()
        invariant
            i <= items@.len(),
            staged@.len() == i,
            forall|j: int| 0 <= j < i ==> readable(old@, #[trigger] items@[j]),
            forall|j: int| 0 <= j < i ==> rekeyed(old@, new@, items@[j], #[trigger] staged@[j]),
        decreases items@.len() - i,
    {
        let item = &items[i];
        let contents = match &item.contents {
            None => None,
            Some(c) => match old.decrypt(c.as_str()) {
                Ok(plain) => Some(new.encrypt(plain.as_str())),
                Err(_) => {
                    return Err(i);
                },
            },
        };
        staged.push(Item {
            id: item.id,
            title: item.title.clone(),
            contents,
            date_added: item.date_added,
            date_last_modified: item.date_last_modified,
        });
        i += 1;
    }
    Ok(staged)
}

/// Does the first item that has contents decrypt under `session`? True
/// where no item has contents.
fn first_sample_opens(session: &CipherSession, items: &Vec<Item>) -> (r: bool)
    ensures
        r == forall|i: int| is_sample(items@, i) ==> readable(session@, items@[i]),
{
    let mut i: usize = 0;
    while i < items.len()
        invariant
            i <= items@.len(),
            forall|j: int| 0 <= j < i ==> items@[j].contents is None,
        decreases items@.len() - i,
    {
        if let Some(c) = &items[i].contents {
            assert(is_sample(items@, i as int));
            return session.decrypt(c.as_str()).is_ok();
        }
        i += 1;
    }
    true
}

/// A rotation that is ready but not yet in force: the new session, every
/// item re-encrypted under it, and the items it was staged from. Nothing in
/// the core changes until it is committed, so the caller can persist the
/// items first.
pub struct StagedRotation {
    session: CipherSession,
    items: Vec<Item>,
    source: Vec<Item>,
}

impl StagedRotation {
    /// The passphrase of the new session.
    pub closed spec fn key(&self) -> Seq<char> {
        self.session@
    }

    /// The re-encrypted items, in table order.
    pub closed spec fn items(&self) -> Seq<Item> {
        self.items@
    }

    /// The items the rotation was staged from, in table order.
    pub closed spec fn source(&self) -> Seq<Item> {
        self.source@
    }

    /// The re-encrypted items, in table order, to be written to disk.
    pub fn staged_items(&self) -> (r: &Vec<Item>)
        ensures
            r@ == self.items(),
    {
        &self.items
    }
}

/// The note table with, while unlocked, the one current cipher session.
/// It is owned by whoever runs the user interface and handed to each
/// operation, so every reader sees the same session.
pub struct AppCore {
    store: ItemStore,
    session: Option<CipherSession>,
}

impl AppCore {
    /// The store is well formed.
    pub closed spec fn wf(&self) -> bool {
        self.store.wf()
    }

    /// The stored items, in table order.
    pub closed spec fn items(&self) -> Seq<Item> {
        self.store@
    }

    /// The store still has an id to give a new note.
    pub closed spec fn ids_left(&self) -> bool {
        self.store.ids_left()
    }

    /// The passphrase of the current session, while unlocked.
    pub closed spec fn key(&self) -> Option<Seq<char>> {
        match self.session {
            Some(s) => Some(s@),
            None => None,
        }
    }

    /// A locked core over a loaded table.
    pub fn locked(store: ItemStore) -> (r: AppCore)
        requires
            store.wf(),
        ensures
            r.wf(),
            r.ids_left() == store.ids_left(),
            r.items() == store@,
            r.key() is None,
    {
        AppCore { store, session: None }
    }

    /// Is there a current session?
    pub fn is_unlocked(&self) -> (r: bool)
        ensures
            r == self.key() is Some,
    {
        self.session.is_some()
    }

    /// The item table.
    pub fn store(&self) -> (r: &ItemStore)
        ensures
            r@ == self.items(),
            self.wf() ==> r.wf(),
    {
        &self.store
    }

    /// Derives the session of `passphrase` and tries it on the first item
    /// that has contents; with no such item any non-empty passphrase is
    /// taken. On success that session becomes current; on failure the core
    /// stays locked.
    pub fn try_unlock(&mut self, passphrase: &str) -> (r: Result<(), CoreError>)
        requires
            old(self).wf(),
            old(self).key() is None,
        ensures
            final(self).wf(),
            final(self).items() == old(self).items(),
            r is Ok <==> opens(passphrase@, old(self).items()),
            match r {
                Ok(()) => final(self).key() == Some(passphrase@),
                Err(e) => e == CoreError::InvalidCredential && final(self).key() is None,
            },
    {
        let session = match CipherSession::derive(passphrase) {
            Ok(s) => s,
            Err(_) => {
                return Err(CoreError::InvalidCredential);
            },
        };
        if !first_sample_opens(&session, &self.store.find_all(None)) {
            return Err(CoreError::InvalidCredential);
        }
        self.session = Some(session);
        Ok(())
    }

    /// Re-encrypts every stored item under the session of `new_passphrase`
    /// into a staging table, leaving the core unchanged. Stops at the first
    /// item the current key cannot read.
    pub fn stage_rotation(&self, new_passphrase: &str) -> (r: Result<StagedRotation, CoreError>)
        requires
            self.wf(),
            self.key() is Some,
        ensures
            r is Ok <==> new_passphrase@.len() > 0 && all_readable(self.key()->0, self.items()),
            match r {
                Ok(staged) => {
                    &&& staged.key() == new_passphrase@
                    &&& staged.source() == self.items()
                    &&& all_rekeyed(self.key()->0, new_passphrase@, self.items(), staged.items())
                },
                Err(e) => match e {
                    CoreError::InvalidCredential => new_passphrase@.len() == 0,
                    CoreError::Rotation { index } => new_passphrase@.len() > 0
                        && first_unreadable(self.key()->0, self.items(), index as int),
                    _ => false,
                },
            },
    {
        let new = match CipherSession::derive(new_passphrase) {
            Ok(s) => s,
            Err(_) => {
                return Err(CoreError::InvalidCredential);
            },
        };
        let items = self.store.find_all(None);
        match rotate(self.current(), &new, &items) {
            Ok(v) => Ok(StagedRotation { session: new, items: v, source: items }),
            Err(index) => Err(CoreError::Rotation { index }),
        }
    }

    /// Puts a staged rotation in force: the new session and the re-encrypted
    /// items replace the old ones together. Refused, with nothing changed,
    /// unless the table still holds exactly the items the rotation was staged
    /// from, so no change made since is lost.
    pub fn commit_rotation(&mut self, staged: StagedRotation) -> (r: Result<(), CoreError>)
        requires
            old(self).wf(),
        ensures
            final(self).wf(),
            r is Ok <==> same_rows(old(self).items(), staged.source()) && same_keys(old(self).items(), staged.items()),
            match r {
                Ok(()) => final(self).key() == Some(staged.key()) && final(self).items() == staged.items(),
                Err(e) => e == CoreError::StaleRotation && final(self).key() == old(self).key()
                    && final(self).items() == old(self).items(),
            },
    {
        if !self.store.holds_rows(&staged.source) || !self.store.has_same_keys(&staged.items) {
            return Err(CoreError::StaleRotation);
        }
        let StagedRotation { session, items, source: _ } = staged;
        self.store.replace_all(items);
        self.session = Some(session);
        Ok(())
    }

    /// Re-encrypts every stored item under the session of `new_passphrase`
    /// and makes that session current: a staged rotation committed at once.
    /// The store and the session are replaced together once every item has
    /// been re-encrypted, and on any error neither changes.
    pub fn change_master_key(&mut self, new_passphrase: &str) -> (r: Result<(), CoreError>)
        requires
            old(self).wf(),
            old(self).key() is Some,
        ensures
            final(self).wf(),
            r is Ok <==> new_passphrase@.len() > 0 && all_readable(old(self).key()->0, old(self).items()),
            match r {
                Ok(()) => {
                    &&& final(self).key() == Some(new_passphrase@)
                    &&& all_rekeyed(old(self).key()->0, new_passphrase@, old(self).items(), final(self).items())
                },
                Err(e) => {
                    &&& final(self).key() == old(self).key()
                    &&& final(self).items() == old(self).items()
                    &&& match e {
                        CoreError::InvalidCredential => new_passphrase@.len() == 0,
                        CoreError::Rotation { index } => new_passphrase@.len() > 0
                            && first_unreadable(old(self).key()->0, old(self).items(), index as int),
                        _ => false,
                    }
                },
            },
    {
        let staged = self.stage_rotation(new_passphrase)?;
        proof {
            lemma_rekeyed_keeps_keys(old(self).key()->0, new_passphrase@, self.items(), staged.items());
        }
        self.commit_rotation(staged)
    }

    /// The current session.
    fn current(&self) -> (r: &CipherSession)
        requires
            self.key() is Some,
        ensures
            Some(r@) == self.key(),
    {
        self.session.as_ref().unwrap()
    }

    /// Stores a new note titled `title` whose contents are `text` encrypted
    /// under the current session, added and last modified at `at`.
    pub fn add_item(&mut self, title: String, text: &str, at: Timestamp) -> (r: Result<Item, CoreError>)
        requires
            old(self).wf(),
            old(self).key() is Some,
        ensures
            final(self).wf(),
            final(self).key() == old(self).key(),
            r is Ok <==> old(self).ids_left(),
            match r {
                Ok(item) => {
                    &&& !has_id(old(self).items(), item.id)
                    &&& item.title == title
                    &&& item.contents matches Some(c) && c@ == ciphertext_of(old(self).key()->0, text@)
                        && decrypts_to(old(self).key()->0, c@, text@)
                    &&& item.date_added == at
                    &&& item.date_last_modified == at
                    &&& exists|k: int| place_for(old(self).items(), title@, k)
                        && final(self).items() == old(self).items().insert(k, item)
                },
                Err(e) => e == CoreError::IdsExhausted && final(self).items() == old(self).items(),
            },
    {
        let mut new_item = NewItem::created_at(title, at);
        new_item.contents = Some(self.current().encrypt(text));
        match self.store.insert(&new_item) {
            Ok(item) => Ok(item),
            Err(_) => Err(CoreError::IdsExhausted),
        }
    }

    /// The text of the first note titled `title`, decrypted under the current
    /// session; a note without contents reads as the empty text, and `None`
    /// means no note has that title.
    pub fn read_item(&self, title: &str) -> (r: Result<Option<String>, CoreError>)
        requires
            self.wf(),
            self.key() is Some,
        ensures
            match r {
                Ok(None) => forall|j: int| 0 <= j < self.items().len() ==> self.items()[j].title@ != title@,
                Ok(Some(t)) => exists|i: int| first_titled(self.items(), title@, i)
                    && match self.items()[i].contents {
                        Some(c) => decrypts_to(self.key()->0, c@, t@),
                        None => t@.len() == 0,
                    },
                Err(e) => e == CoreError::Decryption && exists|i: int| first_titled(self.items(), title@, i)
                    && !readable(self.key()->0, self.items()[i]),
            },
    {
        match self.store.find_by_title(title) {
            None => Ok(None),
            Some(item) => match item.decrypt_contents(self.current()) {
                Ok(t) => Ok(Some(t)),
                Err(_) => Err(CoreError::Decryption),
            },
        }
    }

    /// Replaces the text of the first note titled `title` with `text`
    /// encrypted under the current session, and marks it modified at `at`.
    pub fn write_item(&mut self, title: &str, text: &str, at: Timestamp) -> (r: Result<Item, CoreError>)
        requires
            old(self).wf(),
            old(self).key() is Some,
        ensures
            final(self).wf(),
            final(self).key() == old(self).key(),
            match r {
                Ok(item) => exists|i: int| {
                    &&& first_titled(old(self).items(), title@, i)
                    &&& item.id == old(self).items()[i].id
                    &&& item.title == old(self).items()[i].title
                    &&& item.date_added == old(self).items()[i].date_added
                    &&& item.date_last_modified == at
                    &&& item.contents matches Some(c) && c@ == ciphertext_of(old(self).key()->0, text@)
                        && decrypts_to(old(self).key()->0, c@, text@)
                    &&& final(self).items() == old(self).items().update(i, item)
                },
                Err(e) => e == CoreError::NotFound && final(self).items() == old(self).items()
                    && forall|j: int| 0 <= j < old(self).items().len() ==> old(self).items()[j].title@ != title@,
            },
    {
        match self.store.find_by_title(title) {
            None => Err(CoreError::NotFound),
            Some(mut item) => {
                item.contents = Some(self.current().encrypt(text));
                item.date_last_modified = at;
                proof {
                    self.store.lemma_wf();
                }
                match self.store.update(&item) {
                    Ok(()) => Ok(item),
                    Err(_) => Err(CoreError::NotFound),
                }
            },
        }
    }

    /// Gives the first note titled `title` the title `new_title`, moves it
    /// to its place in title order (after every note whose title sorts at or
    /// before the new one) unless the title is unchanged, and marks it
    /// modified at `at`.
    pub fn rename_item(&mut self, title: &str, new_title: String, at: Timestamp) -> (r: Result<Item, CoreError>)
        requires
            old(self).wf(),
        ensures
            final(self).wf(),
            final(self).key() == old(self).key(),
            match r {
                Ok(item) => exists|i: int| #![trigger first_titled(old(self).items(), title@, i)] {
                    &&& first_titled(old(self).items(), title@, i)
                    &&& item.id == old(self).items()[i].id
                    &&& item.title@ == new_title@
                    &&& item.contents == old(self).items()[i].contents
                    &&& item.date_added == old(self).items()[i].date_added
                    &&& item.date_last_modified == at
                    &&& if new_title@ == title@ {
                        final(self).items() == old(self).items().update(i, item)
                    } else {
                        exists|k: int| place_for(old(self).items().remove(i), new_title@, k)
                            && final(self).items() == old(self).items().remove(i).insert(k, item)
                    }
                },
                Err(e) => e == CoreError::NotFound && final(self).items() == old(self).items()
                    && forall|j: int| 0 <= j < old(self).items().len() ==> old(self).items()[j].title@ != title@,
            },
    {
        match self.store.find_by_title(title) {
            None => Err(CoreError::NotFound),
            Some(mut item) => {
                item.title = new_title;
                item.date_last_modified = at;
                proof {
                    self.store.lemma_wf();
                }
                match self.store.update(&item) {
                    Ok(()) => Ok(item),
                    Err(_) => Err(CoreError::NotFound),
                }
            },
        }
    }

    /// Removes the first note titled `title` and returns it.
    pub fn remove_item(&mut self, title: &str) -> (r: Result<Item, CoreError>)
        requires
            old(self).wf(),
        ensures
            final(self).wf(),
            final(self).key() == old(self).key(),
            match r {
                Ok(item) => exists|i: int| {
                    &&& first_titled(old(self).items(), title@, i)
                    &&& item == old(self).items()[i]
                    &&& final(self).items() == old(self).items().remove(i)
                },
                Err(e) => e == CoreError::NotFound && final(self).items() == old(self).items()
                    && forall|j: int| 0 <= j < old(self).items().len() ==> old(self).items()[j].title@ != title@,
            },
    {
        match self.store.find_by_title(title) {
            None => Err(CoreError::NotFound),
            Some(item) => {
                proof {
                    self.store.lemma_wf();
                }
                match self.store.delete(item.id) {
                    Ok(()) => Ok(item),
                    Err(_) => Err(CoreError::NotFound),
                }
            },
        }
    }

    /// Every note as its title and its decrypted text, in table order; a
    /// note without contents gives the empty text. Fails if any note cannot
    /// be read under the current session.
    pub fn export_items(&self) -> (r: Result<Vec<(String, String)>, CoreError>)
        requires
            self.wf(),
            self.key() is Some,
        ensures
            r is Ok <==> all_readable(self.key()->0, self.items()),
            match r {
                Ok(v) => v@.len() == self.items().len() && forall|i: int| 0 <= i < v@.len() ==> {
                    &&& (#[trigger] v@[i]).0@ == self.items()[i].title@
                    &&& match self.items()[i].contents {
                        Some(c) => decrypts_to(self.key()->0, c@, v@[i].1@),
                        None => v@[i].1@.len() == 0,
                    }
                },
                Err(e) => e == CoreError::Decryption,
            },
    {
        let items = self.store.find_all(None);
        let session = self.current();
        let mut out: Vec<(String, String)> = Vec::new();
        let mut i: usize = 0;
        while i < items.len()
            invariant
                items@ == self.items(),
                Some(session@) == self.key(),
                i <= items@.len(),
                out@.len() == i,
                forall|j: int| 0 <= j < i ==> readable(session@, #[trigger] items@[j]),
                forall|j: int| 0 <= j < i ==> {
                    &&& (#[trigger] out@[j]).0@ == items@[j].title@
                    &&& match items@[j].contents {
                        Some(c) => decrypts_to(session@, c@, out@[j].1@),
                        None => out@[j].1@.len() == 0,
                    }
                },
            decreases items@.len() - i,
        {
            match items[i].decrypt_contents(session) {
                Ok(t) => out.push((items[i].title.clone(), t)),
                Err(_) => {
                    return Err(CoreError::Decryption);
                },
            }
            i += 1;
        }
        Ok(out)
    }
}

} // verus!
