//! The stored note and the note about to be stored.
use crate::cipher::{CipherSession, CryptError, decrypts_to, plaintext_of};
use std::time::SystemTime;
use vstd::prelude::*;

verus! {

/// A UTC instant: whole seconds since the Unix epoch and the nanoseconds
/// past that second.
#[derive(Debug, Clone, Copy, PartialEq, Eq, Structural)]
pub struct Timestamp {
    pub secs: i64,
    pub nanos: u32,
}

#[verifier::external_type_specification]
#[verifier::external_body]
pub struct ExSystemTime(SystemTime);

/// Relies on std's `SystemTime::now`: a reading of the system clock.
#[verifier::external_body]
fn system_now() -> (r: SystemTime) {
    SystemTime::now()
}

/// Relies on std's `SystemTime::duration_since` with `UNIX_EPOCH` (and
/// `Duration::as_secs`, `Duration::subsec_nanos` on its result): the whole
/// seconds and the nanoseconds, under one second, from 1970 to the reading;
/// `None` for a reading before 1970, which std reports as an error.
#[verifier::external_body]
fn since_unix_epoch(t: SystemTime) -> (r: Option<(u64, u32)>)
    ensures
        r matches Some((_, nanos)) ==> nanos < 1_000_000_000,
{
    match t.duration_since(std::time::UNIX_EPOCH) {
        Ok(d) => Some((d.as_secs(), d.subsec_nanos())),
        Err(_) => None,
    }
}

/// Relies on chrono's `DateTime::from_timestamp` (and `timestamp`,
/// `timestamp_subsec_nanos` on its result): the UTC instant `secs` seconds
/// and `nanos` nanoseconds after 1970, or `None` where it lies outside the
/// range of chrono's dates. The instant it builds gives back the same
/// seconds and nanoseconds.
#[verifier::external_body]
fn utc_timestamp(secs: i64, nanos: u32) -> (r: Option<Timestamp>)
    requires
        nanos < 1_000_000_000,
    ensures
        r matches Some(t) ==> t.secs == secs && t.nanos == nanos,
{
    match chrono::DateTime::from_timestamp(secs, nanos) {
        Some(utc) => Some(Timestamp { secs: utc.timestamp(), nanos: utc.timestamp_subsec_nanos() }),
        None => None,
    }
}

impl Timestamp {
    /// The current UTC time, read from the system clock; `None` where the
    /// clock reads before 1970 or beyond the range of chrono's dates.
    pub fn now() -> (r: Option<Timestamp>)
        ensures
            r matches Some(t) ==> t.secs >= 0 && t.nanos < 1_000_000_000,
    {
        match since_unix_epoch(system_now()) {
            Some((secs, nanos)) => {
                if secs > i64::MAX as u64 {
                    None
                } else {
                    utc_timestamp(secs as i64, nanos)
                }
            },
            None => None,
        }
    }
}

/// A stored note. `contents`, when present, is the base64 ciphertext of the
/// note's text under the current session.
#[derive(Debug, PartialEq, Eq)]
pub struct Item {
    pub id: i32,
    pub title: String,
    pub contents: Option<String>,
    pub date_added: Timestamp,
    pub date_last_modified: Timestamp,
}

/// A note that the store has not yet given an id.
#[derive(Debug, PartialEq, Eq)]
pub struct NewItem {
    pub title: String,
    pub contents: Option<String>,
    pub date_added: Timestamp,
    pub date_last_modified: Timestamp,
}

/// A copy of optional text that equals the original.
pub fn copy_text(t: &Option<String>) -> (r: Option<String>)
    ensures
        r == *t,
{
    match t {
        Some(s) => Some(s.clone()),
        None => None,
    }
}

impl Clone for Item {
    fn clone(&self) -> (r: Item)
        ensures
            r == *self,
    {
        Item {
            id: self.id,
            title: self.title.clone(),
            contents: copy_text(&self.contents),
            date_added: self.date_added,
            date_last_modified: self.date_last_modified,
        }
    }
}

impl Clone for NewItem {
    fn clone(&self) -> (r: NewItem)
        ensures
            r == *self,
    {
        NewItem {
            title: self.title.clone(),
            contents: copy_text(&self.contents),
            date_added: self.date_added,
            date_last_modified: self.date_last_modified,
        }
    }
}

impl NewItem {
    /// A note with no contents yet, added and last modified now; `None`
    /// where the system clock gives no time that `Timestamp::now` accepts.
    pub fn new(title: String) -> (r: Option<NewItem>)
        ensures
            r matches Some(n) ==> {
                &&& n.title == title
                &&& n.contents is None
                &&& n.date_added == n.date_last_modified
                &&& n.date_added.secs >= 0
                &&& n.date_added.nanos < 1_000_000_000
            },
    {
        match Timestamp::now() {
            Some(at) => Some(NewItem::created_at(title, at)),
            None => None,
        }
    }

    /// A note with no contents yet, added and last modified at `at`.
    pub fn created_at(title: String, at: Timestamp) -> (r: NewItem)
        ensures
            r.title == title,
            r.contents is None,
            r.date_added == at,
            r.date_last_modified == at,
    {
        NewItem { title, contents: None, date_added: at, date_last_modified: at }
    }
}

impl Item {
    /// Decrypts the contents under `session`; a note without contents reads
    /// as the empty text.
    pub fn decrypt_contents(&self, session: &CipherSession) -> (r: Result<String, CryptError>)
        ensures
            match self.contents {
                None => r matches Ok(t) && t@.len() == 0,
                Some(c) => match r {
                    Ok(t) => decrypts_to(session@, c@, t@),
                    Err(e) => plaintext_of(session@, c@) is None && e == CryptError::Decryption,
                },
            },
    {
        match &self.contents {
            None => Ok(String::new()),
            Some(c) => session.decrypt(c.as_str()),
        }
    }
}

} // verus!
