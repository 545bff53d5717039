use senoru::cipher::{CipherSession, CryptError};
use senoru::models::{Item, NewItem, Timestamp};
use senoru::store::{ItemStore, StoreError};
use senoru::app_core::{rotate, AppCore, CoreError};

fn at(secs: i64) -> Timestamp {
    Timestamp { secs, nanos: 0 }
}

fn session(p: &str) -> CipherSession {
    CipherSession::derive(p).expect("non-empty passphrase")
}

fn store_with(p: &str, notes: &[(&str, &str)]) -> ItemStore {
    let s = session(p);
    let mut store = ItemStore::new();
    for (title, text) in notes {
        let mut n = NewItem::created_at(title.to_string(), at(100));
        n.contents = Some(s.encrypt(text));
        store.insert(&n).expect("ids left");
    }
    store
}

fn contents_of(store: &ItemStore, title: &str) -> String {
    store.find_by_title(title).unwrap().contents.unwrap()
}

#[test]
fn round_trip_under_one_passphrase() {
    for p in ["correct-horse", "x", "pässwörd ☃"] {
        for text in ["hello world", "a", "multi\nline\ttext ✓", ""] {
            let c = session(p).encrypt(text);
            assert_eq!(session(p).decrypt(&c), Ok(text.to_string()));
        }
    }
}

#[test]
fn ciphertext_is_base64_not_plaintext() {
    let c = session("k").encrypt("hello world");
    assert_ne!(c, "hello world");
    assert!(c.chars().all(|ch| ch.is_ascii_alphanumeric() || ch == '+' || ch == '/' || ch == '='));
    assert_eq!(c.len() % 4, 0);
}

#[test]
fn same_passphrase_gives_same_ciphertext() {
    assert_eq!(session("abc").encrypt("note"), session("abc").encrypt("note"));
}

#[test]
fn other_passphrase_cannot_decrypt() {
    let c = session("first-pass").encrypt("secret text");
    assert_eq!(session("second-pass").decrypt(&c), Err(CryptError::Decryption));
    let c2 = session("alpha").encrypt("hello world");
    assert_eq!(session("beta").decrypt(&c2), Err(CryptError::Decryption));
}

#[test]
fn decrypt_rejects_non_base64() {
    assert_eq!(session("k").decrypt("not base64 !!"), Err(CryptError::Decryption));
    assert_eq!(session("k").decrypt("AAAA"), Err(CryptError::Decryption));
}

#[test]
fn empty_passphrase_is_refused() {
    assert!(matches!(CipherSession::derive(""), Err(CryptError::InvalidCredential)));
}

#[test]
fn unlock_and_rotate_scenario() {
    let store = store_with("correct-horse", &[("note", "hello world")]);
    let mut vault = AppCore::locked(store);
    assert!(!vault.is_unlocked());
    assert_eq!(vault.try_unlock("wrong-pass"), Err(CoreError::InvalidCredential));
    assert!(!vault.is_unlocked());
    assert_eq!(vault.try_unlock("correct-horse"), Ok(()));
    assert!(vault.is_unlocked());
    assert_eq!(vault.change_master_key("new-passphrase"), Ok(()));
    let c = contents_of(vault.store(), "note");
    assert_eq!(session("new-passphrase").decrypt(&c), Ok("hello world".to_string()));
    assert_eq!(session("correct-horse").decrypt(&c), Err(CryptError::Decryption));
    assert_eq!(vault.read_item("note"), Ok(Some("hello world".to_string())));
}

#[test]
fn unlock_empty_store_takes_any_non_empty_passphrase() {
    for p in ["a", "anything at all", "correct-horse"] {
        let mut vault = AppCore::locked(ItemStore::new());
        assert_eq!(vault.try_unlock(p), Ok(()));
        assert!(vault.is_unlocked());
    }
    let mut vault = AppCore::locked(ItemStore::new());
    assert_eq!(vault.try_unlock(""), Err(CoreError::InvalidCredential));
    assert!(!vault.is_unlocked());
}

#[test]
fn unlock_skips_items_without_contents() {
    let mut store = store_with("pw", &[("b", "text")]);
    store.insert(&NewItem::created_at("a".to_string(), at(1))).unwrap();
    let mut vault = AppCore::locked(store);
    assert_eq!(vault.try_unlock("other"), Err(CoreError::InvalidCredential));
    assert_eq!(vault.try_unlock("pw"), Ok(()));
}

#[test]
fn rotation_completes_for_every_item() {
    let notes = [("c", "third"), ("a", "first"), ("b", "second")];
    let mut vault = AppCore::locked(store_with("old-key", &notes));
    vault.try_unlock("old-key").unwrap();
    let before = vault.store().find_all(None);
    assert_eq!(vault.change_master_key("new-key"), Ok(()));
    let after = vault.store().find_all(None);
    assert_eq!(after.len(), 3);
    for (b, a) in before.iter().zip(after.iter()) {
        assert_eq!(a.id, b.id);
        assert_eq!(a.title, b.title);
        let plain = session("old-key").decrypt(b.contents.as_ref().unwrap()).unwrap();
        assert_eq!(session("new-key").decrypt(a.contents.as_ref().unwrap()), Ok(plain));
        assert_eq!(session("old-key").decrypt(a.contents.as_ref().unwrap()), Err(CryptError::Decryption));
    }
    for (t, text) in notes {
        assert_eq!(vault.read_item(t), Ok(Some(text.to_string())));
    }
}

#[test]
fn rotation_failure_changes_nothing() {
    let mut store = store_with("key-a", &[("a", "one"), ("c", "three")]);
    let mut stray = NewItem::created_at("b".to_string(), at(5));
    stray.contents = Some(session("key-z").encrypt("two"));
    store.insert(&stray).unwrap();
    let mut vault = AppCore::locked(store);
    vault.try_unlock("key-a").unwrap();
    let before = vault.store().find_all(None);
    assert_eq!(vault.change_master_key("key-b"), Err(CoreError::Rotation { index: 1 }));
    assert_eq!(vault.store().find_all(None), before);
    assert_eq!(vault.read_item("a"), Ok(Some("one".to_string())));
    assert_eq!(vault.read_item("c"), Ok(Some("three".to_string())));
    assert_eq!(session("key-a").decrypt(&contents_of(vault.store(), "a")), Ok("one".to_string()));
}

#[test]
fn rotation_to_empty_passphrase_is_refused() {
    let mut vault = AppCore::locked(store_with("key-a", &[("a", "one")]));
    vault.try_unlock("key-a").unwrap();
    let before = vault.store().find_all(None);
    assert_eq!(vault.change_master_key(""), Err(CoreError::InvalidCredential));
    assert_eq!(vault.store().find_all(None), before);
    assert_eq!(vault.read_item("a"), Ok(Some("one".to_string())));
}

#[test]
fn rotate_reports_first_unreadable_position() {
    let a = session("a");
    let b = session("b");
    let items = vec![
        Item { id: 1, title: "x".to_string(), contents: None, date_added: at(1), date_last_modified: at(2) },
        Item { id: 2, title: "y".to_string(), contents: Some(a.encrypt("fine")), date_added: at(1), date_last_modified: at(2) },
        Item { id: 3, title: "z".to_string(), contents: Some(b.encrypt("other")), date_added: at(1), date_last_modified: at(2) },
        Item { id: 4, title: "w".to_string(), contents: Some("garbage".to_string()), date_added: at(1), date_last_modified: at(2) },
    ];
    assert_eq!(rotate(&a, &b, &items), Err(2));
    let staged = rotate(&a, &b, &items[..2].to_vec()).unwrap();
    assert_eq!(staged[0], items[0]);
    assert_eq!(staged[1].id, 2);
    assert_eq!(staged[1].date_last_modified, at(2));
    assert_eq!(b.decrypt(staged[1].contents.as_ref().unwrap()), Ok("fine".to_string()));
}

#[test]
fn notes_are_added_read_written_renamed_and_removed() {
    let mut vault = AppCore::locked(ItemStore::new());
    vault.try_unlock("pw").unwrap();
    let item = vault.add_item("New".to_string(), "Enter text here", at(10)).unwrap();
    assert_eq!(item.id, 1);
    assert_eq!(item.date_added, at(10));
    assert_ne!(item.contents.as_deref(), Some("Enter text here"));
    assert_eq!(vault.read_item("New"), Ok(Some("Enter text here".to_string())));
    assert_eq!(vault.read_item("Missing"), Ok(None));

    let written = vault.write_item("New", "changed", at(20)).unwrap();
    assert_eq!(written.id, 1);
    assert_eq!(written.date_added, at(10));
    assert_eq!(written.date_last_modified, at(20));
    assert_eq!(vault.read_item("New"), Ok(Some("changed".to_string())));
    assert_eq!(vault.write_item("Missing", "x", at(21)).unwrap_err(), CoreError::NotFound);

    let renamed = vault.rename_item("New", "Groceries".to_string(), at(30)).unwrap();
    assert_eq!(renamed.title, "Groceries");
    assert_eq!(vault.read_item("New"), Ok(None));
    assert_eq!(vault.read_item("Groceries"), Ok(Some("changed".to_string())));
    assert_eq!(vault.rename_item("New", "x".to_string(), at(31)).unwrap_err(), CoreError::NotFound);

    let removed = vault.remove_item("Groceries").unwrap();
    assert_eq!(removed.id, 1);
    assert_eq!(vault.store().len(), 0);
    assert_eq!(vault.remove_item("Groceries").unwrap_err(), CoreError::NotFound);
}

#[test]
fn read_item_of_note_without_contents_is_empty() {
    let mut store = ItemStore::new();
    let mut n = NewItem::created_at("t".to_string(), at(1));
    n.contents = Some(session("someone-else").encrypt("x"));
    store.insert(&n).unwrap();
    store.insert(&NewItem::created_at("e".to_string(), at(1))).unwrap();
    let mut vault = AppCore::locked(store);
    vault.try_unlock("someone-else").unwrap();
    assert_eq!(vault.read_item("e"), Ok(Some(String::new())));
    assert_eq!(vault.change_master_key("pw"), Ok(()));
    assert_eq!(vault.read_item("t"), Ok(Some("x".to_string())));
    assert_eq!(vault.read_item("e"), Ok(Some(String::new())));
}

#[test]
fn read_item_reports_unreadable_contents() {
    let mut store = store_with("pw", &[("a", "one")]);
    let mut n = NewItem::created_at("b".to_string(), at(1));
    n.contents = Some(session("other").encrypt("two"));
    store.insert(&n).unwrap();
    let mut vault = AppCore::locked(store);
    vault.try_unlock("pw").unwrap();
    assert_eq!(vault.read_item("b"), Err(CoreError::Decryption));
    assert_eq!(vault.read_item("a"), Ok(Some("one".to_string())));
}

#[test]
fn export_gives_titles_and_texts_in_title_order() {
    let mut vault = AppCore::locked(store_with("pw", &[("b", "two"), ("a", "one")]));
    vault.try_unlock("pw").unwrap();
    vault.add_item("c".to_string(), "three", at(3)).unwrap();
    let out = vault.export_items().unwrap();
    assert_eq!(
        out,
        vec![
            ("a".to_string(), "one".to_string()),
            ("b".to_string(), "two".to_string()),
            ("c".to_string(), "three".to_string()),
        ]
    );
}

#[test]
fn export_fails_on_unreadable_item() {
    let mut store = store_with("pw", &[("a", "one")]);
    let mut n = NewItem::created_at("b".to_string(), at(1));
    n.contents = Some(session("other").encrypt("two"));
    store.insert(&n).unwrap();
    let mut vault = AppCore::locked(store);
    vault.try_unlock("pw").unwrap();
    assert_eq!(vault.export_items(), Err(CoreError::Decryption));
}

#[test]
fn add_item_fails_when_ids_run_out() {
    let mut store = ItemStore::new();
    let top = Item { id: i32::MAX, title: "top".to_string(), contents: None, date_added: at(0), date_last_modified: at(0) };
    store.restore(top).unwrap();
    let mut vault = AppCore::locked(store);
    vault.try_unlock("pw").unwrap();
    assert_eq!(vault.add_item("more".to_string(), "x", at(1)).unwrap_err(), CoreError::IdsExhausted);
    assert_eq!(vault.store().len(), 1);
}

#[test]
fn store_errors_on_missing_ids() {
    let mut store = ItemStore::new();
    let item = store.insert(&NewItem::created_at("a".to_string(), at(1))).unwrap();
    let mut ghost_item = item.clone();
    ghost_item.id = 99;
    assert_eq!(store.update(&ghost_item), Err(StoreError::NotFound));
    assert_eq!(store.delete(99), Err(StoreError::NotFound));
    assert_eq!(store.find_by_id(99), None);
    assert_eq!(store.find_by_id(item.id), Some(item.clone()));
    assert_eq!(store.restore(item.clone()), Err(StoreError::DuplicateId));
    assert_eq!(store.delete(item.id), Ok(()));
    assert_eq!(store.len(), 0);
}

#[test]
fn decrypt_contents_of_empty_item_is_empty_text() {
    let item = Item { id: 1, title: "t".to_string(), contents: None, date_added: at(0), date_last_modified: at(0) };
    assert_eq!(item.decrypt_contents(&session("k")), Ok(String::new()));
    let s = session("k");
    let full = Item { contents: Some(s.encrypt("body")), ..item };
    assert_eq!(full.decrypt_contents(&s), Ok("body".to_string()));
    assert_eq!(full.decrypt_contents(&session("j")), Err(CryptError::Decryption));
}

#[test]
fn new_item_starts_empty_and_now() {
    let n = NewItem::new("New".to_string()).expect("the clock reads after 1970");
    assert_eq!(n.title, "New");
    assert_eq!(n.contents, None);
    assert_eq!(n.date_added, n.date_last_modified);
    assert!(n.date_added.secs > 1_600_000_000);
    assert!(n.date_added.nanos < 1_000_000_000);
    let now = Timestamp::now().expect("the clock reads after 1970");
    assert!(now.secs >= n.date_added.secs);
}

#[test]
fn staged_rotation_changes_nothing_until_committed() {
    let mut core = AppCore::locked(store_with("old-key", &[("a", "one"), ("b", "two")]));
    core.try_unlock("old-key").unwrap();
    let before = core.store().find_all(None);
    let staged = core.stage_rotation("new-key").unwrap();
    assert_eq!(core.store().find_all(None), before);
    assert_eq!(core.read_item("a"), Ok(Some("one".to_string())));
    let rows = staged.staged_items().clone();
    assert_eq!(rows.len(), 2);
    assert_eq!(session("new-key").decrypt(rows[1].contents.as_ref().unwrap()), Ok("two".to_string()));
    assert_eq!(core.commit_rotation(staged), Ok(()));
    assert_eq!(core.store().find_all(None), rows);
    assert_eq!(core.read_item("b"), Ok(Some("two".to_string())));
}

#[test]
fn dropped_staged_rotation_keeps_old_key() {
    let mut core = AppCore::locked(store_with("old-key", &[("a", "one")]));
    core.try_unlock("old-key").unwrap();
    let staged = core.stage_rotation("new-key").unwrap();
    drop(staged);
    let c = contents_of(core.store(), "a");
    assert_eq!(session("old-key").decrypt(&c), Ok("one".to_string()));
    assert_eq!(core.read_item("a"), Ok(Some("one".to_string())));
    assert_eq!(core.stage_rotation("").err(), Some(CoreError::InvalidCredential));
}

#[test]
fn commit_refuses_stale_rotation() {
    let mut core = AppCore::locked(store_with("old-key", &[("a", "one")]));
    core.try_unlock("old-key").unwrap();
    let staged = core.stage_rotation("new-key").unwrap();
    core.add_item("b".to_string(), "two", at(7)).unwrap();
    let before = core.store().find_all(None);
    assert_eq!(core.commit_rotation(staged), Err(CoreError::StaleRotation));
    assert_eq!(core.store().find_all(None), before);
    assert_eq!(core.read_item("a"), Ok(Some("one".to_string())));
}

#[test]
fn commit_refuses_rotation_after_contents_change() {
    let mut core = AppCore::locked(store_with("old-key", &[("a", "one")]));
    core.try_unlock("old-key").unwrap();
    let staged = core.stage_rotation("new-key").unwrap();
    core.write_item("a", "edited", at(9)).unwrap();
    assert_eq!(core.commit_rotation(staged), Err(CoreError::StaleRotation));
    assert_eq!(core.read_item("a"), Ok(Some("edited".to_string())));
}

#[test]
fn commit_refuses_rotation_staged_on_another_core() {
    let mut first = AppCore::locked(store_with("key-one", &[("a", "one")]));
    first.try_unlock("key-one").unwrap();
    let mut second = AppCore::locked(store_with("key-two", &[("a", "one")]));
    second.try_unlock("key-two").unwrap();
    let staged = first.stage_rotation("new-key").unwrap();
    assert_eq!(second.commit_rotation(staged), Err(CoreError::StaleRotation));
    assert_eq!(second.read_item("a"), Ok(Some("one".to_string())));
}

#[test]
fn equal_titles_keep_insertion_order() {
    let mut core = AppCore::locked(ItemStore::new());
    core.try_unlock("pw").unwrap();
    let first = core.add_item("New".to_string(), "first", at(1)).unwrap();
    let second = core.add_item("New".to_string(), "second", at(2)).unwrap();
    let ids: Vec<i32> = core.store().find_all(None).iter().map(|i| i.id).collect();
    assert_eq!(ids, vec![first.id, second.id]);
    assert_eq!(core.read_item("New"), Ok(Some("first".to_string())));
}
