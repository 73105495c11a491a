use sherlock_rs::vault::{
    begin_init, begin_unlock, derive_key, format_age, key_for_existing, key_for_new, key_pragma,
    new_salt, next_init, next_unlock, parse_salt, salt_text, OpenStep, VaultError, VaultState,
    DEFAULT_LOCK_TIMEOUT, SALT_LEN, SECOND,
};

#[test]
fn derive_key_is_deterministic_and_32_bytes() {
    let salt = [0u8; SALT_LEN];
    let k1 = derive_key("hunter2", &salt).expect("kdf 1");
    let k2 = derive_key("hunter2", &salt).expect("kdf 2");
    assert_eq!(k1, k2);
    assert_ne!(k1, [0u8; 32]);
}

#[test]
fn derive_key_differs_on_different_passphrase() {
    let salt = [0u8; SALT_LEN];
    let k1 = derive_key("alpha", &salt).expect("kdf 1");
    let k2 = derive_key("bravo", &salt).expect("kdf 2");
    assert_ne!(k1, k2);
}

#[test]
fn derive_key_differs_on_different_salt() {
    let s1 = [1u8; SALT_LEN];
    let s2 = [2u8; SALT_LEN];
    let k1 = derive_key("alpha", &s1).expect("kdf 1");
    let k2 = derive_key("alpha", &s2).expect("kdf 2");
    assert_ne!(k1, k2);
}

#[test]
fn derive_key_takes_an_empty_passphrase() {
    assert!(derive_key("", &[7u8; SALT_LEN]).is_ok());
}

#[test]
fn key_is_handed_over_in_hexadecimal() {
    let mut key = [0u8; 32];
    key[0] = 0xab;
    key[31] = 0x01;
    let expected = format!(
        "PRAGMA key = \"x'ab{}01'\"; PRAGMA cipher_page_size = 4096;",
        "00".repeat(30)
    );
    assert_eq!(key_pragma(&key), expected);
}

#[test]
fn salt_file_holds_base64() {
    let salt = [
        0u8, 1, 2, 3, 4, 5, 6, 7, 8, 9, 10, 11, 12, 13, 254, 255,
    ];
    assert_eq!(salt_text(&salt), "AAECAwQFBgcICQoLDA3+/w==");
}

#[test]
fn salt_file_gives_back_the_salt() {
    let (salt, held) = new_salt();
    assert_eq!(held.len(), 24);
    assert_eq!(parse_salt(&held).unwrap(), salt);
    assert_eq!(parse_salt(&format!(" {}\n", held)).unwrap(), salt);
    let (other, _) = new_salt();
    assert_ne!(salt, other);
}

#[test]
fn bad_salt_files_are_refused() {
    assert!(matches!(
        parse_salt("not base64!"),
        Err(VaultError::SaltNotBase64)
    ));
    assert!(matches!(
        parse_salt("AAECAwQFBgcICQoLDA3+/w"),
        Err(VaultError::SaltNotBase64)
    ));
    assert!(matches!(
        parse_salt("AAEC"),
        Err(VaultError::SaltWrongLength)
    ));
    assert!(matches!(parse_salt(""), Err(VaultError::SaltWrongLength)));
}

#[test]
fn same_passphrase_opens_again() {
    let (made, held) = key_for_new("correct-passphrase").unwrap();
    let again = key_for_existing("correct-passphrase", &held).unwrap();
    assert_eq!(made.key, again.key);
    assert_eq!(made.pragma, again.pragma);
    let wrong = key_for_existing("wrong-passphrase", &held).unwrap();
    assert_ne!(made.key, wrong.key);
    assert!(matches!(
        key_for_existing("x", "AAEC"),
        Err(VaultError::SaltWrongLength)
    ));
    assert!(matches!(
        key_for_existing("x", "?"),
        Err(VaultError::SaltNotBase64)
    ));
}

#[test]
fn ages_are_shown_in_one_unit() {
    assert_eq!(format_age(0), "0s");
    assert_eq!(format_age(59), "59s");
    assert_eq!(format_age(60), "1m");
    assert_eq!(format_age(3599), "59m");
    assert_eq!(format_age(3600), "1h");
    assert_eq!(format_age(90_000), "25h");
}

#[test]
fn vault_locks_when_idle() {
    let mut v = VaultState::new(5);
    assert!(v.is_locked());
    assert!(!v.maybe_auto_lock(u64::MAX));
    v.note_step(OpenStep::Done, 10);
    assert!(!v.is_locked());
    v.touch(20 * SECOND);
    assert!(!v.maybe_auto_lock(20 * SECOND + DEFAULT_LOCK_TIMEOUT - 1));
    assert!(!v.is_locked());
    assert!(v.maybe_auto_lock(20 * SECOND + DEFAULT_LOCK_TIMEOUT));
    assert!(v.is_locked());
    assert!(!v.lock());
    assert!(v.check_unlocked().is_err());
}

#[test]
fn locking_says_whether_it_was_open() {
    let mut v = VaultState::new(0);
    v.note_step(OpenStep::Probe, 1);
    assert!(v.is_locked());
    v.note_step(OpenStep::Done, 1);
    assert!(v.check_unlocked().is_ok());
    assert!(v.lock());
    assert!(!v.lock());
}

#[test]
fn status_is_shown() {
    let mut v = VaultState::new(0);
    let s = v.status(false, 7);
    assert!(!s.initialized);
    assert!(s.locked);
    assert_eq!(s.opened_at, None);
    assert_eq!(s.idle_seconds_until_lock, None);
    v.note_step(OpenStep::Done, 0);
    let s = v.status(true, 90 * SECOND + 1);
    assert!(s.initialized);
    assert!(!s.locked);
    assert_eq!(s.opened_at.as_deref(), Some("1m"));
    assert_eq!(s.idle_seconds_until_lock, Some(1709));
    let s = v.status(true, u64::MAX);
    assert_eq!(s.idle_seconds_until_lock, Some(0));
}

#[test]
fn vault_is_created_step_by_step() {
    assert!(matches!(
        begin_init(true),
        Err(VaultError::AlreadyInitialized)
    ));
    let mut step = begin_init(false).unwrap();
    let mut seen = Vec::new();
    while step != OpenStep::Done {
        seen.push(step);
        step = next_init(step, Ok(())).unwrap();
    }
    assert_eq!(
        seen,
        vec![
            OpenStep::CreateDir,
            OpenStep::OpenDatabase,
            OpenStep::Migrate,
            OpenStep::WriteSalt,
            OpenStep::Audit,
        ]
    );
}

#[test]
fn failed_steps_are_reported() {
    let e = next_init(OpenStep::OpenDatabase, Err("io".into())).unwrap_err();
    assert_eq!(e.message(), "open vault db");
    let e = next_init(OpenStep::Migrate, Err("io".into())).unwrap_err();
    assert_eq!(e.message(), "run vault migrations");
    let e = next_init(OpenStep::WriteSalt, Err("disk full".into())).unwrap_err();
    assert_eq!(e.message(), "disk full");
    assert_eq!(
        next_init(OpenStep::Audit, Err("ignored".into())).unwrap(),
        OpenStep::Done
    );
    let e = next_unlock(OpenStep::Probe, Err("file is not a database".into())).unwrap_err();
    assert_eq!(e.message(), "wrong passphrase");
    let e = next_unlock(OpenStep::ReadSalt, Err("gone".into())).unwrap_err();
    assert_eq!(e.message(), "gone");
}

#[test]
fn vault_is_opened_step_by_step() {
    assert!(matches!(
        begin_unlock(false),
        Err(VaultError::NotInitialized)
    ));
    let mut step = begin_unlock(true).unwrap();
    let mut seen = Vec::new();
    while step != OpenStep::Done {
        seen.push(step);
        step = next_unlock(step, Ok(())).unwrap();
    }
    assert_eq!(
        seen,
        vec![
            OpenStep::ReadSalt,
            OpenStep::OpenDatabase,
            OpenStep::Probe,
            OpenStep::Audit,
        ]
    );
}

#[test]
fn errors_are_worded() {
    assert_eq!(
        VaultError::AlreadyInitialized.message(),
        "vault already initialized"
    );
    assert_eq!(VaultError::NotInitialized.message(), "vault not initialized");
    assert_eq!(
        VaultError::SaltNotBase64.message(),
        "vault.salt is not valid base64"
    );
    assert_eq!(
        VaultError::SaltWrongLength.message(),
        "vault.salt has wrong length"
    );
    assert_eq!(VaultError::Kdf.message(), "argon2 KDF failed");
    assert_eq!(VaultError::WrongPassphrase.message(), "wrong passphrase");
    assert_eq!(VaultError::Locked.message(), "vault locked");
    assert_eq!(VaultError::AlreadyResolved.message(), "already resolved");
    assert_eq!(VaultError::NotFound.message(), "not found");
    assert_eq!(VaultError::NotPending.message(), "not pending or not found");
    assert_eq!(VaultError::Other("x".into()).message(), "x");
}
