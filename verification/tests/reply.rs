use sherlock_rs::reply::{
    accept_reply, check_note, check_passphrase, count_reply, detail_reply, effective_distance,
    init_reply, list_reply, lock_reply, profile_change_reply, reject_reply, status_response,
    unlock_reply, update_response, vault_locked_response, Body, Reply,
};
use sherlock_rs::sites::SiteData;
use sherlock_rs::table::Table;
use sherlock_rs::vault::VaultError;

fn error_of(r: Reply) -> (u16, String) {
    match r.body {
        Body::Error(e) => (r.status, e),
        other => panic!("expected Error, got {other:?}"),
    }
}

#[test]
fn passphrases_have_eight_bytes() {
    assert!(check_passphrase("12345678").is_none());
    assert!(check_passphrase("éééé").is_none());
    let r = check_passphrase("1234567").unwrap();
    assert_eq!(r.status, 400);
    match r.body {
        Body::Unrecoverable { error, recovery } => {
            assert_eq!(error, "passphrase must be at least 8 characters");
            assert_eq!(
                recovery,
                "none — there is no passphrase recovery; choose carefully"
            );
        }
        other => panic!("expected Unrecoverable, got {other:?}"),
    }
}

#[test]
fn creation_is_answered() {
    let r = init_reply(Ok(()));
    assert_eq!(r.status, 200);
    assert!(matches!(r.body, Body::Warning(w) if w.starts_with("Forgetting this passphrase")));
    assert_eq!(
        error_of(init_reply(Err(VaultError::AlreadyInitialized.message()))),
        (409, "vault already initialized".to_string())
    );
    assert_eq!(
        error_of(init_reply(Err("open vault db".into()))),
        (500, "open vault db".to_string())
    );
}

#[test]
fn opening_is_answered() {
    let r = unlock_reply(Ok(()));
    assert_eq!(r.status, 200);
    assert!(matches!(r.body, Body::Done));
    assert_eq!(
        error_of(unlock_reply(Err(VaultError::WrongPassphrase.message()))),
        (401, "wrong passphrase".to_string())
    );
    assert_eq!(
        error_of(unlock_reply(Err(VaultError::NotInitialized.message()))),
        (409, "vault not initialized".to_string())
    );
    assert_eq!(
        error_of(unlock_reply(Err(VaultError::SaltWrongLength.message()))),
        (500, "vault.salt has wrong length".to_string())
    );
    assert_eq!(lock_reply(Ok(())).status, 200);
    assert_eq!(error_of(lock_reply(Err("x".into()))), (500, "x".to_string()));
}

#[test]
fn locked_vault_answers_423() {
    assert_eq!(
        error_of(vault_locked_response()),
        (423, "vault locked".to_string())
    );
    assert_eq!(error_of(list_reply(true, Ok(()))).0, 423);
    assert_eq!(error_of(detail_reply(true, Ok(true))).0, 423);
    assert_eq!(error_of(profile_change_reply(true, Ok(true))).0, 423);
    assert_eq!(error_of(accept_reply(true, Ok("p".into()))).0, 423);
    assert_eq!(error_of(reject_reply(true, Ok(()))).0, 423);
    assert_eq!(error_of(check_note(true, "x").unwrap()).0, 423);
    let r = count_reply(true, Ok(5));
    assert_eq!(r.status, 200);
    assert!(matches!(
        r.body,
        Body::Count {
            count: 0,
            locked: true
        }
    ));
}

#[test]
fn lists_and_details_are_answered() {
    assert!(matches!(list_reply(false, Ok(())).body, Body::Payload));
    assert_eq!(
        error_of(list_reply(false, Err("db".into()))),
        (500, "db".to_string())
    );
    assert!(matches!(detail_reply(false, Ok(true)).body, Body::Payload));
    assert_eq!(
        error_of(detail_reply(false, Ok(false))),
        (404, "not found".to_string())
    );
    assert_eq!(error_of(detail_reply(false, Err("db".into()))).0, 500);
    assert!(matches!(
        count_reply(false, Ok(5)).body,
        Body::Count {
            count: 5,
            locked: false
        }
    ));
    assert_eq!(error_of(count_reply(false, Err("db".into()))).0, 500);
}

#[test]
fn reviews_are_answered() {
    let r = accept_reply(false, Ok("p1".into()));
    assert!(matches!(r.body, Body::Profile(p) if p == "p1"));
    assert_eq!(
        error_of(accept_reply(false, Err("Other(\"already resolved\")".into()))),
        (409, "already resolved".to_string())
    );
    assert_eq!(
        error_of(accept_reply(false, Err(VaultError::NotFound.message()))),
        (404, "not found".to_string())
    );
    assert_eq!(error_of(accept_reply(false, Err("x".into()))).0, 500);
    assert!(matches!(reject_reply(false, Ok(())).body, Body::Done));
    assert_eq!(
        error_of(reject_reply(false, Err(VaultError::NotPending.message()))),
        (409, "not pending or not found".to_string())
    );
    assert_eq!(error_of(reject_reply(false, Err("x".into()))).0, 500);
}

#[test]
fn notes_are_limited() {
    assert!(check_note(false, &"x".repeat(64 * 1024)).is_none());
    assert_eq!(
        error_of(check_note(false, &"x".repeat(64 * 1024 + 1)).unwrap()),
        (413, "note exceeds 64 KiB".to_string())
    );
    assert!(matches!(
        profile_change_reply(false, Ok(true)).body,
        Body::Done
    ));
    assert_eq!(
        error_of(profile_change_reply(false, Ok(false))),
        (404, "profile not found".to_string())
    );
    assert_eq!(error_of(profile_change_reply(false, Err("x".into()))).0, 500);
}

#[test]
fn distances_are_limited() {
    assert_eq!(effective_distance(None), 8);
    assert_eq!(effective_distance(Some(0)), 0);
    assert_eq!(effective_distance(Some(31)), 31);
    assert_eq!(effective_distance(Some(64)), 32);
}

#[test]
fn loading_is_reported() {
    let s = status_response(None, &Some("offline".into()));
    assert!(!s.ready);
    assert_eq!(s.sites_count, 0);
    assert_eq!(s.error.as_deref(), Some("offline"));
    let t: Table<SiteData> = Table::new();
    let s = status_response(Some(&t), &None);
    assert!(s.ready);
    assert_eq!(s.error, None);
    let u = update_response(Ok(7));
    assert!(u.success);
    assert_eq!(u.sites_count, 7);
    let u = update_response(Err("x".into()));
    assert!(!u.success);
    assert_eq!(u.sites_count, 0);
    assert_eq!(u.error.as_deref(), Some("x"));
}
