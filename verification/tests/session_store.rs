use session_store::data::SessionRepository;
use session_store::data::SessionStore;
use session_store::domain::AddUserToSessionUseCase;
use session_store::domain::ClearSessionUseCase;
use session_store::domain::CreateSessionUseCase;
use session_store::domain::GetSessionUseCase;
use session_store::domain::UpdateSessionIpUseCase;
use session_store::models::AddUserToSessionRequest;
use session_store::models::ClearSessionRequest;
use session_store::models::CreateSessionRequest;
use session_store::models::Device;
use session_store::models::GetSessionRequest;
use session_store::models::Session;
use session_store::models::SessionError;
use session_store::models::UpdateSessionIpRequest;

fn pc(name: &str) -> Device {
    Device::PC { name: name.to_owned() }
}

fn create(store: &mut SessionStore, device: Device, ip: &str, key: &[u8]) -> Session {
    store
        .create_session(device, ip.to_owned(), key.to_vec())
        .expect("creating a session in an in-memory store should succeed")
}

#[test]
fn create_session_returns_anonymous_record() {
    let mut store = SessionStore::new();
    let s = create(&mut store, pc("laptop"), "192.168.0.9", b"k0");
    assert_eq!(s.device, pc("laptop"));
    assert_eq!(s.ip_address, "192.168.0.9");
    assert_eq!(s.session_key, b"k0".to_vec());
    assert_eq!(s.user_id, None);
    // the id is the hyphenated form of a 128-bit identifier
    assert_eq!(s.id.len(), 36);
}

#[test]
fn created_ids_are_unique() {
    let mut store = SessionStore::new();
    let mut ids: Vec<String> = Vec::new();
    for i in 0..16 {
        let s = create(&mut store, pc("laptop"), "10.0.0.1", &[i as u8]);
        assert!(!ids.contains(&s.id), "id was handed out twice");
        ids.push(s.id);
    }
}

#[test]
fn create_then_get_round_trip() {
    let mut store = SessionStore::new();
    let s = create(&mut store, pc("desk"), "10.1.2.3", b"secret");
    let got = store.get_session(&s.id).expect("the new id must resolve");
    assert_eq!(got, s);
}

#[test]
fn get_unknown_session_not_found() {
    let store = SessionStore::new();
    assert_eq!(
        store.get_session("no-such-id"),
        Err(SessionError::SessionNotFound)
    );
}

#[test]
fn bind_sets_user_and_rotates_key() {
    let mut store = SessionStore::new();
    assert!(store.register_user("alice".to_owned(), b"h1".to_vec()));
    let s = create(&mut store, pc("desk"), "10.0.0.5", b"k0");
    let bound = store
        .add_session_to_user(
            s.id.clone(),
            "10.0.0.6".to_owned(),
            "alice".to_owned(),
            b"k0".to_vec(),
            b"h1".to_vec(),
        )
        .expect("binding with the correct key and credential must succeed");
    assert_eq!(bound.id, s.id);
    assert_eq!(bound.user_id, Some("alice".to_owned()));
    assert_eq!(bound.ip_address, "10.0.0.6");
    assert_ne!(bound.session_key, b"k0".to_vec());
    assert_eq!(bound.session_key.len(), 16);
    // the pre-bind key no longer opens the session
    assert_eq!(
        store.update_session_ip(s.id.clone(), "10.0.0.7".to_owned(), b"k0".to_vec()),
        Err(SessionError::KeyMismatch)
    );
}

#[test]
fn rebind_same_user_is_idempotent() {
    let mut store = SessionStore::new();
    assert!(store.register_user("alice".to_owned(), b"h1".to_vec()));
    let s = create(&mut store, pc("desk"), "10.0.0.5", b"k0");
    let bound = store
        .add_session_to_user(
            s.id.clone(),
            "10.0.0.6".to_owned(),
            "alice".to_owned(),
            b"k0".to_vec(),
            b"h1".to_vec(),
        )
        .expect("first binding must succeed");
    let again = store
        .add_session_to_user(
            s.id.clone(),
            "10.0.0.8".to_owned(),
            "alice".to_owned(),
            bound.session_key.clone(),
            b"h1".to_vec(),
        )
        .expect("binding again with the same user must be idempotent");
    assert_eq!(again, bound);
    // idempotent: nothing moved, the stored record is unchanged
    assert_eq!(store.get_session(&s.id).unwrap(), bound);
}

#[test]
fn rebind_different_user_conflicts() {
    let mut store = SessionStore::new();
    assert!(store.register_user("alice".to_owned(), b"h1".to_vec()));
    assert!(store.register_user("bob".to_owned(), b"h2".to_vec()));
    let s = create(&mut store, pc("desk"), "10.0.0.5", b"k0");
    let bound = store
        .add_session_to_user(
            s.id.clone(),
            "10.0.0.6".to_owned(),
            "alice".to_owned(),
            b"k0".to_vec(),
            b"h1".to_vec(),
        )
        .expect("first binding must succeed");
    assert_eq!(
        store.add_session_to_user(
            s.id.clone(),
            "10.0.0.6".to_owned(),
            "bob".to_owned(),
            bound.session_key.clone(),
            b"h2".to_vec(),
        ),
        Err(SessionError::UserBindingConflict)
    );
}

#[test]
fn bind_with_wrong_hash_fails() {
    let mut store = SessionStore::new();
    assert!(store.register_user("alice".to_owned(), b"h1".to_vec()));
    let s = create(&mut store, pc("desk"), "10.0.0.5", b"k0");
    assert_eq!(
        store.add_session_to_user(
            s.id.clone(),
            "10.0.0.6".to_owned(),
            "alice".to_owned(),
            b"k0".to_vec(),
            b"wrong".to_vec(),
        ),
        Err(SessionError::AuthenticationFailed)
    );
    // the failed attempt neither bound the user nor rotated the key
    let unchanged = store.get_session(&s.id).unwrap();
    assert_eq!(unchanged.user_id, None);
    assert_eq!(unchanged.session_key, b"k0".to_vec());
}

#[test]
fn bind_with_unknown_user_fails() {
    let mut store = SessionStore::new();
    let s = create(&mut store, pc("desk"), "10.0.0.5", b"k0");
    assert_eq!(
        store.add_session_to_user(
            s.id.clone(),
            "10.0.0.6".to_owned(),
            "nobody".to_owned(),
            b"k0".to_vec(),
            b"h1".to_vec(),
        ),
        Err(SessionError::AuthenticationFailed)
    );
}

#[test]
fn bind_with_wrong_key_fails() {
    let mut store = SessionStore::new();
    assert!(store.register_user("alice".to_owned(), b"h1".to_vec()));
    let s = create(&mut store, pc("desk"), "10.0.0.5", b"k0");
    assert_eq!(
        store.add_session_to_user(
            s.id.clone(),
            "10.0.0.6".to_owned(),
            "alice".to_owned(),
            b"stale".to_vec(),
            b"h1".to_vec(),
        ),
        Err(SessionError::KeyMismatch)
    );
}

#[test]
fn bind_unknown_session_not_found() {
    let mut store = SessionStore::new();
    assert!(store.register_user("alice".to_owned(), b"h1".to_vec()));
    assert_eq!(
        store.add_session_to_user(
            "missing".to_owned(),
            "10.0.0.6".to_owned(),
            "alice".to_owned(),
            b"k0".to_vec(),
            b"h1".to_vec(),
        ),
        Err(SessionError::SessionNotFound)
    );
}

#[test]
fn update_with_stale_key_fails() {
    let mut store = SessionStore::new();
    let s = create(&mut store, pc("desk"), "10.0.0.5", b"k0");
    let moved = store
        .update_session_ip(s.id.clone(), "10.0.0.6".to_owned(), b"k0".to_vec())
        .expect("updating with the current key must succeed");
    assert_eq!(moved.ip_address, "10.0.0.6");
    assert_ne!(moved.session_key, b"k0".to_vec());
    // the previous rotation's key never updates silently
    assert_eq!(
        store.update_session_ip(s.id.clone(), "10.0.0.9".to_owned(), b"k0".to_vec()),
        Err(SessionError::KeyMismatch)
    );
    assert_eq!(store.get_session(&s.id).unwrap().ip_address, "10.0.0.6");
}

#[test]
fn update_unknown_session_not_found() {
    let mut store = SessionStore::new();
    assert_eq!(
        store.update_session_ip("missing".to_owned(), "10.0.0.6".to_owned(), b"k".to_vec()),
        Err(SessionError::SessionNotFound)
    );
}

#[test]
fn clear_then_get_not_found() {
    let mut store = SessionStore::new();
    let s = create(&mut store, pc("desk"), "10.0.0.5", b"k0");
    store.clear_session(s.id.clone(), b"k0".to_vec());
    assert_eq!(store.get_session(&s.id), Err(SessionError::SessionNotFound));
    // the retired id is never handed out again
    for i in 0..16 {
        let fresh = create(&mut store, pc("desk"), "10.0.0.5", &[i as u8]);
        assert_ne!(fresh.id, s.id);
    }
}

#[test]
fn clear_with_wrong_key_keeps_session() {
    let mut store = SessionStore::new();
    let s = create(&mut store, pc("desk"), "10.0.0.5", b"k0");
    store.clear_session(s.id.clone(), b"stale".to_vec());
    assert_eq!(store.get_session(&s.id).unwrap(), s);
}

#[test]
fn evicted_cache_entry_still_resolves() {
    let mut store = SessionStore::new();
    let s = create(&mut store, pc("desk"), "10.0.0.5", b"k0");
    // dropping the fast-path snapshot must not lose the session: the cache
    // is an optimization, never the source of truth
    store.evict_cache_entry(&s.id);
    assert_eq!(store.get_session(&s.id).unwrap(), s);
    // and a mutation through the fallback repopulates the fast path
    let moved = store
        .update_session_ip(s.id.clone(), "10.0.0.6".to_owned(), b"k0".to_vec())
        .expect("the evicted entry is still live in the system of record");
    assert_eq!(store.get_session(&s.id).unwrap(), moved);
}

#[test]
fn expired_session_is_retired() {
    let mut store = SessionStore::new();
    let s = create(&mut store, pc("desk"), "10.0.0.5", b"k0");
    store.expire_session(&s.id);
    assert_eq!(store.get_session(&s.id), Err(SessionError::SessionNotFound));
    // an expired id is retired like a cleared one and never handed out again
    for i in 0..16 {
        let fresh = create(&mut store, pc("desk"), "10.0.0.5", &[i as u8]);
        assert_ne!(fresh.id, s.id);
    }
}

#[test]
fn expire_unknown_session_is_a_no_op() {
    let mut store = SessionStore::new();
    let s = create(&mut store, pc("desk"), "10.0.0.5", b"k0");
    store.expire_session(&"missing".to_owned());
    assert_eq!(store.get_session(&s.id).unwrap(), s);
}

#[test]
fn register_user_rejects_duplicate() {
    let mut store = SessionStore::new();
    assert!(store.register_user("alice".to_owned(), b"h1".to_vec()));
    assert!(!store.register_user("alice".to_owned(), b"h2".to_vec()));
}

#[test]
fn use_cases_delegate_to_repository() {
    let mut store = SessionStore::new();
    assert!(store.register_user("alice".to_owned(), b"h1".to_vec()));

    let created = CreateSessionUseCase::new()
        .execute(
            &mut store,
            CreateSessionRequest {
                device: pc("desk"),
                ip_addr: "10.0.0.5".to_owned(),
                session_key: b"k0".to_vec(),
            },
        )
        .expect("creation through the use case must succeed");

    let fetched = GetSessionUseCase {}
        .execute(&store, GetSessionRequest { id: created.id.clone() })
        .expect("lookup through the use case must succeed");
    assert_eq!(fetched, created);

    let bound = AddUserToSessionUseCase::new()
        .execute(
            &mut store,
            AddUserToSessionRequest {
                session_id: created.id.clone(),
                latest_ip_address: "10.0.0.6".to_owned(),
                user_id: "alice".to_owned(),
                session_key: b"k0".to_vec(),
                user_password_hash: b"h1".to_vec(),
            },
        )
        .expect("binding through the use case must succeed");
    assert_eq!(bound.user_id, Some("alice".to_owned()));

    let moved = UpdateSessionIpUseCase::new()
        .execute(
            &mut store,
            UpdateSessionIpRequest {
                session_id: created.id.clone(),
                latest_ip_address: "10.0.0.7".to_owned(),
                session_key: bound.session_key.clone(),
            },
        )
        .expect("the rotated key must open the session");
    assert_eq!(moved.ip_address, "10.0.0.7");

    let cleared = ClearSessionUseCase::new().execute(
        &mut store,
        ClearSessionRequest {
            session_id: created.id.clone(),
            session_key: moved.session_key.clone(),
        },
    );
    assert_eq!(cleared, Ok(()));
    assert_eq!(
        store.get_session(&created.id),
        Err(SessionError::SessionNotFound)
    );
}

#[test]
fn scenario_workstation_lifecycle() {
    let mut store = SessionStore::new();
    assert!(store.register_user("u1".to_owned(), b"h1".to_vec()));

    // create with a PC named "workstation" at 10.0.0.5 under key k0
    let s1 = create(
        &mut store,
        Device::PC { name: "workstation".to_owned() },
        "10.0.0.5",
        b"k0",
    );

    // escalate to u1 from 10.0.0.6 with the correct credential hash
    let bound = store
        .add_session_to_user(
            s1.id.clone(),
            "10.0.0.6".to_owned(),
            "u1".to_owned(),
            b"k0".to_vec(),
            b"h1".to_vec(),
        )
        .expect("binding must succeed");
    assert_eq!(bound.id, s1.id);
    assert_eq!(bound.user_id, Some("u1".to_owned()));
    assert_eq!(bound.ip_address, "10.0.0.6");
    let k1 = bound.session_key.clone();
    assert_ne!(k1, b"k0".to_vec());

    // the stale key fails, the fresh key moves the session
    assert_eq!(
        store.update_session_ip(s1.id.clone(), "10.0.0.7".to_owned(), b"k0".to_vec()),
        Err(SessionError::KeyMismatch)
    );
    let moved = store
        .update_session_ip(s1.id.clone(), "10.0.0.7".to_owned(), k1.clone())
        .expect("the rotated key must open the session");
    assert_eq!(moved.ip_address, "10.0.0.7");
    let k2 = moved.session_key.clone();
    assert_ne!(k2, k1);

    // clearing with the current key retires the session
    store.clear_session(s1.id.clone(), k2);
    assert_eq!(store.get_session(&s1.id), Err(SessionError::SessionNotFound));
}
