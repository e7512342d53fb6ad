use vstd::prelude::*;
use vstd::pervasive::VecAdditionalExecFns;

use crate::models::Device;
use crate::models::Session;
use crate::models::SessionError;
use crate::models::SessionView;
use crate::models::bytes_eq;

verus! {

/// One user identity known to the system-of-record store, with the
/// credential hash that the user-binding operation verifies against.
pub struct UserCredential {
    pub user_id: String,
    pub password_hash: Vec<u8>,
}

/// Mathematical image of the whole repository state.
pub struct StoreView {
    /// The system of record: every live session, keyed by id.
    pub live: Map<Seq<char>, SessionView>,
    /// The fast-path cache: denormalized snapshots, keyed by id.
    pub cache: Map<Seq<char>, SessionView>,
    /// Ids of cleared sessions; permanently retired, never recycled.
    pub retired: Set<Seq<char>>,
    /// Stored user credentials, keyed by user id.
    pub creds: Map<Seq<char>, Seq<u8>>,
}

pub open spec fn distinct_ids(s: Seq<Session>) -> bool {
    forall|i: int, j: int| 0 <= i < j < s.len() ==> s[i]@.id != s[j]@.id
}

pub open spec fn distinct_users(s: Seq<UserCredential>) -> bool {
    forall|i: int, j: int| 0 <= i < j < s.len() ==> s[i].user_id@ != s[j].user_id@
}

/// The map a sequence of session records denotes, keyed by session id.
pub open spec fn session_map(s: Seq<Session>) -> Map<Seq<char>, SessionView>
    decreases s.len(),
{
    if s.len() == 0 {
        Map::empty()
    } else {
        session_map(s.drop_last()).insert(s.last()@.id, s.last()@)
    }
}

/// The set of ids a sequence of id strings denotes.
pub open spec fn id_set(s: Seq<String>) -> Set<Seq<char>>
    decreases s.len(),
{
    if s.len() == 0 {
        Set::empty()
    } else {
        id_set(s.drop_last()).insert(s.last()@)
    }
}

/// The credential map a sequence of user records denotes, keyed by user id.
pub open spec fn cred_map(s: Seq<UserCredential>) -> Map<Seq<char>, Seq<u8>>
    decreases s.len(),
{
    if s.len() == 0 {
        Map::empty()
    } else {
        cred_map(s.drop_last()).insert(s.last().user_id@, s.last().password_hash@)
    }
}

proof fn lemma_session_map_contains(s: Seq<Session>, id: Seq<char>)
    ensures
        session_map(s).contains_key(id) <==> exists|i: int| 0 <= i < s.len() && s[i]@.id == id,
    decreases s.len(),
{
    if s.len() > 0 {
        lemma_session_map_contains(s.drop_last(), id);
        if s.last()@.id == id {
            assert(s[s.len() - 1]@.id == id);
        } else {
            if exists|i: int| 0 <= i < s.len() && s[i]@.id == id {
                let i = choose|i: int| 0 <= i < s.len() && s[i]@.id == id;
                assert(s.drop_last()[i]@.id == id);
            }
        }
    }
}

proof fn lemma_session_map_index(s: Seq<Session>, i: int)
    requires
        distinct_ids(s),
        0 <= i < s.len(),
    ensures
        session_map(s).contains_key(s[i]@.id),
        session_map(s)[s[i]@.id] == s[i]@,
    decreases s.len(),
{
    if i < s.len() - 1 {
        lemma_session_map_index(s.drop_last(), i);
        assert(s.drop_last()[i] == s[i]);
        assert(s.last()@.id != s[i]@.id);
    }
}

proof fn lemma_session_map_push(s: Seq<Session>, x: Session)
    ensures
        session_map(s.push(x)) == session_map(s).insert(x@.id, x@),
{
    assert(s.push(x).drop_last() =~= s);
    assert(s.push(x).last() == x);
}

proof fn lemma_session_map_update(s: Seq<Session>, i: int, x: Session)
    requires
        distinct_ids(s),
        0 <= i < s.len(),
        x@.id == s[i]@.id,
    ensures
        session_map(s.update(i, x)) == session_map(s).insert(x@.id, x@),
    decreases s.len(),
{
    let t = s.update(i, x);
    if i == s.len() - 1 {
        assert(t.drop_last() =~= s.drop_last());
        assert(t.last() == x);
        assert(session_map(t) =~= session_map(s).insert(x@.id, x@));
    } else {
        assert(t.drop_last() =~= s.drop_last().update(i, x));
        lemma_session_map_update(s.drop_last(), i, x);
        assert(t.last() == s.last());
        assert(s.last()@.id != x@.id);
        assert(session_map(t) =~= session_map(s).insert(x@.id, x@));
    }
}

proof fn lemma_session_map_remove(s: Seq<Session>, i: int)
    requires
        distinct_ids(s),
        0 <= i < s.len(),
    ensures
        session_map(s.remove(i)) == session_map(s).remove(s[i]@.id),
    decreases s.len(),
{
    let t = s.remove(i);
    if i == s.len() - 1 {
        assert(t =~= s.drop_last());
        lemma_session_map_contains(s.drop_last(), s[i]@.id);
        assert(session_map(t) =~= session_map(s).remove(s[i]@.id));
    } else {
        assert(t.drop_last() =~= s.drop_last().remove(i));
        lemma_session_map_remove(s.drop_last(), i);
        assert(t.last() == s.last());
        assert(session_map(t) =~= session_map(s).remove(s[i]@.id));
    }
}

proof fn lemma_id_set_contains(s: Seq<String>, x: Seq<char>)
    ensures
        id_set(s).contains(x) <==> exists|i: int| 0 <= i < s.len() && s[i]@ == x,
    decreases s.len(),
{
    if s.len() > 0 {
        lemma_id_set_contains(s.drop_last(), x);
        if s.last()@ == x {
            assert(s[s.len() - 1]@ == x);
        } else {
            if exists|i: int| 0 <= i < s.len() && s[i]@ == x {
                let i = choose|i: int| 0 <= i < s.len() && s[i]@ == x;
                assert(s.drop_last()[i]@ == x);
            }
        }
    }
}

proof fn lemma_id_set_push(s: Seq<String>, x: String)
    ensures
        id_set(s.push(x)) == id_set(s).insert(x@),
{
    assert(s.push(x).drop_last() =~= s);
    assert(s.push(x).last() == x);
}

proof fn lemma_cred_map_contains(s: Seq<UserCredential>, uid: Seq<char>)
    ensures
        cred_map(s).contains_key(uid) <==> exists|i: int|
            0 <= i < s.len() && s[i].user_id@ == uid,
    decreases s.len(),
{
    if s.len() > 0 {
        lemma_cred_map_contains(s.drop_last(), uid);
        if s.last().user_id@ == uid {
            assert(s[s.len() - 1].user_id@ == uid);
        } else {
            if exists|i: int| 0 <= i < s.len() && s[i].user_id@ == uid {
                let i = choose|i: int| 0 <= i < s.len() && s[i].user_id@ == uid;
                assert(s.drop_last()[i].user_id@ == uid);
            }
        }
    }
}

proof fn lemma_cred_map_index(s: Seq<UserCredential>, i: int)
    requires
        distinct_users(s),
        0 <= i < s.len(),
    ensures
        cred_map(s).contains_key(s[i].user_id@),
        cred_map(s)[s[i].user_id@] == s[i].password_hash@,
    decreases s.len(),
{
    if i < s.len() - 1 {
        lemma_cred_map_index(s.drop_last(), i);
        assert(s.drop_last()[i] == s[i]);
        assert(s.last().user_id@ != s[i].user_id@);
    }
}

proof fn lemma_cred_map_push(s: Seq<UserCredential>, x: UserCredential)
    ensures
        cred_map(s.push(x)) == cred_map(s).insert(x.user_id@, x.password_hash@),
{
    assert(s.push(x).drop_last() =~= s);
    assert(s.push(x).last() == x);
}

/// The caller-supplied key opens the session for mutation: the id resolves
/// to a live session and the key equals the stored one.
pub open spec fn can_mutate(v: StoreView, id: Seq<char>, key: Seq<u8>) -> bool {
    v.live.contains_key(id) && v.live[id].session_key == key
}

/// The supplied credential hash equals the one stored for the user.
pub open spec fn cred_ok(v: StoreView, user_id: Seq<char>, hash: Seq<u8>) -> bool {
    v.creds.contains_key(user_id) && v.creds[user_id] == hash
}

/// What a successful creation did: the new id was never used before, the
/// record holds exactly the given device, origin and key with no user bound,
/// and both backends gained that record and nothing else.
pub open spec fn created_ok(
    pre: StoreView,
    post: StoreView,
    device: crate::models::DeviceView,
    ip: Seq<char>,
    key: Seq<u8>,
    s: SessionView,
) -> bool {
    &&& !pre.live.contains_key(s.id)
    &&& !pre.retired.contains(s.id)
    &&& s.device == device
    &&& s.ip_address == ip
    &&& s.session_key == key
    &&& s.user_id is None
    &&& post.live == pre.live.insert(s.id, s)
    &&& post.cache == pre.cache.insert(s.id, s)
    &&& post.retired == pre.retired
    &&& post.creds == pre.creds
}

/// What a successful IP update did: the key opened the session, the record
/// kept its identity and binding, moved to the new origin, and carries a
/// freshly rotated key; both backends hold the new record.
pub open spec fn update_ip_ok(
    pre: StoreView,
    post: StoreView,
    id: Seq<char>,
    ip: Seq<char>,
    given_key: Seq<u8>,
    s: SessionView,
) -> bool {
    &&& can_mutate(pre, id, given_key)
    &&& s.id == id
    &&& s.device == pre.live[id].device
    &&& s.ip_address == ip
    &&& s.user_id == pre.live[id].user_id
    &&& s.session_key != given_key
    &&& post.live == pre.live.insert(id, s)
    &&& post.cache == pre.cache.insert(id, s)
    &&& post.retired == pre.retired
    &&& post.creds == pre.creds
}

/// What a successful first-time user binding did: the key opened an
/// anonymous session, which is now bound to the user, at the new origin,
/// under a freshly rotated key; both backends hold the new record.
pub open spec fn bind_ok(
    pre: StoreView,
    post: StoreView,
    id: Seq<char>,
    ip: Seq<char>,
    user_id: Seq<char>,
    given_key: Seq<u8>,
    s: SessionView,
) -> bool {
    &&& can_mutate(pre, id, given_key)
    &&& pre.live[id].user_id is None
    &&& s.id == id
    &&& s.device == pre.live[id].device
    &&& s.ip_address == ip
    &&& s.user_id == Some(user_id)
    &&& s.session_key != given_key
    &&& post.live == pre.live.insert(id, s)
    &&& post.cache == pre.cache.insert(id, s)
    &&& post.retired == pre.retired
    &&& post.creds == pre.creds
}

/// What a successful clearing did: the record left both backends and the id
/// is retired for good.
pub open spec fn cleared(pre: StoreView, post: StoreView, id: Seq<char>) -> bool {
    &&& post.live == pre.live.remove(id)
    &&& post.cache == pre.cache.remove(id)
    &&& post.retired == pre.retired.insert(id)
    &&& post.creds == pre.creds
}

/// The consistency the store maintains, seen on its mathematical image:
/// no live id is retired, and the cache never disagrees with the system of
/// record — it is an optimization, never an independent source of truth.
pub open spec fn store_inv(v: StoreView) -> bool {
    &&& forall|id: Seq<char>| #[trigger] v.live.contains_key(id) ==> !v.retired.contains(id)
    &&& forall|id: Seq<char>| #[trigger] v.cache.contains_key(id) ==> v.live.contains_key(id)
        && v.cache[id] == v.live[id]
}

/// The session repository contract: create, bind-to-user, update-IP, fetch
/// and clear, each constraint-checked before touching storage. The contract
/// is stated over the abstract image `repo_view`, so callers depend on the
/// contract alone, not on the backing stores.
pub trait SessionRepository: Sized {
    /// The mathematical image of the repository state.
    spec fn repo_view(&self) -> StoreView;

    /// The well-formedness every operation requires and preserves.
    spec fn repo_wf(&self) -> bool;

    /// Allocates a fresh unique id and persists an anonymous session record
    /// for the given device, origin and key. Reports `StorageUnavailable`
    /// and changes nothing when the write cannot be completed; never
    /// partially persists.
    fn create_session(&mut self, device: Device, ip_addr: String, session_key: Vec<u8>) -> (r:
        Result<Session, SessionError>)
        requires
            old(self).repo_wf(),
        ensures
            final(self).repo_wf(),
            match r {
                Ok(s) => created_ok(
                    old(self).repo_view(),
                    final(self).repo_view(),
                    device@,
                    ip_addr@,
                    session_key@,
                    s@,
                ),
                Err(e) => e == SessionError::StorageUnavailable && *final(self) == *old(self),
            },
    ;

    /// Verifies the caller's key and the user's credential hash, then binds
    /// the session to the user, moves it to the new origin and issues a
    /// fresh key. Binding again with the same user is idempotent; binding
    /// to a different user is rejected; every failure leaves the store
    /// unchanged.
    fn add_session_to_user(
        &mut self,
        session_id: String,
        latest_ip_address: String,
        user_id: String,
        session_key: Vec<u8>,
        user_password_hash: Vec<u8>,
    ) -> (r: Result<Session, SessionError>)
        requires
            old(self).repo_wf(),
        ensures
            final(self).repo_wf(),
            !old(self).repo_view().live.contains_key(session_id@) ==> r == Err::<Session, SessionError>(
                SessionError::SessionNotFound,
            ) && *final(self) == *old(self),
            old(self).repo_view().live.contains_key(session_id@) && old(self).repo_view().live[session_id@].session_key
                != session_key@ ==> r == Err::<Session, SessionError>(SessionError::KeyMismatch)
                && *final(self) == *old(self),
            can_mutate(old(self).repo_view(), session_id@, session_key@) && !cred_ok(
                old(self).repo_view(),
                user_id@,
                user_password_hash@,
            ) ==> r == Err::<Session, SessionError>(SessionError::AuthenticationFailed)
                && *final(self) == *old(self),
            can_mutate(old(self).repo_view(), session_id@, session_key@) && cred_ok(
                old(self).repo_view(),
                user_id@,
                user_password_hash@,
            ) && old(self).repo_view().live[session_id@].user_id == Some(user_id@) ==> (r matches Ok(s)
                && s@ == old(self).repo_view().live[session_id@]) && *final(self) == *old(self),
            can_mutate(old(self).repo_view(), session_id@, session_key@) && cred_ok(
                old(self).repo_view(),
                user_id@,
                user_password_hash@,
            ) && (old(self).repo_view().live[session_id@].user_id matches Some(u) && u != user_id@) ==> r
                == Err::<Session, SessionError>(SessionError::UserBindingConflict) && *final(self)
                == *old(self),
            old(self).repo_view().live[session_id@].user_id is None ==> (r matches Ok(s) ==> bind_ok(
                old(self).repo_view(),
                final(self).repo_view(),
                session_id@,
                latest_ip_address@,
                user_id@,
                session_key@,
                s@,
            )),
            can_mutate(old(self).repo_view(), session_id@, session_key@) && cred_ok(
                old(self).repo_view(),
                user_id@,
                user_password_hash@,
            ) && old(self).repo_view().live[session_id@].user_id is None ==> (r matches Ok(_)) || (r
                == Err::<Session, SessionError>(SessionError::StorageUnavailable) && *final(self)
                == *old(self)),
    ;

    /// Verifies the caller's key, then moves the record to the new network
    /// origin and issues a fresh key, invalidating the old one. Never
    /// updates silently; every failure leaves the store unchanged.
    fn update_session_ip(
        &mut self,
        session_id: String,
        latest_ip_address: String,
        session_key: Vec<u8>,
    ) -> (r: Result<Session, SessionError>)
        requires
            old(self).repo_wf(),
        ensures
            final(self).repo_wf(),
            !old(self).repo_view().live.contains_key(session_id@) ==> r == Err::<Session, SessionError>(
                SessionError::SessionNotFound,
            ) && *final(self) == *old(self),
            old(self).repo_view().live.contains_key(session_id@) && old(self).repo_view().live[session_id@].session_key
                != session_key@ ==> r == Err::<Session, SessionError>(SessionError::KeyMismatch)
                && *final(self) == *old(self),
            r matches Ok(s) ==> update_ip_ok(
                old(self).repo_view(),
                final(self).repo_view(),
                session_id@,
                latest_ip_address@,
                session_key@,
                s@,
            ),
            can_mutate(old(self).repo_view(), session_id@, session_key@) ==> (r matches Ok(_)) || (r
                == Err::<Session, SessionError>(SessionError::StorageUnavailable) && *final(self)
                == *old(self)),
    ;

    /// Resolves an id to its one authoritative live record; no key is
    /// required for read access.
    fn get_session(&self, id: &str) -> (r: Result<Session, SessionError>)
        requires
            self.repo_wf(),
        ensures
            match r {
                Ok(s) => self.repo_view().live.contains_key(id@) && s@ == self.repo_view().live[id@],
                Err(e) => e == SessionError::SessionNotFound && !self.repo_view().live.contains_key(id@),
            },
    ;

    /// Verifies the caller's key, then deletes the record and retires the
    /// id for good. Fire-and-forget: no result reaches the caller.
    fn clear_session(&mut self, session_id: String, session_key: Vec<u8>)
        requires
            old(self).repo_wf(),
        ensures
            final(self).repo_wf(),
            can_mutate(old(self).repo_view(), session_id@, session_key@) ==> cleared(
                old(self).repo_view(),
                final(self).repo_view(),
                session_id@,
            ),
            !can_mutate(old(self).repo_view(), session_id@, session_key@) ==> *final(self) == *old(self),
    ;
}

/// The session repository: the system of record (`sessions`), the fast-path
/// cache (`cache`), the ids of cleared sessions (`retired`), and the stored
/// user credentials (`users`). Writes go to the system of record first and
/// to the cache second; reads may be served from the cache because
/// well-formedness keeps it in agreement with the system of record.
pub struct SessionStore {
    sessions: Vec<Session>,
    cache: Vec<Session>,
    retired: Vec<String>,
    users: Vec<UserCredential>,
}

impl View for SessionStore {
    type V = StoreView;

    closed spec fn view(&self) -> StoreView {
        StoreView {
            live: session_map(self.sessions@),
            cache: session_map(self.cache@),
            retired: id_set(self.retired@),
            creds: cred_map(self.users@),
        }
    }
}

/// How many draws of a fresh random identifier or key the store attempts
/// before it reports the write as failed.
const MINT_ATTEMPTS: usize = 16;

/// Relies on `uuid::Uuid::new_v4` and its `Display` form: a fresh random
/// 128-bit identifier rendered as 36 hyphenated characters. The value is
/// random, so nothing is stated beyond the length.
#[verifier::external_body]
fn random_session_id() -> (r: String)
    ensures
        r@.len() == 36,
{
    uuid::Uuid::new_v4().to_string()
}

/// Relies on `uuid::Uuid::new_v4` and `Uuid::as_bytes`: the 16 bytes of a
/// fresh random 128-bit value. The value is random, so nothing is stated
/// beyond the length.
#[verifier::external_body]
fn random_key_material() -> (r: Vec<u8>)
    ensures
        r@.len() == 16,
{
    uuid::Uuid::new_v4().as_bytes().to_vec()
}

/// Finds the position of the record with the given id, if any.
fn find_session(sessions: &Vec<Session>, id: &String) -> (r: Option<usize>)
    ensures
        match r {
            Some(i) => i < sessions@.len() && sessions@[i as int]@.id == id@,
            None => forall|j: int| 0 <= j < sessions@.len() ==> sessions@[j]@.id != id@,
        },
{
    let mut i: usize = 0;
    while i < sessions.len()
        invariant
            0 <= i <= sessions@.len(),
            forall|j: int| 0 <= j < i ==> sessions@[j]@.id != id@,
        decreases sessions@.len() - i,
    {
        if sessions[i].id == *id {
            return Some(i);
        }
        i += 1;
    }
    None
}

/// Finds the position of the credential record for the given user, if any.
fn find_user(users: &Vec<UserCredential>, user_id: &String) -> (r: Option<usize>)
    ensures
        match r {
            Some(i) => i < users@.len() && users@[i as int].user_id@ == user_id@,
            None => forall|j: int| 0 <= j < users@.len() ==> users@[j].user_id@ != user_id@,
        },
{
    let mut i: usize = 0;
    while i < users.len()
        invariant
            0 <= i <= users@.len(),
            forall|j: int| 0 <= j < i ==> users@[j].user_id@ != user_id@,
        decreases users@.len() - i,
    {
        if users[i].user_id == *user_id {
            return Some(i);
        }
        i += 1;
    }
    None
}

/// Decides whether the given id was retired by an earlier clearing.
fn retired_contains(retired: &Vec<String>, id: &String) -> (r: bool)
    ensures
        r == id_set(retired@).contains(id@),
{
    let mut i: usize = 0;
    while i < retired.len()
        invariant
            0 <= i <= retired@.len(),
            forall|j: int| 0 <= j < i ==> retired@[j]@ != id@,
        decreases retired@.len() - i,
    {
        if retired[i] == *id {
            proof {
                lemma_id_set_contains(retired@, id@);
            }
            return true;
        }
        i += 1;
    }
    proof {
        lemma_id_set_contains(retired@, id@);
    }
    false
}

impl SessionStore {
    /// Well-formedness: ids are unique in each backend, no live id is
    /// retired, user ids are unique, and every cache entry agrees with the
    /// record the system of record holds under the same id.
    pub closed spec fn wf(self) -> bool {
        &&& distinct_ids(self.sessions@)
        &&& distinct_ids(self.cache@)
        &&& distinct_users(self.users@)
        &&& forall|i: int| 0 <= i < self.sessions@.len()
            ==> !id_set(self.retired@).contains(#[trigger] self.sessions@[i]@.id)
        &&& forall|i: int| 0 <= i < self.cache@.len()
            ==> session_map(self.sessions@).contains_key(#[trigger] self.cache@[i]@.id)
                && session_map(self.sessions@)[self.cache@[i]@.id] == self.cache@[i]@
    }

    /// An empty store: no sessions, no retired ids, no credentials.
    pub fn new() -> (r: SessionStore)
        ensures
            r.wf(),
            r@.live == Map::<Seq<char>, SessionView>::empty(),
            r@.cache == Map::<Seq<char>, SessionView>::empty(),
            r@.retired == Set::<Seq<char>>::empty(),
            r@.creds == Map::<Seq<char>, Seq<u8>>::empty(),
    {
        SessionStore { sessions: Vec::new(), cache: Vec::new(), retired: Vec::new(), users: Vec::new() }
    }

    /// Records a user identity and its credential hash in the system of
    /// record, against which user bindings are verified. Returns false and
    /// changes nothing when the user id is already taken.
    pub fn register_user(&mut self, user_id: String, password_hash: Vec<u8>) -> (r: bool)
        requires
            old(self).wf(),
        ensures
            final(self).wf(),
            r == !old(self)@.creds.contains_key(user_id@),
            r ==> final(self)@.creds == old(self)@.creds.insert(user_id@, password_hash@),
            r ==> final(self)@.live == old(self)@.live && final(self)@.cache == old(self)@.cache
                && final(self)@.retired == old(self)@.retired,
            !r ==> *final(self) == *old(self),
    {
        proof {
            lemma_cred_map_contains(self.users@, user_id@);
        }
        match find_user(&self.users, &user_id) {
            Some(_) => false,
            None => {
                let cred = UserCredential { user_id, password_hash };
                proof {
                    lemma_cred_map_push(self.users@, cred);
                    assert(distinct_users(self.users@.push(cred)));
                }
                self.users.push(cred);
                true
            },
        }
    }

    /// Draws random identifiers until one is fresh: never an id of a live
    /// session, and never a retired one. Gives up after a bounded number of
    /// draws.
    fn mint_fresh_id(&self) -> (r: Option<String>)
        ensures
            match r {
                Some(id) => !self@.live.contains_key(id@) && !self@.retired.contains(id@),
                None => true,
            },
    {
        let mut attempts: usize = 0;
        while attempts < MINT_ATTEMPTS
            decreases MINT_ATTEMPTS - attempts,
        {
            let id = random_session_id();
            let hit = find_session(&self.sessions, &id);
            let gone = retired_contains(&self.retired, &id);
            if hit.is_none() && !gone {
                proof {
                    lemma_session_map_contains(self.sessions@, id@);
                }
                return Some(id);
            }
            attempts += 1;
        }
        None
    }

    /// Allocates a fresh unique id and persists an anonymous session record
    /// holding the given device, origin and key, in the system of record
    /// first and then in the cache. Reports `StorageUnavailable` and leaves
    /// the store unchanged when no fresh id could be drawn.
    fn create_session(&mut self, device: Device, ip_addr: String, session_key: Vec<u8>) -> (r:
        Result<Session, SessionError>)
        requires
            old(self).wf(),
        ensures
            final(self).wf(),
            match r {
                Ok(s) => created_ok(
                    old(self)@,
                    final(self)@,
                    device@,
                    ip_addr@,
                    session_key@,
                    s@,
                ),
                Err(e) => e == SessionError::StorageUnavailable && *final(self) == *old(self),
            },
    {
        let id = match self.mint_fresh_id() {
            Some(id) => id,
            None => {
                return Err(SessionError::StorageUnavailable);
            },
        };
        let stored = Session {
            id,
            device,
            ip_address: ip_addr,
            session_key,
            user_id: None,
        };
        let snapshot = stored.clone();
        let result = stored.clone();
        proof {
            lemma_session_map_contains(self.sessions@, stored@.id);
            assert(forall|j: int|
                0 <= j < self.sessions@.len() ==> self.sessions@[j]@.id != stored@.id);
            assert(distinct_ids(self.sessions@.push(stored)));
            assert forall|j: int| 0 <= j < self.cache@.len() implies self.cache@[j]@.id
                != stored@.id by {
                assert(session_map(self.sessions@).contains_key(self.cache@[j]@.id));
            }
            assert(distinct_ids(self.cache@.push(snapshot)));
            lemma_session_map_push(self.sessions@, stored);
            lemma_session_map_push(self.cache@, snapshot);
        }
        let ghost pre = *self;
        self.sessions.push(stored);
        self.cache.push(snapshot);
        proof {
            assert forall|i2: int| 0 <= i2 < self.sessions@.len() implies !id_set(
                self.retired@,
            ).contains(self.sessions@[i2]@.id) by {
                if i2 < self.sessions@.len() - 1 {
                    assert(self.sessions@[i2] == pre.sessions@[i2]);
                }
            }
            assert forall|j: int| 0 <= j < self.cache@.len() implies session_map(
                self.sessions@,
            ).contains_key(self.cache@[j]@.id) && session_map(self.sessions@)[self.cache@[j]@.id]
                == self.cache@[j]@ by {
                if j < self.cache@.len() - 1 {
                    assert(self.cache@[j] == pre.cache@[j]);
                    assert(session_map(pre.sessions@).contains_key(pre.cache@[j]@.id));
                    assert(self.cache@[j]@.id != stored@.id);
                }
            }
        }
        Ok(result)
    }

    /// Draws random key material until it differs from the key currently on
    /// the record, so that a rotation always invalidates the old key. Gives
    /// up after a bounded number of draws.
    fn mint_rotated_key(current: &Vec<u8>) -> (r: Option<Vec<u8>>)
        ensures
            match r {
                Some(k) => k@ != current@,
                None => true,
            },
    {
        let mut attempts: usize = 0;
        while attempts < MINT_ATTEMPTS
            decreases MINT_ATTEMPTS - attempts,
        {
            let k = random_key_material();
            if !bytes_eq(&k, current) {
                return Some(k);
            }
            attempts += 1;
        }
        None
    }

    /// Replaces the record at position `i` of the system of record with
    /// `updated` (which must keep the id) and writes the same snapshot
    /// through to the cache, re-establishing well-formedness.
    fn write_through(&mut self, i: usize, updated: Session)
        requires
            old(self).wf(),
            i < old(self).sessions@.len(),
            updated@.id == old(self).sessions@[i as int]@.id,
            !id_set(old(self).retired@).contains(updated@.id),
        ensures
            final(self).wf(),
            final(self)@.live == old(self)@.live.insert(updated@.id, updated@),
            final(self)@.cache == old(self)@.cache.insert(updated@.id, updated@),
            final(self)@.retired == old(self)@.retired,
            final(self)@.creds == old(self)@.creds,
    {
        let snapshot = updated.clone();
        proof {
            lemma_session_map_update(self.sessions@, i as int, updated);
            assert(distinct_ids(self.sessions@.update(i as int, updated)));
        }
        let ghost mid_pre = *self;
        self.sessions.set(i, updated);
        proof {
            assert forall|i2: int| 0 <= i2 < self.sessions@.len() implies !id_set(
                self.retired@,
            ).contains(self.sessions@[i2]@.id) by {
                if i2 != i as int {
                    assert(self.sessions@[i2] == mid_pre.sessions@[i2]);
                }
            }
        }
        let ghost pre_cache = *self;
        match find_session(&self.cache, &snapshot.id) {
            Some(j) => {
                proof {
                    lemma_session_map_update(self.cache@, j as int, snapshot);
                    assert(distinct_ids(self.cache@.update(j as int, snapshot)));
                }
                self.cache.set(j, snapshot);
            },
            None => {
                proof {
                    lemma_session_map_contains(self.cache@, snapshot@.id);
                    lemma_session_map_push(self.cache@, snapshot);
                    assert(distinct_ids(self.cache@.push(snapshot)));
                    assert(session_map(self.cache@).insert(snapshot@.id, snapshot@)
                        =~= session_map(self.cache@).insert(updated@.id, updated@));
                }
                self.cache.push(snapshot);
            },
        }
        proof {
            assert forall|j: int| 0 <= j < self.cache@.len() implies session_map(
                self.sessions@,
            ).contains_key(self.cache@[j]@.id) && session_map(self.sessions@)[self.cache@[j]@.id]
                == self.cache@[j]@ by {
                if self.cache@[j]@.id == updated@.id {
                    assert(self.cache@[j]@ == updated@);
                } else {
                    assert(self.cache@[j] == pre_cache.cache@[j]);
                    assert(session_map(mid_pre.sessions@).contains_key(self.cache@[j]@.id));
                }
            }
        }
    }

    /// Verifies the caller's key for the session, then moves the record to
    /// the new network origin and issues a fresh session key, invalidating
    /// the old one. Never updates silently: a missing session or a stale key
    /// is a typed failure and leaves the store unchanged.
    fn update_session_ip(
        &mut self,
        session_id: String,
        latest_ip_address: String,
        session_key: Vec<u8>,
    ) -> (r: Result<Session, SessionError>)
        requires
            old(self).wf(),
        ensures
            final(self).wf(),
            !old(self)@.live.contains_key(session_id@) ==> r == Err::<Session, SessionError>(
                SessionError::SessionNotFound,
            ) && *final(self) == *old(self),
            old(self)@.live.contains_key(session_id@) && old(self)@.live[session_id@].session_key
                != session_key@ ==> r == Err::<Session, SessionError>(SessionError::KeyMismatch)
                && *final(self) == *old(self),
            r matches Ok(s) ==> update_ip_ok(
                old(self)@,
                final(self)@,
                session_id@,
                latest_ip_address@,
                session_key@,
                s@,
            ),
            can_mutate(old(self)@, session_id@, session_key@) ==> (r matches Ok(_)) || (r
                == Err::<Session, SessionError>(SessionError::StorageUnavailable) && *final(self)
                == *old(self)),
    {
        proof {
            lemma_session_map_contains(self.sessions@, session_id@);
        }
        let i = match find_session(&self.sessions, &session_id) {
            Some(i) => i,
            None => {
                return Err(SessionError::SessionNotFound);
            },
        };
        proof {
            lemma_session_map_index(self.sessions@, i as int);
        }
        if !bytes_eq(&session_key, &self.sessions[i].session_key) {
            return Err(SessionError::KeyMismatch);
        }
        let new_key = match Self::mint_rotated_key(&session_key) {
            Some(k) => k,
            None => {
                return Err(SessionError::StorageUnavailable);
            },
        };
        let updated = Session {
            id: self.sessions[i].id.clone(),
            device: self.sessions[i].device.clone(),
            ip_address: latest_ip_address,
            session_key: new_key,
            user_id: match &self.sessions[i].user_id {
                Some(u) => Some(u.clone()),
                None => None,
            },
        };
        let result = updated.clone();
        self.write_through(i, updated);
        Ok(result)
    }

    /// Verifies the caller's key and the user's credential hash, then binds
    /// the session to the user: sets `user_id` (exactly once), moves the
    /// record to the new origin and issues a fresh key. Binding again with
    /// the same user is idempotent; binding to a different user is rejected.
    fn add_session_to_user(
        &mut self,
        session_id: String,
        latest_ip_address: String,
        user_id: String,
        session_key: Vec<u8>,
        user_password_hash: Vec<u8>,
    ) -> (r: Result<Session, SessionError>)
        requires
            old(self).wf(),
        ensures
            final(self).wf(),
            !old(self)@.live.contains_key(session_id@) ==> r == Err::<Session, SessionError>(
                SessionError::SessionNotFound,
            ) && *final(self) == *old(self),
            old(self)@.live.contains_key(session_id@) && old(self)@.live[session_id@].session_key
                != session_key@ ==> r == Err::<Session, SessionError>(SessionError::KeyMismatch)
                && *final(self) == *old(self),
            can_mutate(old(self)@, session_id@, session_key@) && !cred_ok(
                old(self)@,
                user_id@,
                user_password_hash@,
            ) ==> r == Err::<Session, SessionError>(SessionError::AuthenticationFailed)
                && *final(self) == *old(self),
            can_mutate(old(self)@, session_id@, session_key@) && cred_ok(
                old(self)@,
                user_id@,
                user_password_hash@,
            ) && old(self)@.live[session_id@].user_id == Some(user_id@) ==> (r matches Ok(s)
                && s@ == old(self)@.live[session_id@]) && *final(self) == *old(self),
            can_mutate(old(self)@, session_id@, session_key@) && cred_ok(
                old(self)@,
                user_id@,
                user_password_hash@,
            ) && (old(self)@.live[session_id@].user_id matches Some(u) && u != user_id@) ==> r
                == Err::<Session, SessionError>(SessionError::UserBindingConflict) && *final(self)
                == *old(self),
            old(self)@.live[session_id@].user_id is None ==> (r matches Ok(s) ==> bind_ok(
                old(self)@,
                final(self)@,
                session_id@,
                latest_ip_address@,
                user_id@,
                session_key@,
                s@,
            )),
            can_mutate(old(self)@, session_id@, session_key@) && cred_ok(
                old(self)@,
                user_id@,
                user_password_hash@,
            ) && old(self)@.live[session_id@].user_id is None ==> (r matches Ok(_)) || (r
                == Err::<Session, SessionError>(SessionError::StorageUnavailable) && *final(self)
                == *old(self)),
    {
        proof {
            lemma_session_map_contains(self.sessions@, session_id@);
            lemma_cred_map_contains(self.users@, user_id@);
        }
        let i = match find_session(&self.sessions, &session_id) {
            Some(i) => i,
            None => {
                return Err(SessionError::SessionNotFound);
            },
        };
        proof {
            lemma_session_map_index(self.sessions@, i as int);
        }
        if !bytes_eq(&session_key, &self.sessions[i].session_key) {
            return Err(SessionError::KeyMismatch);
        }
        let u = match find_user(&self.users, &user_id) {
            Some(u) => u,
            None => {
                return Err(SessionError::AuthenticationFailed);
            },
        };
        proof {
            lemma_cred_map_index(self.users@, u as int);
        }
        if !bytes_eq(&user_password_hash, &self.users[u].password_hash) {
            return Err(SessionError::AuthenticationFailed);
        }
        match &self.sessions[i].user_id {
            Some(existing) => {
                if *existing == user_id {
                    return Ok(self.sessions[i].clone());
                } else {
                    return Err(SessionError::UserBindingConflict);
                }
            },
            None => {},
        }
        let new_key = match Self::mint_rotated_key(&session_key) {
            Some(k) => k,
            None => {
                return Err(SessionError::StorageUnavailable);
            },
        };
        let updated = Session {
            id: self.sessions[i].id.clone(),
            device: self.sessions[i].device.clone(),
            ip_address: latest_ip_address,
            session_key: new_key,
            user_id: Some(user_id),
        };
        let result = updated.clone();
        self.write_through(i, updated);
        Ok(result)
    }

    /// Verifies the caller's key, then deletes the record from both backends
    /// and retires the id for good: a cleared id never resolves again and is
    /// never reused for a new session. A missing session or a stale key
    /// leaves the store unchanged.
    fn clear_session(&mut self, session_id: String, session_key: Vec<u8>)
        requires
            old(self).wf(),
        ensures
            final(self).wf(),
            can_mutate(old(self)@, session_id@, session_key@) ==> cleared(
                old(self)@,
                final(self)@,
                session_id@,
            ),
            !can_mutate(old(self)@, session_id@, session_key@) ==> *final(self) == *old(self),
    {
        proof {
            lemma_session_map_contains(self.sessions@, session_id@);
        }
        let i = match find_session(&self.sessions, &session_id) {
            Some(i) => i,
            None => {
                return ;
            },
        };
        proof {
            lemma_session_map_index(self.sessions@, i as int);
        }
        if !bytes_eq(&session_key, &self.sessions[i].session_key) {
            return ;
        }
        self.purge(i);
    }

    /// Deletes the record at position `i` from the system of record first
    /// and from the cache second, then retires its id for good.
    fn purge(&mut self, i: usize)
        requires
            old(self).wf(),
            i < old(self).sessions@.len(),
        ensures
            final(self).wf(),
            cleared(old(self)@, final(self)@, old(self).sessions@[i as int]@.id),
    {
        let ghost pre = *self;
        proof {
            lemma_session_map_index(self.sessions@, i as int);
        }
        proof {
            lemma_session_map_remove(self.sessions@, i as int);
            assert forall|a: int, b: int|
                0 <= a < b < self.sessions@.remove(i as int).len() implies self.sessions@.remove(
                i as int,
            )[a]@.id != self.sessions@.remove(i as int)[b]@.id by {
                if a < i as int {
                    assert(self.sessions@.remove(i as int)[a] == self.sessions@[a]);
                } else {
                    assert(self.sessions@.remove(i as int)[a] == self.sessions@[a + 1]);
                }
                if b < i as int {
                    assert(self.sessions@.remove(i as int)[b] == self.sessions@[b]);
                } else {
                    assert(self.sessions@.remove(i as int)[b] == self.sessions@[b + 1]);
                }
            }
        }
        let cleared_record = self.sessions.remove(i);
        proof {
            assert forall|i2: int| 0 <= i2 < self.sessions@.len() implies !id_set(
                self.retired@,
            ).contains(self.sessions@[i2]@.id) by {
                if i2 < i as int {
                    assert(self.sessions@[i2] == pre.sessions@[i2]);
                } else {
                    assert(self.sessions@[i2] == pre.sessions@[i2 + 1]);
                }
            }
        }
        let ghost mid = *self;
        match find_session(&self.cache, &cleared_record.id) {
            Some(j) => {
                proof {
                    lemma_session_map_remove(self.cache@, j as int);
                    assert forall|a: int, b: int|
                        0 <= a < b < self.cache@.remove(j as int).len() implies self.cache@.remove(
                        j as int,
                    )[a]@.id != self.cache@.remove(j as int)[b]@.id by {
                        if a < j as int {
                            assert(self.cache@.remove(j as int)[a] == self.cache@[a]);
                        } else {
                            assert(self.cache@.remove(j as int)[a] == self.cache@[a + 1]);
                        }
                        if b < j as int {
                            assert(self.cache@.remove(j as int)[b] == self.cache@[b]);
                        } else {
                            assert(self.cache@.remove(j as int)[b] == self.cache@[b + 1]);
                        }
                    }
                }
                let _evicted = self.cache.remove(j);
            },
            None => {
                proof {
                    lemma_session_map_contains(self.cache@, cleared_record@.id);
                    assert(session_map(self.cache@) =~= session_map(self.cache@).remove(
                        cleared_record@.id,
                    ));
                }
            },
        }
        let ghost pre_retire = *self;
        proof {
            lemma_id_set_push(self.retired@, cleared_record.id);
        }
        self.retired.push(cleared_record.id);
        proof {
            assert forall|i2: int| 0 <= i2 < self.sessions@.len() implies !id_set(
                self.retired@,
            ).contains(self.sessions@[i2]@.id) by {
                assert(!id_set(pre_retire.retired@).contains(self.sessions@[i2]@.id));
                assert(self.sessions@[i2]@.id != pre.sessions@[i as int]@.id);
            }
            assert forall|j2: int| 0 <= j2 < self.cache@.len() implies session_map(
                self.sessions@,
            ).contains_key(self.cache@[j2]@.id) && session_map(
                self.sessions@,
            )[self.cache@[j2]@.id] == self.cache@[j2]@ by {
                assert(session_map(pre.sessions@).contains_key(self.cache@[j2]@.id));
                assert(self.cache@[j2]@.id != pre.sessions@[i as int]@.id);
            }
        }
    }

    /// The hook for the external expiry policy: revokes a session whose time
    /// to live has lapsed, deleting the record from both backends and
    /// retiring the id exactly as an explicit clearing does — but driven by
    /// policy, not by a key-holding caller. An id that does not resolve is
    /// left alone.
    pub fn expire_session(&mut self, session_id: &String)
        requires
            old(self).wf(),
        ensures
            final(self).wf(),
            old(self)@.live.contains_key(session_id@) ==> cleared(
                old(self)@,
                final(self)@,
                session_id@,
            ),
            !old(self)@.live.contains_key(session_id@) ==> *final(self) == *old(self),
    {
        proof {
            lemma_session_map_contains(self.sessions@, session_id@);
        }
        match find_session(&self.sessions, session_id) {
            Some(i) => self.purge(i),
            None => {},
        }
    }

    /// Looks a session up by id    /// Looks a session up by id, serving the fast-path cache first and
    /// falling back to the system of record; well-formedness guarantees the
    /// two agree, so the result is always the authoritative record.
    fn get_session(&self, id: &str) -> (r: Result<Session, SessionError>)
        requires
            self.wf(),
        ensures
            match r {
                Ok(s) => self@.live.contains_key(id@) && s@ == self@.live[id@],
                Err(e) => e == SessionError::SessionNotFound && !self@.live.contains_key(id@),
            },
    {
        let key_string = id.to_owned();
        if let Some(i) = find_session(&self.cache, &key_string) {
            proof {
                lemma_session_map_index(self.cache@, i as int);
            }
            return Ok(self.cache[i].clone());
        }
        match find_session(&self.sessions, &key_string) {
            Some(i) => {
                proof {
                    lemma_session_map_index(self.sessions@, i as int);
                }
                Ok(self.sessions[i].clone())
            },
            None => {
                proof {
                    lemma_session_map_contains(self.sessions@, id@);
                }
                Err(SessionError::SessionNotFound)
            },
        }
    }

    /// Drops the cache entry for the given id, if any. This is the hook an
    /// external expiry or cache-failure policy uses to mark the fast path
    /// stale: the system of record is untouched, so the session stays
    /// resolvable — the cache is never an independent source of truth.
    pub fn evict_cache_entry(&mut self, session_id: &String)
        requires
            old(self).wf(),
        ensures
            final(self).wf(),
            final(self)@.live == old(self)@.live,
            final(self)@.retired == old(self)@.retired,
            final(self)@.creds == old(self)@.creds,
            final(self)@.cache == old(self)@.cache.remove(session_id@),
    {
        match find_session(&self.cache, session_id) {
            Some(i) => {
                proof {
                    lemma_session_map_remove(self.cache@, i as int);
                }
                let _evicted = self.cache.remove(i);
            },
            None => {
                proof {
                    lemma_session_map_contains(self.cache@, session_id@);
                    assert(session_map(self.cache@) =~= session_map(self.cache@).remove(
                        session_id@,
                    ));
                }
            },
        }
    }
}

impl SessionRepository for SessionStore {
    open spec fn repo_view(&self) -> StoreView {
        self@
    }

    open spec fn repo_wf(&self) -> bool {
        self.wf()
    }

    fn create_session(&mut self, device: Device, ip_addr: String, session_key: Vec<u8>) -> (r:
        Result<Session, SessionError>) {
        self.create_session(device, ip_addr, session_key)
    }

    fn add_session_to_user(
        &mut self,
        session_id: String,
        latest_ip_address: String,
        user_id: String,
        session_key: Vec<u8>,
        user_password_hash: Vec<u8>,
    ) -> (r: Result<Session, SessionError>) {
        self.add_session_to_user(
            session_id,
            latest_ip_address,
            user_id,
            session_key,
            user_password_hash,
        )
    }

    fn update_session_ip(
        &mut self,
        session_id: String,
        latest_ip_address: String,
        session_key: Vec<u8>,
    ) -> (r: Result<Session, SessionError>) {
        self.update_session_ip(session_id, latest_ip_address, session_key)
    }

    fn get_session(&self, id: &str) -> (r: Result<Session, SessionError>) {
        self.get_session(id)
    }

    fn clear_session(&mut self, session_id: String, session_key: Vec<u8>) {
        self.clear_session(session_id, session_key)
    }
}

/// A well-formed store, seen on its mathematical image, never lets a live
/// id be retired, and never lets the cache disagree with the system of
/// record.
pub proof fn lemma_wf_inv(s: &SessionStore)
    requires
        s.wf(),
    ensures
        store_inv(s@),
{
    assert forall|id: Seq<char>| #[trigger] s@.live.contains_key(id) implies !s@.retired.contains(
        id,
    ) by {
        lemma_session_map_contains(s.sessions@, id);
        let i = choose|i: int| 0 <= i < s.sessions@.len() && s.sessions@[i]@.id == id;
        assert(!id_set(s.retired@).contains(s.sessions@[i]@.id));
    }
    assert forall|id: Seq<char>| #[trigger] s@.cache.contains_key(id) implies s@.live.contains_key(
        id,
    ) && s@.cache[id] == s@.live[id] by {
        lemma_session_map_contains(s.cache@, id);
        let j = choose|j: int| 0 <= j < s.cache@.len() && s.cache@[j]@.id == id;
        lemma_session_map_index(s.cache@, j);
        assert(session_map(s.sessions@).contains_key(s.cache@[j]@.id));
    }
}

/// A session returned by a successful creation carries an id that no live
/// session had before the call and that no cleared session ever had: ids
/// are unique for the lifetime of the store and never recycled.
pub proof fn lemma_created_id_fresh(
    pre: StoreView,
    post: StoreView,
    device: crate::models::DeviceView,
    ip: Seq<char>,
    key: Seq<u8>,
    s: SessionView,
)
    requires
        created_ok(pre, post, device, ip, key, s),
    ensures
        !pre.live.contains_key(s.id),
        !pre.retired.contains(s.id),
        post.live.contains_key(s.id),
{
}

/// Rotating the key on a successful user binding invalidates the pre-call
/// key: the old key no longer opens the session, so a later IP update that
/// presents it is the key-mismatch case, never a silent success; the
/// freshly issued key is the one that opens the session.
pub proof fn lemma_bind_invalidates_old_key(
    pre: StoreView,
    post: StoreView,
    id: Seq<char>,
    ip: Seq<char>,
    user_id: Seq<char>,
    old_key: Seq<u8>,
    s: SessionView,
)
    requires
        bind_ok(pre, post, id, ip, user_id, old_key, s),
    ensures
        post.live.contains_key(id),
        post.live[id].user_id == Some(user_id),
        post.live[id].session_key != old_key,
        !can_mutate(post, id, old_key),
        can_mutate(post, id, s.session_key),
{
}

/// Rotating the key on a successful IP update likewise invalidates the
/// pre-call key and hands control to the freshly issued one.
pub proof fn lemma_update_invalidates_old_key(
    pre: StoreView,
    post: StoreView,
    id: Seq<char>,
    ip: Seq<char>,
    old_key: Seq<u8>,
    s: SessionView,
)
    requires
        update_ip_ok(pre, post, id, ip, old_key, s),
    ensures
        post.live.contains_key(id),
        post.live[id].session_key != old_key,
        !can_mutate(post, id, old_key),
        can_mutate(post, id, s.session_key),
{
}

/// A stale key never opens a session for mutation: whenever the stored key
/// differs from the presented one, mutation with the presented key is
/// refused.
pub proof fn lemma_stale_key_rejected(v: StoreView, id: Seq<char>, key: Seq<u8>)
    requires
        v.live.contains_key(id),
        v.live[id].session_key != key,
    ensures
        !can_mutate(v, id, key),
{
}

/// After a successful binding, the session is bound to exactly that user:
/// a repeated binding for the same user finds the binding already in place
/// (the idempotent case of the binding operation), and a binding for any
/// other user finds a conflicting one (the rejected case).
pub proof fn lemma_rebind_cases(
    pre: StoreView,
    post: StoreView,
    id: Seq<char>,
    ip: Seq<char>,
    user_id: Seq<char>,
    old_key: Seq<u8>,
    s: SessionView,
    other_user: Seq<char>,
)
    requires
        bind_ok(pre, post, id, ip, user_id, old_key, s),
    ensures
        can_mutate(post, id, s.session_key),
        post.live[id].user_id == Some(user_id),
        other_user != user_id ==> (post.live[id].user_id matches Some(u) && u != other_user),
{
}

/// A cleared session is gone for good: its id no longer resolves, the id is
/// retired, and no later creation can hand the same id out again.
pub proof fn lemma_cleared_never_resolves(pre: StoreView, post: StoreView, id: Seq<char>)
    requires
        cleared(pre, post, id),
    ensures
        !post.live.contains_key(id),
        post.retired.contains(id),
        forall|
            post2: StoreView,
            device: crate::models::DeviceView,
            ip: Seq<char>,
            key: Seq<u8>,
            s: SessionView,
        |
            #[trigger] created_ok(post, post2, device, ip, key, s) ==> s.id != id,
{
}

/// Round trip: immediately after a creation, the new id resolves to exactly
/// the record the creation returned — same device, same origin, same key,
/// and no user bound.
pub proof fn lemma_create_then_get(
    pre: StoreView,
    post: StoreView,
    device: crate::models::DeviceView,
    ip: Seq<char>,
    key: Seq<u8>,
    s: SessionView,
)
    requires
        created_ok(pre, post, device, ip, key, s),
    ensures
        post.live.contains_key(s.id),
        post.live[s.id] == s,
        s.device == device,
        s.ip_address == ip,
        s.session_key == key,
        s.user_id is None,
{
}

} // verus!
