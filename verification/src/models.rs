use vstd::prelude::*;

verus! {

/// The closed set of client platforms a session can originate from.
/// Immutable once attached to a session.
#[derive(Debug, PartialEq, Eq, PartialOrd, Ord, Hash)]
pub enum Device {
    PC { name: String },
    Mac { os_version: String, name: String },
    IPhone { os_version: String, device_model: String },
    Android { os_version: String, name: String },
}

/// Mathematical image of a `Device`: the same variants over character
/// sequences, used by every contract that speaks of a device.
pub enum DeviceView {
    PC { name: Seq<char> },
    Mac { os_version: Seq<char>, name: Seq<char> },
    IPhone { os_version: Seq<char>, device_model: Seq<char> },
    Android { os_version: Seq<char>, name: Seq<char> },
}

impl View for Device {
    type V = DeviceView;

    open spec fn view(&self) -> DeviceView {
        match self {
            Device::PC { name } => DeviceView::PC { name: name@ },
            Device::Mac { os_version, name } => DeviceView::Mac {
                os_version: os_version@,
                name: name@,
            },
            Device::IPhone { os_version, device_model } => DeviceView::IPhone {
                os_version: os_version@,
                device_model: device_model@,
            },
            Device::Android { os_version, name } => DeviceView::Android {
                os_version: os_version@,
                name: name@,
            },
        }
    }
}

impl Clone for Device {
    fn clone(&self) -> (r: Self)
        ensures
            r@ == self@,
    {
        match self {
            Device::PC { name } => Device::PC { name: name.clone() },
            Device::Mac { os_version, name } => Device::Mac {
                os_version: os_version.clone(),
                name: name.clone(),
            },
            Device::IPhone { os_version, device_model } => Device::IPhone {
                os_version: os_version.clone(),
                device_model: device_model.clone(),
            },
            Device::Android { os_version, name } => Device::Android {
                os_version: os_version.clone(),
                name: name.clone(),
            },
        }
    }
}

/// A live session record: the central entity of the store.
///
/// `id` and `device` are immutable after creation; `ip_address` moves only
/// through the IP-update operation; `session_key` is the rotating secret that
/// every mutating operation verifies and re-issues; `user_id` is set at most
/// once, when the session is escalated to an authenticated user.
#[derive(Debug, PartialEq, Eq, PartialOrd, Ord, Hash)]
pub struct Session {
    pub id: String,
    pub device: Device,
    pub ip_address: String,
    pub session_key: Vec<u8>,
    pub user_id: Option<String>,
}

/// Mathematical image of a `Session`.
pub struct SessionView {
    pub id: Seq<char>,
    pub device: DeviceView,
    pub ip_address: Seq<char>,
    pub session_key: Seq<u8>,
    pub user_id: Option<Seq<char>>,
}

impl View for Session {
    type V = SessionView;

    open spec fn view(&self) -> SessionView {
        SessionView {
            id: self.id@,
            device: self.device@,
            ip_address: self.ip_address@,
            session_key: self.session_key@,
            user_id: match self.user_id {
                Some(u) => Some(u@),
                None => None,
            },
        }
    }
}

impl Clone for Session {
    fn clone(&self) -> (r: Self)
        ensures
            r@ == self@,
    {
        Session {
            id: self.id.clone(),
            device: self.device.clone(),
            ip_address: self.ip_address.clone(),
            session_key: copy_bytes(&self.session_key),
            user_id: match &self.user_id {
                Some(u) => Some(u.clone()),
                None => None,
            },
        }
    }
}

/// Copies a byte string element by element.
pub(crate) fn copy_bytes(src: &Vec<u8>) -> (r: Vec<u8>)
    ensures
        r@ == src@,
{
    let mut r: Vec<u8> = Vec::new();
    let mut i: usize = 0;
    while i < src.len()
        invariant
            0 <= i <= src.len(),
            r@ == src@.subrange(0, i as int),
        decreases src.len() - i,
    {
        r.push(src[i]);
        assert(r@ =~= src@.subrange(0, i + 1 as int));
        i += 1;
    }
    assert(r@ =~= src@);
    r
}

/// Compares two byte strings for exact equality.
pub(crate) fn bytes_eq(a: &Vec<u8>, b: &Vec<u8>) -> (r: bool)
    ensures
        r == (a@ == b@),
{
    if a.len() != b.len() {
        assert(a@ != b@);
        return false;
    }
    let mut i: usize = 0;
    while i < a.len()
        invariant
            0 <= i <= a.len(),
            a@.len() == b@.len(),
            forall|j: int| 0 <= j < i ==> a@[j] == b@[j],
        decreases a.len() - i,
    {
        if a[i] != b[i] {
            assert(a@ != b@);
            return false;
        }
        i += 1;
    }
    assert(a@ =~= b@);
    true
}

/// The failure kinds the repository can report. The repository is their sole
/// source; the use-case layer propagates them unchanged.
#[derive(Debug, PartialEq, Eq, Structural, Clone, Copy)]
pub enum SessionError {
    /// The id does not resolve to a live, uncleared session.
    SessionNotFound,
    /// The caller-supplied session key does not match the stored key.
    KeyMismatch,
    /// The supplied credential hash does not match the stored credential.
    AuthenticationFailed,
    /// The session is already bound to a different user.
    UserBindingConflict,
    /// A backend could not complete the operation.
    StorageUnavailable,
}

/// Request value for the session-lookup use case.
pub struct GetSessionRequest {
    pub id: String,
}

/// Request value for the session-creation use case.
pub struct CreateSessionRequest {
    pub device: Device,
    pub ip_addr: String,
    pub session_key: Vec<u8>,
}

/// Request value for the IP-update use case.
pub struct UpdateSessionIpRequest {
    pub session_id: String,
    pub latest_ip_address: String,
    pub session_key: Vec<u8>,
}

/// Request value for the user-binding use case.
pub struct AddUserToSessionRequest {
    pub session_id: String,
    pub latest_ip_address: String,
    pub user_id: String,
    pub session_key: Vec<u8>,
    pub user_password_hash: Vec<u8>,
}

/// Request value for the session-revocation use case.
pub struct ClearSessionRequest {
    pub session_id: String,
    pub session_key: Vec<u8>,
}

} // verus!
