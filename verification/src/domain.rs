use vstd::prelude::*;

use crate::data::SessionRepository;
use crate::data::bind_ok;
use crate::data::can_mutate;
use crate::data::cleared;
use crate::data::created_ok;
use crate::data::cred_ok;
use crate::data::update_ip_ok;
use crate::models::AddUserToSessionRequest;
use crate::models::ClearSessionRequest;
use crate::models::CreateSessionRequest;
use crate::models::GetSessionRequest;
use crate::models::Session;
use crate::models::SessionError;
use crate::models::UpdateSessionIpRequest;

verus! {

// Each use case maps one caller-visible operation to exactly one repository
// call under exclusive access, and hands the repository's result or typed
// failure back unchanged. The `&mut` borrow of the shared repository is that
// exclusive access, held only for the duration of the call; sharing the one
// repository among concurrently running use cases is the caller's concern.
/// Creates an anonymous session for a device, origin and key.
pub struct CreateSessionUseCase {}

impl CreateSessionUseCase {
    pub fn new() -> (r: Self) {
        CreateSessionUseCase {  }
    }

    /// Performs exactly one `create_session` repository call.
    pub fn execute<R: SessionRepository>(
        &self,
        sessions_repository: &mut R,
        request: CreateSessionRequest,
    ) -> (r: Result<Session, SessionError>)
        requires
            old(sessions_repository).repo_wf(),
        ensures
            final(sessions_repository).repo_wf(),
            match r {
                Ok(s) => created_ok(
                    old(sessions_repository).repo_view(),
                    final(sessions_repository).repo_view(),
                    request.device@,
                    request.ip_addr@,
                    request.session_key@,
                    s@,
                ),
                Err(e) => e == SessionError::StorageUnavailable && *final(sessions_repository)
                    == *old(sessions_repository),
            },
    {
        sessions_repository.create_session(request.device, request.ip_addr, request.session_key)
    }
}

/// Resolves a session id to its authoritative record.
pub struct GetSessionUseCase {}

impl GetSessionUseCase {
    /// Performs exactly one `get_session` repository call.
    pub fn execute<R: SessionRepository>(
        &self,
        sessions_repository: &R,
        request: GetSessionRequest,
    ) -> (r: Result<Session, SessionError>)
        requires
            sessions_repository.repo_wf(),
        ensures
            match r {
                Ok(s) => sessions_repository.repo_view().live.contains_key(request.id@) && s@
                    == sessions_repository.repo_view().live[request.id@],
                Err(e) => e == SessionError::SessionNotFound
                    && !sessions_repository.repo_view().live.contains_key(request.id@),
            },
    {
        sessions_repository.get_session(request.id.as_str())
    }
}

/// Escalates a session to an authenticated user.
pub struct AddUserToSessionUseCase {}

impl AddUserToSessionUseCase {
    pub fn new() -> (r: Self) {
        AddUserToSessionUseCase {  }
    }

    /// Performs exactly one `add_session_to_user` repository call.
    pub fn execute<R: SessionRepository>(
        &self,
        sessions_repository: &mut R,
        request: AddUserToSessionRequest,
    ) -> (r: Result<Session, SessionError>)
        requires
            old(sessions_repository).repo_wf(),
        ensures
            final(sessions_repository).repo_wf(),
            !old(sessions_repository).repo_view().live.contains_key(request.session_id@) ==> r == Err::<
                Session,
                SessionError,
            >(SessionError::SessionNotFound) && *final(sessions_repository) == *old(sessions_repository),
            old(sessions_repository).repo_view().live.contains_key(request.session_id@) && old(sessions_repository).repo_view().live[request.session_id@].session_key != request.session_key@ ==> r == Err::<
                Session,
                SessionError,
            >(SessionError::KeyMismatch) && *final(sessions_repository) == *old(sessions_repository),
            can_mutate(old(sessions_repository).repo_view(), request.session_id@, request.session_key@)
                && !cred_ok(
                old(sessions_repository).repo_view(),
                request.user_id@,
                request.user_password_hash@,
            ) ==> r == Err::<Session, SessionError>(SessionError::AuthenticationFailed) && *final(sessions_repository) == *old(sessions_repository),
            can_mutate(old(sessions_repository).repo_view(), request.session_id@, request.session_key@)
                && cred_ok(
                old(sessions_repository).repo_view(),
                request.user_id@,
                request.user_password_hash@,
            ) && old(sessions_repository).repo_view().live[request.session_id@].user_id == Some(
                request.user_id@,
            ) ==> (r matches Ok(s) && s@ == old(sessions_repository).repo_view().live[request.session_id@])
                && *final(sessions_repository) == *old(sessions_repository),
            can_mutate(old(sessions_repository).repo_view(), request.session_id@, request.session_key@)
                && cred_ok(
                old(sessions_repository).repo_view(),
                request.user_id@,
                request.user_password_hash@,
            ) && (old(sessions_repository).repo_view().live[request.session_id@].user_id matches Some(u) && u
                != request.user_id@) ==> r == Err::<Session, SessionError>(
                SessionError::UserBindingConflict,
            ) && *final(sessions_repository) == *old(sessions_repository),
            old(sessions_repository).repo_view().live[request.session_id@].user_id is None ==> (r matches Ok(
                s,
            ) ==> bind_ok(
                old(sessions_repository).repo_view(),
                final(sessions_repository).repo_view(),
                request.session_id@,
                request.latest_ip_address@,
                request.user_id@,
                request.session_key@,
                s@,
            )),
            can_mutate(old(sessions_repository).repo_view(), request.session_id@, request.session_key@)
                && cred_ok(
                old(sessions_repository).repo_view(),
                request.user_id@,
                request.user_password_hash@,
            ) && old(sessions_repository).repo_view().live[request.session_id@].user_id is None ==> (
            r matches Ok(_)) || (r == Err::<Session, SessionError>(
                SessionError::StorageUnavailable,
            ) && *final(sessions_repository) == *old(sessions_repository)),
    {
        sessions_repository.add_session_to_user(
            request.session_id,
            request.latest_ip_address,
            request.user_id,
            request.session_key,
            request.user_password_hash,
        )
    }
}

/// Moves a session to its latest network origin.
pub struct UpdateSessionIpUseCase {}

impl UpdateSessionIpUseCase {
    pub fn new() -> (r: Self) {
        UpdateSessionIpUseCase {  }
    }

    /// Performs exactly one `update_session_ip` repository call.
    pub fn execute<R: SessionRepository>(
        &self,
        sessions_repository: &mut R,
        request: UpdateSessionIpRequest,
    ) -> (r: Result<Session, SessionError>)
        requires
            old(sessions_repository).repo_wf(),
        ensures
            final(sessions_repository).repo_wf(),
            !old(sessions_repository).repo_view().live.contains_key(request.session_id@) ==> r == Err::<
                Session,
                SessionError,
            >(SessionError::SessionNotFound) && *final(sessions_repository) == *old(sessions_repository),
            old(sessions_repository).repo_view().live.contains_key(request.session_id@) && old(sessions_repository).repo_view().live[request.session_id@].session_key != request.session_key@ ==> r == Err::<
                Session,
                SessionError,
            >(SessionError::KeyMismatch) && *final(sessions_repository) == *old(sessions_repository),
            r matches Ok(s) ==> update_ip_ok(
                old(sessions_repository).repo_view(),
                final(sessions_repository).repo_view(),
                request.session_id@,
                request.latest_ip_address@,
                request.session_key@,
                s@,
            ),
            can_mutate(old(sessions_repository).repo_view(), request.session_id@, request.session_key@) ==> (
            r matches Ok(_)) || (r == Err::<Session, SessionError>(
                SessionError::StorageUnavailable,
            ) && *final(sessions_repository) == *old(sessions_repository)),
    {
        sessions_repository.update_session_ip(
            request.session_id,
            request.latest_ip_address,
            request.session_key,
        )
    }
}

/// Revokes a session and retires its id.
pub struct ClearSessionUseCase {}

impl ClearSessionUseCase {
    pub fn new() -> (r: Self) {
        ClearSessionUseCase {  }
    }

    /// Performs exactly one `clear_session` repository call. The repository
    /// reports no failure to the caller; the operation is fire-and-forget.
    pub fn execute<R: SessionRepository>(
        &self,
        sessions_repository: &mut R,
        request: ClearSessionRequest,
    ) -> (r: Result<(), SessionError>)
        requires
            old(sessions_repository).repo_wf(),
        ensures
            final(sessions_repository).repo_wf(),
            can_mutate(old(sessions_repository).repo_view(), request.session_id@, request.session_key@)
                ==> cleared(
                old(sessions_repository).repo_view(),
                final(sessions_repository).repo_view(),
                request.session_id@,
            ),
            !can_mutate(old(sessions_repository).repo_view(), request.session_id@, request.session_key@)
                ==> *final(sessions_repository) == *old(sessions_repository),
            r == Ok::<(), SessionError>(()),
    {
        sessions_repository.clear_session(request.session_id, request.session_key);
        Ok(())
    }
}

} // verus!

