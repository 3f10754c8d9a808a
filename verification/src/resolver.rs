//! The decisions of credential resolution, one answer at a time: the caller
//! performs each action against the authority or the store and hands the
//! answer back.

use vstd::prelude::*;
use vstd::string::StringExecFns;
use crate::credential::{
    credential_of, header_view, parse_credential, Credential, CredentialModel, ErrorClass,
    Rejection,
};
use crate::identity::{
    bootstrapped, by_id, by_login, created, first_record, get_or_create_user_for_trusted_login,
    lemma_bootstrap_idempotent, lemma_created, one_record, placeholder_email, unique, Identity,
    IdentityModel, IdentityStore,
};
use crate::synthetic_id::{synthetic_github_user_id, synthetic_id};

verus! {

/// What the resolver waits for.
#[derive(Debug, Clone, PartialEq, Eq)]
pub enum AuthState {
    /// The authority's verdict on a numeric credential.
    AwaitingVerification,
    /// The record of the identity that the authority vouched for.
    AwaitingVerifiedUser,
    /// The record of a trusted handle, which may not exist yet.
    AwaitingLogin { login: String },
    /// The creation of a trusted handle's record.
    AwaitingCreation { login: String },
    /// The record of a trusted handle after its creation.
    AwaitingCreatedUser,
    /// Nothing: the request was accepted or rejected.
    Finished,
}

/// What a collaborator answered.
#[derive(Debug, Clone, PartialEq, Eq)]
pub enum AuthEvent {
    /// The authority vouched for the identity `user_id`.
    Verified { user_id: i32 },
    /// The authority refused, could not be reached, or answered unreadably.
    VerificationFailed,
    /// The store looked a record up.
    Lookup { user: Option<Identity> },
    /// The store created the record, or found that it had been created.
    Created,
    /// The store failed.
    StoreFailed,
}

/// What the caller is to do next.
#[derive(Debug, Clone, PartialEq, Eq)]
pub enum AuthAction {
    /// Present the credential to the authority.
    Verify { claimed_id: i32, access_token: String },
    /// Look a record up by id.
    GetUserById { id: i32 },
    /// Look a record up by handle.
    GetUserByLogin { login: String },
    /// Create a record.
    CreateUser { email_address: String, github_login: String, github_user_id: i32, admin: bool },
    /// Attach the identity to the request and let it through.
    Proceed { user: Identity },
    /// Answer the request with the rejection; nothing downstream runs.
    Reject { rejection: Rejection },
}

/// What an [`AuthState`] holds, as plain values.
pub enum AuthStateModel {
    AwaitingVerification,
    AwaitingVerifiedUser,
    AwaitingLogin { login: Seq<char> },
    AwaitingCreation { login: Seq<char> },
    AwaitingCreatedUser,
    Finished,
}

/// What an [`AuthEvent`] holds, as plain values.
pub enum AuthEventModel {
    Verified { user_id: i32 },
    VerificationFailed,
    Lookup { user: Option<IdentityModel> },
    Created,
    StoreFailed,
}

/// What an [`AuthAction`] holds, as plain values.
pub enum AuthActionModel {
    Verify { claimed_id: i32, access_token: Seq<char> },
    GetUserById { id: i32 },
    GetUserByLogin { login: Seq<char> },
    CreateUser {
        email_address: Seq<char>,
        github_login: Seq<char>,
        github_user_id: i32,
        admin: bool,
    },
    Proceed { user: IdentityModel },
    Reject { rejection: Rejection },
}

impl View for AuthState {
    type V = AuthStateModel;

    open spec fn view(&self) -> AuthStateModel {
        match self {
            AuthState::AwaitingVerification => AuthStateModel::AwaitingVerification,
            AuthState::AwaitingVerifiedUser => AuthStateModel::AwaitingVerifiedUser,
            AuthState::AwaitingLogin { login } => AuthStateModel::AwaitingLogin { login: login@ },
            AuthState::AwaitingCreation { login } => AuthStateModel::AwaitingCreation {
                login: login@,
            },
            AuthState::AwaitingCreatedUser => AuthStateModel::AwaitingCreatedUser,
            AuthState::Finished => AuthStateModel::Finished,
        }
    }
}

impl View for AuthEvent {
    type V = AuthEventModel;

    open spec fn view(&self) -> AuthEventModel {
        match self {
            AuthEvent::Verified { user_id } => AuthEventModel::Verified { user_id: *user_id },
            AuthEvent::VerificationFailed => AuthEventModel::VerificationFailed,
            AuthEvent::Lookup { user } => AuthEventModel::Lookup {
                user: match user {
                    Some(u) => Some(u@),
                    None => None,
                },
            },
            AuthEvent::Created => AuthEventModel::Created,
            AuthEvent::StoreFailed => AuthEventModel::StoreFailed,
        }
    }
}

impl View for AuthAction {
    type V = AuthActionModel;

    open spec fn view(&self) -> AuthActionModel {
        match self {
            AuthAction::Verify { claimed_id, access_token } => AuthActionModel::Verify {
                claimed_id: *claimed_id,
                access_token: access_token@,
            },
            AuthAction::GetUserById { id } => AuthActionModel::GetUserById { id: *id },
            AuthAction::GetUserByLogin { login } => AuthActionModel::GetUserByLogin {
                login: login@,
            },
            AuthAction::CreateUser { email_address, github_login, github_user_id, admin } =>
                AuthActionModel::CreateUser {
                email_address: email_address@,
                github_login: github_login@,
                github_user_id: *github_user_id,
                admin: *admin,
            },
            AuthAction::Proceed { user } => AuthActionModel::Proceed { user: user@ },
            AuthAction::Reject { rejection } => AuthActionModel::Reject { rejection: *rejection },
        }
    }
}

/// The request is over: rejected with `rejection`.
pub open spec fn rejected(rejection: Rejection) -> (AuthStateModel, AuthActionModel) {
    (AuthStateModel::Finished, AuthActionModel::Reject { rejection })
}

/// The first move, from what the header was read as.
pub open spec fn first_move(credential: Result<CredentialModel, Rejection>) -> (
    AuthStateModel,
    AuthActionModel,
) {
    match credential {
        Err(e) => rejected(e),
        Ok(CredentialModel::UserId { claimed_id, access_token }) => (
            AuthStateModel::AwaitingVerification,
            AuthActionModel::Verify { claimed_id, access_token },
        ),
        Ok(CredentialModel::TrustedLogin { login }) => (
            AuthStateModel::AwaitingLogin { login },
            AuthActionModel::GetUserByLogin { login },
        ),
    }
}

/// The next move, from the state and the answer that came. The record looked
/// up after a verification is that of the id the authority vouched for, not
/// of the id that the caller claimed. A failed verification ends the request
/// at once. An answer that does not fit the state ends it too.
pub open spec fn next_move(state: AuthStateModel, event: AuthEventModel) -> (
    AuthStateModel,
    AuthActionModel,
) {
    match (state, event) {
        (AuthStateModel::Finished, _) => rejected(Rejection::UnexpectedAnswer),
        (_, AuthEventModel::StoreFailed) => rejected(Rejection::Storage),
        (AuthStateModel::AwaitingVerification, AuthEventModel::Verified { user_id }) => (
            AuthStateModel::AwaitingVerifiedUser,
            AuthActionModel::GetUserById { id: user_id },
        ),
        (AuthStateModel::AwaitingVerification, AuthEventModel::VerificationFailed) => rejected(
            Rejection::InvalidCredentials,
        ),
        (AuthStateModel::AwaitingVerifiedUser, AuthEventModel::Lookup { user: Some(user) }) => (
            AuthStateModel::Finished,
            AuthActionModel::Proceed { user },
        ),
        (AuthStateModel::AwaitingVerifiedUser, AuthEventModel::Lookup { user: None }) => rejected(
            Rejection::UserNotFound,
        ),
        (AuthStateModel::AwaitingLogin { login }, AuthEventModel::Lookup { user: Some(user) }) => (
            AuthStateModel::Finished,
            AuthActionModel::Proceed { user },
        ),
        (AuthStateModel::AwaitingLogin { login }, AuthEventModel::Lookup { user: None }) => (
            AuthStateModel::AwaitingCreation { login },
            AuthActionModel::CreateUser {
                email_address: placeholder_email(login),
                github_login: login,
                github_user_id: synthetic_id(login) as i32,
                admin: false,
            },
        ),
        (AuthStateModel::AwaitingCreation { login }, AuthEventModel::Created) => (
            AuthStateModel::AwaitingCreatedUser,
            AuthActionModel::GetUserByLogin { login },
        ),
        (AuthStateModel::AwaitingCreatedUser, AuthEventModel::Lookup { user: Some(user) }) => (
            AuthStateModel::Finished,
            AuthActionModel::Proceed { user },
        ),
        (AuthStateModel::AwaitingCreatedUser, AuthEventModel::Lookup { user: None }) => rejected(
            Rejection::UserMissingAfterCreate,
        ),
        _ => rejected(Rejection::UnexpectedAnswer),
    }
}

/// An upper bound on the answers that a state still waits for.
pub open spec fn answers_left(state: AuthStateModel) -> nat {
    match state {
        AuthStateModel::AwaitingVerification => 2,
        AuthStateModel::AwaitingVerifiedUser => 1,
        AuthStateModel::AwaitingLogin { .. } => 3,
        AuthStateModel::AwaitingCreation { .. } => 2,
        AuthStateModel::AwaitingCreatedUser => 1,
        AuthStateModel::Finished => 0,
    }
}

/// The action ends the request.
pub open spec fn is_final(action: AuthActionModel) -> bool {
    action is Proceed || action is Reject
}

/// The verdict that an exchange with the authority amounts to. `status` is
/// the status of its response, none where no response came; `asserted_id` is
/// the identity that the body of the response names, none where the body
/// cannot be read. Only a response with a success status and a readable body
/// vouches for an identity.
pub open spec fn verdict_of(status: Option<u16>, asserted_id: Option<i32>) -> AuthEventModel {
    match (status, asserted_id) {
        (Some(code), Some(user_id)) => if 200 <= code < 300 {
            AuthEventModel::Verified { user_id }
        } else {
            AuthEventModel::VerificationFailed
        },
        _ => AuthEventModel::VerificationFailed,
    }
}

/// Turns an exchange with the authority into the answer for [`advance`].
pub fn verification_event(status: Option<u16>, asserted_id: Option<i32>) -> (event: AuthEvent)
    ensures
        event@ == verdict_of(status, asserted_id),
{
    match (status, asserted_id) {
        (Some(code), Some(user_id)) => if 200 <= code && code < 300 {
            AuthEvent::Verified { user_id }
        } else {
            AuthEvent::VerificationFailed
        },
        _ => AuthEvent::VerificationFailed,
    }
}

/// Reads the header and decides the first move.
pub fn begin(header: Option<&str>, api_token: &str) -> (r: (AuthState, AuthAction))
    ensures
        (r.0@, r.1@) == first_move(credential_of(header_view(header), api_token@)),
{
    match parse_credential(header, api_token) {
        Err(e) => (AuthState::Finished, AuthAction::Reject { rejection: e }),
        Ok(Credential::UserId { claimed_id, access_token }) => (
            AuthState::AwaitingVerification,
            AuthAction::Verify { claimed_id, access_token },
        ),
        Ok(Credential::TrustedLogin { login }) => {
            let wanted = login.clone();
            (AuthState::AwaitingLogin { login }, AuthAction::GetUserByLogin { login: wanted })
        },
    }
}

/// Ends the request with a rejection.
fn reject(rejection: Rejection) -> (r: (AuthState, AuthAction))
    ensures
        (r.0@, r.1@) == rejected(rejection),
{
    (AuthState::Finished, AuthAction::Reject { rejection })
}

/// Decides the next move from the state and the answer that came.
pub fn advance(state: AuthState, event: AuthEvent) -> (r: (AuthState, AuthAction))
    ensures
        (r.0@, r.1@) == next_move(state@, event@),
{
    match state {
        AuthState::Finished => reject(Rejection::UnexpectedAnswer),
        AuthState::AwaitingVerification => match event {
            AuthEvent::StoreFailed => reject(Rejection::Storage),
            AuthEvent::Verified { user_id } => (
                AuthState::AwaitingVerifiedUser,
                AuthAction::GetUserById { id: user_id },
            ),
            AuthEvent::VerificationFailed => reject(Rejection::InvalidCredentials),
            _ => reject(Rejection::UnexpectedAnswer),
        },
        AuthState::AwaitingVerifiedUser => match event {
            AuthEvent::StoreFailed => reject(Rejection::Storage),
            AuthEvent::Lookup { user: Some(user) } => (
                AuthState::Finished,
                AuthAction::Proceed { user },
            ),
            AuthEvent::Lookup { user: None } => reject(Rejection::UserNotFound),
            _ => reject(Rejection::UnexpectedAnswer),
        },
        AuthState::AwaitingLogin { login } => match event {
            AuthEvent::StoreFailed => reject(Rejection::Storage),
            AuthEvent::Lookup { user: Some(user) } => (
                AuthState::Finished,
                AuthAction::Proceed { user },
            ),
            AuthEvent::Lookup { user: None } => {
                let mut email_address = login.clone();
                email_address.append("@example.com");
                let github_user_id = synthetic_github_user_id(login.as_str());
                let github_login = login.clone();
                (
                    AuthState::AwaitingCreation { login },
                    AuthAction::CreateUser {
                        email_address,
                        github_login,
                        github_user_id,
                        admin: false,
                    },
                )
            },
            _ => reject(Rejection::UnexpectedAnswer),
        },
        AuthState::AwaitingCreation { login } => match event {
            AuthEvent::StoreFailed => reject(Rejection::Storage),
            AuthEvent::Created => (
                AuthState::AwaitingCreatedUser,
                AuthAction::GetUserByLogin { login },
            ),
            _ => reject(Rejection::UnexpectedAnswer),
        },
        AuthState::AwaitingCreatedUser => match event {
            AuthEvent::StoreFailed => reject(Rejection::Storage),
            AuthEvent::Lookup { user: Some(user) } => (
                AuthState::Finished,
                AuthAction::Proceed { user },
            ),
            AuthEvent::Lookup { user: None } => reject(Rejection::UserMissingAfterCreate),
            _ => reject(Rejection::UnexpectedAnswer),
        },
    }
}

/// Every answer brings the request nearer to its end, the request is over
/// exactly when the action is to proceed or to reject, and so no request asks
/// for more than three answers.
pub proof fn lemma_progress(state: AuthStateModel, event: AuthEventModel)
    ensures
        state !is Finished ==> answers_left(next_move(state, event).0) < answers_left(state),
        next_move(state, event).0 is Finished <==> is_final(next_move(state, event).1),
{
}

/// The first move ends the request exactly when the header is refused, and
/// then with that rejection.
pub proof fn lemma_first_move(credential: Result<CredentialModel, Rejection>)
    ensures
        first_move(credential).0 is Finished <==> credential is Err,
        credential is Err ==> first_move(credential).1 == (AuthActionModel::Reject {
            rejection: credential->Err_0,
        }),
        credential is Ok ==> !is_final(first_move(credential).1),
{
}

/// A numeric credential that the authority does not vouch for is refused as
/// unauthenticated, with the store neither read nor written for it: the
/// request is over after the verdict.
pub proof fn lemma_failed_verification()
    ensures
        next_move(AuthStateModel::AwaitingVerification, AuthEventModel::VerificationFailed)
            == rejected(Rejection::InvalidCredentials),
        Rejection::InvalidCredentials.class_spec() == ErrorClass::Unauthenticated,
{
}

/// The store and the answer after a request is resolved against a store at
/// hand. `verified` is the authority's verdict on a numeric credential: the
/// identity it vouches for, or none.
pub open spec fn resolved(
    credential: Result<CredentialModel, Rejection>,
    verified: Option<i32>,
    s: Seq<IdentityModel>,
) -> (Seq<IdentityModel>, Result<IdentityModel, Rejection>) {
    match credential {
        Err(e) => (s, Err(e)),
        Ok(CredentialModel::UserId { .. }) => match verified {
            None => (s, Err(Rejection::InvalidCredentials)),
            Some(id) => match by_id(s, id) {
                Some(user) => (s, Ok(user)),
                None => (s, Err(Rejection::UserNotFound)),
            },
        },
        Ok(CredentialModel::TrustedLogin { login }) => bootstrapped(s, login),
    }
}

/// Resolves a request against a store at hand. `verified` is the authority's
/// verdict on a numeric credential: the identity it vouches for, or none.
pub fn authenticate(
    header: Option<&str>,
    api_token: &str,
    verified: Option<i32>,
    db: &mut IdentityStore,
) -> (r: Result<Identity, Rejection>)
    requires
        old(db).wf(),
    ensures
        final(db).wf(),
        final(db)@ == resolved(
            credential_of(header_view(header), api_token@),
            verified,
            old(db)@,
        ).0,
        match resolved(credential_of(header_view(header), api_token@), verified, old(db)@).1 {
            Ok(u) => r.is_ok() && r.unwrap()@ == u,
            Err(e) => r.is_err() && r.unwrap_err() == e,
        },
{
    match parse_credential(header, api_token) {
        Err(e) => Err(e),
        Ok(Credential::UserId { claimed_id, access_token }) => match verified {
            None => Err(Rejection::InvalidCredentials),
            Some(id) => match db.get_user_by_id(id) {
                Some(user) => Ok(user),
                None => Err(Rejection::UserNotFound),
            },
        },
        Ok(Credential::TrustedLogin { login }) => get_or_create_user_for_trusted_login(
            login.as_str(),
            db,
        ),
    }
}

/// Only a trusted handle can change the store, and only by adding the one
/// record of that handle: every refused header, and every numeric credential
/// whatever the authority says of it, leaves the store as it was.
pub proof fn lemma_store_untouched(
    credential: Result<CredentialModel, Rejection>,
    verified: Option<i32>,
    s: Seq<IdentityModel>,
)
    requires
        unique(s),
    ensures
        !(credential matches Ok(CredentialModel::TrustedLogin { .. })) ==> resolved(
            credential,
            verified,
            s,
        ).0 == s,
        credential matches Ok(CredentialModel::UserId { .. }) && verified.is_none() ==> resolved(
            credential,
            verified,
            s,
        ) == (s, Err::<IdentityModel, Rejection>(Rejection::InvalidCredentials)),
{
}

/// What a faithful authority and a faithful store answer to an action, and
/// the store afterwards. `verified` is the authority's verdict.
pub open spec fn answered(action: AuthActionModel, verified: Option<i32>, s: Seq<IdentityModel>) -> (
    Seq<IdentityModel>,
    AuthEventModel,
) {
    match action {
        AuthActionModel::Verify { .. } => (
            s,
            match verified {
                Some(user_id) => AuthEventModel::Verified { user_id },
                None => AuthEventModel::VerificationFailed,
            },
        ),
        AuthActionModel::GetUserById { id } => (s, AuthEventModel::Lookup { user: by_id(s, id) }),
        AuthActionModel::GetUserByLogin { login } => (
            s,
            AuthEventModel::Lookup { user: by_login(s, login) },
        ),
        AuthActionModel::CreateUser { email_address, github_login, github_user_id, admin } => {
            let offered = IdentityModel {
                id: github_user_id,
                login: github_login,
                email: Some(email_address),
                admin,
            };
            (
                created(s, offered).0,
                if created(s, offered).1 is Ok {
                    AuthEventModel::Created
                } else {
                    AuthEventModel::StoreFailed
                },
            )
        },
        _ => (s, AuthEventModel::StoreFailed),
    }
}

/// The store and the answer to the request once the moves have been played
/// out against a faithful authority and store, within `budget` answers.
pub open spec fn played_out(
    state: AuthStateModel,
    action: AuthActionModel,
    verified: Option<i32>,
    s: Seq<IdentityModel>,
    budget: nat,
) -> (Seq<IdentityModel>, Result<IdentityModel, Rejection>)
    decreases budget,
{
    match action {
        AuthActionModel::Proceed { user } => (s, Ok(user)),
        AuthActionModel::Reject { rejection } => (s, Err(rejection)),
        _ => if budget == 0 {
            (s, Err(Rejection::UnexpectedAnswer))
        } else {
            let (after, event) = answered(action, verified, s);
            let (next_state, next_action) = next_move(state, event);
            played_out(next_state, next_action, verified, after, (budget - 1) as nat)
        },
    }
}

/// Played out against a faithful authority and store, the moves end within
/// three answers, and with the store and the answer that resolving the
/// request against the store at hand gives.
pub proof fn lemma_moves_resolve(
    credential: Result<CredentialModel, Rejection>,
    verified: Option<i32>,
    s: Seq<IdentityModel>,
)
    requires
        unique(s),
    ensures
        played_out(first_move(credential).0, first_move(credential).1, verified, s, 3) == resolved(
            credential,
            verified,
            s,
        ),
{
    reveal_with_fuel(played_out, 4);
    match credential {
        Ok(CredentialModel::TrustedLogin { login }) => {
            let offered = first_record(login);
            lemma_created(s, offered);
            if by_login(s, login) is None && created(s, offered).1 is Ok {
                assert(by_login(created(s, offered).0, login) == Some(created(s, offered).1->Ok_0));
            }
        },
        _ => {},
    }
}

/// Resolving the same accepted handle credential twice gives the same record
/// both times, whatever the authority would say, and leaves exactly one
/// record of the handle in the store.
pub proof fn lemma_resolve_idempotent(
    login: Seq<char>,
    verified_first: Option<i32>,
    verified_second: Option<i32>,
    s: Seq<IdentityModel>,
)
    requires
        unique(s),
        resolved(
            Ok(CredentialModel::TrustedLogin { login }),
            verified_first,
            s,
        ).1 is Ok,
    ensures
        ({
            let credential = Ok::<CredentialModel, Rejection>(
                CredentialModel::TrustedLogin { login },
            );
            let (once, first) = resolved(credential, verified_first, s);
            let (twice, second) = resolved(credential, verified_second, once);
            &&& second == first
            &&& twice == once
            &&& one_record(twice, login)
        }),
{
    lemma_bootstrap_idempotent(s, login);
}

} // verus!
