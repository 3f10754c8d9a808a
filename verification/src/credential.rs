//! Reading an authorization header into a credential, or rejecting it.

use vstd::prelude::*;
use crate::login::{is_valid_github_login, valid_login};
use crate::text::{
    ascii_lower, chars_of, decimal_i32, lemma_skip_spaces, lemma_skip_word, parse_i32, same_text,
    scan_spaces, scan_word, skip_spaces, skip_word, strip_prefix, to_ascii_lowercase, trim,
    trim_text, without_prefix,
};

verus! {

/// How a rejection is reported to the caller.
#[derive(Debug, Clone, Copy, PartialEq, Eq, Structural)]
pub enum ErrorClass {
    /// The credential is malformed.
    BadRequest,
    /// The credential is well formed but unproven.
    Unauthenticated,
    /// Storage or infrastructure failed.
    Internal,
}

/// Why a request was turned away.
#[derive(Debug, Clone, Copy, PartialEq, Eq, Structural)]
pub enum Rejection {
    /// The request carries no authorization header.
    MissingHeader,
    /// The subject names the credential kind that was removed.
    DeprecatedCredential,
    /// The header holds no secret after the subject.
    MissingAccessToken,
    /// The handle is empty once trimmed.
    MissingUserId,
    /// The handle is not well formed.
    InvalidLogin,
    /// The secret does not prove the subject.
    InvalidCredentials,
    /// The authority vouched for an identity that the store does not hold.
    UserNotFound,
    /// A record that was just created cannot be found.
    UserMissingAfterCreate,
    /// The store failed.
    Storage,
    /// A collaborator answered what had not been asked.
    UnexpectedAnswer,
}

impl Rejection {
    /// The class under which each rejection is reported.
    pub open spec fn class_spec(self) -> ErrorClass {
        match self {
            Rejection::MissingAccessToken | Rejection::MissingUserId | Rejection::InvalidLogin =>
                ErrorClass::BadRequest,
            Rejection::MissingHeader | Rejection::DeprecatedCredential
            | Rejection::InvalidCredentials => ErrorClass::Unauthenticated,
            Rejection::UserNotFound | Rejection::UserMissingAfterCreate | Rejection::Storage
            | Rejection::UnexpectedAnswer =>
                ErrorClass::Internal,
        }
    }

    /// The class under which this rejection is reported.
    pub fn class(&self) -> (c: ErrorClass)
        ensures
            c == self.class_spec(),
    {
        match self {
            Rejection::MissingAccessToken | Rejection::MissingUserId | Rejection::InvalidLogin =>
                ErrorClass::BadRequest,
            Rejection::MissingHeader | Rejection::DeprecatedCredential
            | Rejection::InvalidCredentials => ErrorClass::Unauthenticated,
            Rejection::UserNotFound | Rejection::UserMissingAfterCreate | Rejection::Storage
            | Rejection::UnexpectedAnswer =>
                ErrorClass::Internal,
        }
    }

    /// The text shown to the caller. It never says whether a handle exists,
    /// whether an id is valid, or why the authority refused.
    pub open spec fn message_spec(self) -> Seq<char> {
        match self {
            Rejection::MissingHeader => "missing authorization header"@,
            Rejection::DeprecatedCredential =>
                "Dev servers were removed in Zed 0.157 please upgrade to SSH remoting"@,
            Rejection::MissingAccessToken => "missing access token in authorization header"@,
            Rejection::MissingUserId => "missing user id in authorization header"@,
            Rejection::InvalidLogin => "invalid github login in authorization header"@,
            Rejection::InvalidCredentials => "invalid credentials"@,
            Rejection::UserNotFound | Rejection::UserMissingAfterCreate | Rejection::Storage
            | Rejection::UnexpectedAnswer =>
                "internal server error"@,
        }
    }

    /// The text shown to the caller.
    pub fn message(&self) -> (m: String)
        ensures
            m@ == self.message_spec(),
    {
        match self {
            Rejection::MissingHeader => "missing authorization header".to_owned(),
            Rejection::DeprecatedCredential =>
                "Dev servers were removed in Zed 0.157 please upgrade to SSH remoting".to_owned(),
            Rejection::MissingAccessToken =>
                "missing access token in authorization header".to_owned(),
            Rejection::MissingUserId => "missing user id in authorization header".to_owned(),
            Rejection::InvalidLogin => "invalid github login in authorization header".to_owned(),
            Rejection::InvalidCredentials => "invalid credentials".to_owned(),
            Rejection::UserNotFound | Rejection::UserMissingAfterCreate | Rejection::Storage
            | Rejection::UnexpectedAnswer =>
                "internal server error".to_owned(),
        }
    }
}

/// A credential that has passed every check that needs no collaborator.
#[derive(Debug, Clone, PartialEq, Eq)]
pub enum Credential {
    /// A numeric identity with a token that the authority has yet to verify.
    UserId { claimed_id: i32, access_token: String },
    /// A normalized handle whose trust token matched the shared secret.
    TrustedLogin { login: String },
}

/// What a [`Credential`] holds, as plain values.
pub enum CredentialModel {
    UserId { claimed_id: i32, access_token: Seq<char> },
    TrustedLogin { login: Seq<char> },
}

impl View for Credential {
    type V = CredentialModel;

    open spec fn view(&self) -> CredentialModel {
        match self {
            Credential::UserId { claimed_id, access_token } => CredentialModel::UserId {
                claimed_id: *claimed_id,
                access_token: access_token@,
            },
            Credential::TrustedLogin { login } => CredentialModel::TrustedLogin { login: login@ },
        }
    }
}

/// The subject that stands for the removed credential kind.
pub open spec fn legacy_subject() -> Seq<char> {
    "dev-server-token"@
}

/// The marker in front of a trust token.
pub open spec fn trust_marker() -> Seq<char> {
    "ADMIN_TOKEN:"@
}

/// The first word of a header, empty where it has none.
pub open spec fn subject_of(header: Seq<char>) -> Seq<char> {
    let a = skip_spaces(header, 0);
    header.subrange(a, skip_word(header, a))
}

/// The second word of a header, where it has one.
pub open spec fn secret_of(header: Seq<char>) -> Option<Seq<char>> {
    let b = skip_word(header, skip_spaces(header, 0));
    let c = skip_spaces(header, b);
    if c < header.len() {
        Some(header.subrange(c, skip_word(header, c)))
    } else {
        None
    }
}

/// The normalized handle that a handle credential proves, or why it is
/// refused: the handle is trimmed and lower-cased, must not be empty, must be
/// well formed, and the secret must be the marker followed by exactly the
/// shared secret.
pub open spec fn trusted_login_of(
    subject: Seq<char>,
    secret: Seq<char>,
    api_token: Seq<char>,
) -> Result<Seq<char>, Rejection> {
    let login = ascii_lower(trim(subject));
    if trim(subject).len() == 0 {
        Err(Rejection::MissingUserId)
    } else if !valid_login(login) {
        Err(Rejection::InvalidLogin)
    } else if without_prefix(secret, trust_marker()) != Some(api_token) {
        Err(Rejection::InvalidCredentials)
    } else {
        Ok(login)
    }
}

/// The credential that a header carries, or why it is refused.
pub open spec fn credential_of(header: Option<Seq<char>>, api_token: Seq<char>) -> Result<
    CredentialModel,
    Rejection,
> {
    match header {
        None => Err(Rejection::MissingHeader),
        Some(h) => {
            let subject = subject_of(h);
            if subject == legacy_subject() {
                Err(Rejection::DeprecatedCredential)
            } else {
                match secret_of(h) {
                    None => Err(Rejection::MissingAccessToken),
                    Some(secret) => match decimal_i32(subject) {
                        Some(id) => Ok(
                            CredentialModel::UserId { claimed_id: id, access_token: secret },
                        ),
                        None => match trusted_login_of(subject, secret, api_token) {
                            Ok(login) => Ok(CredentialModel::TrustedLogin { login }),
                            Err(e) => Err(e),
                        },
                    },
                }
            }
        },
    }
}

/// The characters of an optional header.
pub open spec fn header_view(header: Option<&str>) -> Option<Seq<char>> {
    match header {
        Some(h) => Some(h@),
        None => None,
    }
}

/// Splits a header on whitespace into its subject and its secret.
pub fn split_header(header: &str) -> (words: (&str, Option<&str>))
    ensures
        words.0@ == subject_of(header@),
        match secret_of(header@) {
            Some(secret) => words.1.is_some() && words.1.unwrap()@ == secret,
            None => words.1.is_none(),
        },
{
    let chars = chars_of(header);
    let n: usize = chars.len();
    let a: usize = scan_spaces(&chars, 0);
    let b: usize = scan_word(&chars, a);
    let c: usize = scan_spaces(&chars, b);
    let subject = header.substring_char(a, b);
    if c < n {
        let d: usize = scan_word(&chars, c);
        (subject, Some(header.substring_char(c, d)))
    } else {
        (subject, None)
    }
}

/// Checks a handle credential against the shared secret `api_token` and
/// returns the normalized handle.
pub fn trusted_login(subject: &str, secret: &str, api_token: &str) -> (r: Result<String, Rejection>)
    ensures
        match trusted_login_of(subject@, secret@, api_token@) {
            Ok(login) => r.is_ok() && r.unwrap()@ == login,
            Err(e) => r.is_err() && r.unwrap_err() == e,
        },
{
    let trimmed = trim_text(subject);
    if trimmed.unicode_len() == 0 {
        return Err(Rejection::MissingUserId);
    }
    let login = to_ascii_lowercase(trimmed);
    if !is_valid_github_login(login.as_str()) {
        return Err(Rejection::InvalidLogin);
    }
    match strip_prefix(secret, "ADMIN_TOKEN:") {
        None => Err(Rejection::InvalidCredentials),
        Some(admin_token) => {
            if same_text(api_token, admin_token) {
                Ok(login)
            } else {
                Err(Rejection::InvalidCredentials)
            }
        },
    }
}

/// Reads the authorization header of a request. `api_token` is the shared
/// secret of the service.
pub fn parse_credential(header: Option<&str>, api_token: &str) -> (r: Result<
    Credential,
    Rejection,
>)
    ensures
        match credential_of(header_view(header), api_token@) {
            Ok(c) => r.is_ok() && r.unwrap()@ == c,
            Err(e) => r.is_err() && r.unwrap_err() == e,
        },
{
    let header = match header {
        Some(h) => h,
        None => { return Err(Rejection::MissingHeader); },
    };
    let (subject, secret) = split_header(header);
    if same_text(subject, "dev-server-token") {
        return Err(Rejection::DeprecatedCredential);
    }
    let secret = match secret {
        Some(s) => s,
        None => { return Err(Rejection::MissingAccessToken); },
    };
    match parse_i32(subject) {
        Some(id) => Ok(Credential::UserId { claimed_id: id, access_token: secret.to_owned() }),
        None => match trusted_login(subject, secret, api_token) {
            Ok(login) => Ok(Credential::TrustedLogin { login }),
            Err(e) => Err(e),
        },
    }
}

/// A header whose subject is the removed credential kind is refused whatever
/// follows the subject and whatever the shared secret is.
pub proof fn lemma_legacy_subject_rejected(header: Seq<char>, api_token: Seq<char>)
    requires
        subject_of(header) == legacy_subject(),
    ensures
        credential_of(Some(header), api_token) == Err::<CredentialModel, Rejection>(
            Rejection::DeprecatedCredential,
        ),
{
}

/// A missing header is refused as unauthenticated, and a header with a
/// subject but no secret as a bad request, unless the subject is the removed
/// credential kind.
pub proof fn lemma_missing_parts(header: Seq<char>, api_token: Seq<char>)
    ensures
        credential_of(None, api_token) == Err::<CredentialModel, Rejection>(
            Rejection::MissingHeader,
        ),
        Rejection::MissingHeader.class_spec() == ErrorClass::Unauthenticated,
        secret_of(header).is_none() && subject_of(header) != legacy_subject() ==> credential_of(
            Some(header),
            api_token,
        ) == Err::<CredentialModel, Rejection>(Rejection::MissingAccessToken),
        Rejection::MissingAccessToken.class_spec() == ErrorClass::BadRequest,
{
}

/// The subject of a header holds no whitespace, so trimming leaves it as it
/// is, and it is empty only where the header holds no word at all.
pub proof fn lemma_subject_is_word(header: Seq<char>)
    ensures
        trim(subject_of(header)) == subject_of(header),
        secret_of(header).is_some() ==> subject_of(header).len() > 0,
{
    let a = skip_spaces(header, 0);
    lemma_skip_spaces(header, 0);
    lemma_skip_word(header, a);
    let b = skip_word(header, a);
    lemma_skip_spaces(header, b);
    let s = subject_of(header);
    assert forall|k: int| 0 <= k < s.len() implies !crate::text::is_space(#[trigger] s[k]) by {
        assert(s[k] == header[a + k]);
    }
    crate::text::lemma_trim_word(s);
}

/// Two handle credentials that differ only in the case of ASCII letters of
/// the subject are judged alike and give the same normalized handle.
pub proof fn lemma_case_insensitive(
    subject_a: Seq<char>,
    subject_b: Seq<char>,
    secret: Seq<char>,
    api_token: Seq<char>,
)
    requires
        ascii_lower(trim(subject_a)) == ascii_lower(trim(subject_b)),
    ensures
        trusted_login_of(subject_a, secret, api_token) == trusted_login_of(
            subject_b,
            secret,
            api_token,
        ),
{
    assert(ascii_lower(trim(subject_a)).len() == trim(subject_a).len());
    assert(ascii_lower(trim(subject_b)).len() == trim(subject_b).len());
}

/// Two headers with the same secret whose subjects differ only in the case
/// of ASCII letters carry the same credential, provided neither subject is a
/// number or the removed credential kind (which is told apart as written).
pub proof fn lemma_header_case_insensitive(
    header_a: Seq<char>,
    header_b: Seq<char>,
    api_token: Seq<char>,
)
    requires
        ascii_lower(subject_of(header_a)) == ascii_lower(subject_of(header_b)),
        secret_of(header_a) == secret_of(header_b),
        decimal_i32(subject_of(header_a)).is_none(),
        decimal_i32(subject_of(header_b)).is_none(),
        subject_of(header_a) != legacy_subject(),
        subject_of(header_b) != legacy_subject(),
    ensures
        credential_of(Some(header_a), api_token) == credential_of(Some(header_b), api_token),
{
    lemma_subject_is_word(header_a);
    lemma_subject_is_word(header_b);
    if secret_of(header_a).is_some() {
        lemma_case_insensitive(
            subject_of(header_a),
            subject_of(header_b),
            secret_of(header_a).unwrap(),
            api_token,
        );
    }
}

/// No header is refused for an empty handle: a header that has a secret has
/// a subject of at least one character, none of them whitespace.
pub proof fn lemma_subject_never_missing(header: Option<Seq<char>>, api_token: Seq<char>)
    ensures
        credential_of(header, api_token) != Err::<CredentialModel, Rejection>(
            Rejection::MissingUserId,
        ),
{
    if header.is_some() {
        lemma_subject_is_word(header.unwrap());
    }
}

/// A header is accepted as a trusted handle only if the handle is well
/// formed and lower-case as recorded, and the secret is the marker followed
/// by exactly the shared secret.
pub proof fn lemma_trusted_login_sound(header: Seq<char>, api_token: Seq<char>, login: Seq<char>)
    requires
        credential_of(Some(header), api_token) == Ok::<CredentialModel, Rejection>(
            CredentialModel::TrustedLogin { login },
        ),
    ensures
        valid_login(login),
        login == ascii_lower(trim(subject_of(header))),
        secret_of(header).is_some(),
        secret_of(header).unwrap() == trust_marker() + api_token,
{
    let secret = secret_of(header).unwrap();
    let marker = trust_marker();
    assert(without_prefix(secret, marker) == Some(api_token));
    assert(secret =~= secret.subrange(0, marker.len() as int) + secret.subrange(
        marker.len() as int,
        secret.len() as int,
    ));
}

} // verus!
