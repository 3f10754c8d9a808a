use collab_auth::credential::{
    parse_credential, split_header, trusted_login, Credential, ErrorClass, Rejection,
};
use collab_auth::identity::{get_or_create_user_for_trusted_login, Identity, IdentityStore};
use collab_auth::login::{is_ascii_alphanumeric, is_valid_github_login};
use collab_auth::resolver::{
    advance, authenticate, begin, verification_event, AuthAction, AuthEvent, AuthState,
};
use collab_auth::synthetic_id::{id_from_digest, synthetic_github_user_id};
use collab_auth::text::{is_whitespace, same_text, strip_prefix, trim_text};

const SECRET: &str = "s3cret";

fn trusted(handle: &str) -> String {
    format!("{handle} ADMIN_TOKEN:{SECRET}")
}

#[test]
fn login_accepts_well_formed_handles() {
    assert!(is_valid_github_login("a"));
    assert!(is_valid_github_login("alice"));
    assert!(is_valid_github_login("Alice-99"));
    assert!(is_valid_github_login("0-"));
    assert!(is_valid_github_login("a--b"));
    assert!(is_valid_github_login(&"a".repeat(39)));
}

#[test]
fn login_rejects_violations() {
    assert!(!is_valid_github_login(""));
    assert!(!is_valid_github_login(&"a".repeat(40)));
    assert!(!is_valid_github_login("-alice"));
    assert!(!is_valid_github_login("al ice"));
    assert!(!is_valid_github_login("al_ice"));
    assert!(!is_valid_github_login("alice!"));
    assert!(!is_valid_github_login("\u{e9}lise"));
    assert!(!is_valid_github_login("elis\u{e9}"));
}

#[test]
fn alphanumeric_is_ascii_only() {
    assert!(is_ascii_alphanumeric('a'));
    assert!(is_ascii_alphanumeric('Z'));
    assert!(is_ascii_alphanumeric('5'));
    assert!(!is_ascii_alphanumeric('-'));
    assert!(!is_ascii_alphanumeric('\u{e9}'));
    for c in ['a', 'z', 'A', 'Z', '0', '9', '/', ':', '@', '[', '`', '{', ' '] {
        assert_eq!(is_ascii_alphanumeric(c), c.is_ascii_alphanumeric());
    }
}

#[test]
fn whitespace_follows_unicode() {
    for u in 0u32..0x3100 {
        if let Some(c) = char::from_u32(u) {
            assert_eq!(is_whitespace(c), c.is_whitespace(), "U+{u:04X}");
        }
    }
}

#[test]
fn synthetic_id_exact_values() {
    // SHA-256("abc") starts ba 78 16 bf, SHA-256("") starts e3 b0 c4 42.
    assert_eq!(synthetic_github_user_id("abc"), 0x3a78_16bf);
    assert_eq!(synthetic_github_user_id("abc"), 980_948_671);
    assert_eq!(synthetic_github_user_id(""), 0x63b0_c442);
}

fn digest_starting(word: [u8; 4]) -> [u8; 32] {
    let mut digest = [0xa5u8; 32];
    digest[..4].copy_from_slice(&word);
    digest
}

#[test]
fn synthetic_id_from_digest_words() {
    assert_eq!(id_from_digest(&digest_starting([0, 0, 0, 0])), 1);
    assert_eq!(id_from_digest(&digest_starting([0x80, 0, 0, 0])), 1);
    assert_eq!(id_from_digest(&digest_starting([0xff, 0xff, 0xff, 0xff])), i32::MAX);
    assert_eq!(id_from_digest(&digest_starting([0x80, 0, 1, 2])), 258);
    assert_eq!(id_from_digest(&digest_starting([0x01, 0x02, 0x03, 0x04])), 0x0102_0304);
    assert_eq!(id_from_digest(&[0u8; 32]), 1);
}

#[test]
fn synthetic_id_is_deterministic_and_nonzero() {
    for handle in ["alice", "bob", "a", "zed-industries", "x-1"] {
        let id = synthetic_github_user_id(handle);
        assert_eq!(id, synthetic_github_user_id(handle));
        assert!(id > 0);
    }
}

#[test]
fn synthetic_ids_of_a_sample_are_distinct() {
    let mut seen = Vec::new();
    for i in 0..500 {
        let id = synthetic_github_user_id(&format!("user-{i}"));
        assert!(!seen.contains(&id));
        seen.push(id);
    }
}

#[test]
fn header_is_split_on_whitespace() {
    assert_eq!(split_header("alice token"), ("alice", Some("token")));
    assert_eq!(split_header("  alice \t\n token  more"), ("alice", Some("token")));
    assert_eq!(split_header("alice"), ("alice", None));
    assert_eq!(split_header("alice   "), ("alice", None));
    assert_eq!(split_header(""), ("", None));
    assert_eq!(split_header(" \t "), ("", None));
    assert_eq!(split_header("a\u{a0}b"), ("a", Some("b")));
}

#[test]
fn text_helpers() {
    assert_eq!(trim_text("  a b \n"), "a b");
    assert_eq!(trim_text(" \t "), "");
    assert_eq!(trim_text(""), "");
    assert_eq!(trim_text("x"), "x");
    assert!(same_text("abc", "abc"));
    assert!(!same_text("abc", "abd"));
    assert!(!same_text("abc", "ab"));
    assert_eq!(strip_prefix("ADMIN_TOKEN:x", "ADMIN_TOKEN:"), Some("x"));
    assert_eq!(strip_prefix("ADMIN_TOKEN:", "ADMIN_TOKEN:"), Some(""));
    assert_eq!(strip_prefix("ADMIN_TOKEN", "ADMIN_TOKEN:"), None);
    assert_eq!(strip_prefix("xADMIN_TOKEN:", "ADMIN_TOKEN:"), None);
}

#[test]
fn missing_header_is_unauthenticated() {
    assert_eq!(parse_credential(None, SECRET), Err(Rejection::MissingHeader));
    assert_eq!(Rejection::MissingHeader.class(), ErrorClass::Unauthenticated);
    assert_eq!(Rejection::MissingHeader.message(), "missing authorization header");
}

#[test]
fn missing_secret_is_bad_request() {
    for header in ["alice", "42", "", "   "] {
        assert_eq!(parse_credential(Some(header), SECRET), Err(Rejection::MissingAccessToken));
    }
    assert_eq!(Rejection::MissingAccessToken.class(), ErrorClass::BadRequest);
    assert_eq!(
        Rejection::MissingAccessToken.message(),
        "missing access token in authorization header"
    );
}

#[test]
fn legacy_subject_is_rejected_whatever_the_secret() {
    let with_secret = format!("dev-server-token ADMIN_TOKEN:{SECRET}");
    for header in ["dev-server-token", "dev-server-token anything", with_secret.as_str()] {
        assert_eq!(parse_credential(Some(header), SECRET), Err(Rejection::DeprecatedCredential));
    }
    assert_eq!(Rejection::DeprecatedCredential.class(), ErrorClass::Unauthenticated);
    assert_eq!(
        Rejection::DeprecatedCredential.message(),
        "Dev servers were removed in Zed 0.157 please upgrade to SSH remoting"
    );
}

#[test]
fn numeric_subject_is_a_user_id_credential() {
    let expect = |id: i32| {
        Ok(Credential::UserId { claimed_id: id, access_token: "tok".to_string() })
    };
    assert_eq!(parse_credential(Some("42 tok"), SECRET), expect(42));
    assert_eq!(parse_credential(Some("+7 tok"), SECRET), expect(7));
    assert_eq!(parse_credential(Some("-3 tok"), SECRET), expect(-3));
    assert_eq!(parse_credential(Some("007 tok"), SECRET), expect(7));
    assert_eq!(parse_credential(Some("2147483647 tok"), SECRET), expect(i32::MAX));
    assert_eq!(parse_credential(Some("-2147483648 tok"), SECRET), expect(i32::MIN));
}

#[test]
fn number_out_of_range_is_read_as_a_handle() {
    let header = trusted("2147483648");
    assert_eq!(
        parse_credential(Some(&header), SECRET),
        Ok(Credential::TrustedLogin { login: "2147483648".to_string() })
    );
    assert_eq!(parse_credential(Some("-2147483649 tok"), SECRET), Err(Rejection::InvalidLogin));
    assert_eq!(parse_credential(Some("+ tok"), SECRET), Err(Rejection::InvalidLogin));
    assert_eq!(parse_credential(Some("- tok"), SECRET), Err(Rejection::InvalidLogin));
}

#[test]
fn handle_credential_is_normalized() {
    assert_eq!(
        parse_credential(Some(&trusted("Alice")), SECRET),
        Ok(Credential::TrustedLogin { login: "alice".to_string() })
    );
    assert_eq!(
        parse_credential(Some(&trusted("ALICE-1")), SECRET),
        parse_credential(Some(&trusted("alice-1")), SECRET)
    );
    assert_eq!(trusted_login("  MiXed  ", "ADMIN_TOKEN:s3cret", SECRET), Ok("mixed".to_string()));
}

#[test]
fn handle_credential_rejections() {
    assert_eq!(trusted_login("   ", "ADMIN_TOKEN:s3cret", SECRET), Err(Rejection::MissingUserId));
    assert_eq!(trusted_login("", "ADMIN_TOKEN:s3cret", SECRET), Err(Rejection::MissingUserId));
    assert_eq!(parse_credential(Some(&trusted("al_ice")), SECRET), Err(Rejection::InvalidLogin));
    assert_eq!(parse_credential(Some(&trusted("-alice")), SECRET), Err(Rejection::InvalidLogin));
    assert_eq!(
        parse_credential(Some(&trusted(&"a".repeat(40))), SECRET),
        Err(Rejection::InvalidLogin)
    );
    assert_eq!(parse_credential(Some("alice s3cret"), SECRET), Err(Rejection::InvalidCredentials));
    assert_eq!(
        parse_credential(Some("alice ADMIN_TOKEN:s3cre"), SECRET),
        Err(Rejection::InvalidCredentials)
    );
    assert_eq!(
        parse_credential(Some("alice ADMIN_TOKEN:s3cret0"), SECRET),
        Err(Rejection::InvalidCredentials)
    );
    assert_eq!(
        parse_credential(Some("alice admin_token:s3cret"), SECRET),
        Err(Rejection::InvalidCredentials)
    );
    assert_eq!(Rejection::MissingUserId.class(), ErrorClass::BadRequest);
    assert_eq!(Rejection::InvalidLogin.class(), ErrorClass::BadRequest);
    assert_eq!(Rejection::InvalidCredentials.class(), ErrorClass::Unauthenticated);
    assert_eq!(Rejection::MissingUserId.message(), "missing user id in authorization header");
    assert_eq!(Rejection::InvalidLogin.message(), "invalid github login in authorization header");
    assert_eq!(Rejection::InvalidCredentials.message(), "invalid credentials");
}

#[test]
fn internal_rejections_do_not_say_why() {
    for r in [
        Rejection::UserNotFound,
        Rejection::UserMissingAfterCreate,
        Rejection::Storage,
        Rejection::UnexpectedAnswer,
    ] {
        assert_eq!(r.class(), ErrorClass::Internal);
        assert_eq!(r.message(), "internal server error");
    }
}

#[test]
fn store_lookups_and_creation() {
    let mut db = IdentityStore::new();
    assert_eq!(db.len(), 0);
    assert_eq!(db.get_user_by_id(1), None);
    assert_eq!(db.get_user_by_github_login("alice"), None);
    let alice = db.create_user("alice@example.com", "alice", 7, false).unwrap();
    assert_eq!(
        alice,
        Identity {
            id: 7,
            github_login: "alice".to_string(),
            email: Some("alice@example.com".to_string()),
            admin: false,
        }
    );
    assert_eq!(db.get_user_by_id(7), Some(alice.clone()));
    assert_eq!(db.get_user_by_github_login("alice"), Some(alice.clone()));
    assert_eq!(db.get_user_by_github_login("Alice"), None);
    // A second creation of the handle answers with the record that is there.
    assert_eq!(db.create_user("other@example.com", "alice", 8, true), Ok(alice.clone()));
    assert_eq!(db.len(), 1);
    // An id that belongs to another handle is refused.
    assert_eq!(db.create_user("bob@example.com", "bob", 7, false), Err(Rejection::Storage));
    assert_eq!(db.len(), 1);
    assert_eq!(alice.duplicate(), alice);
}

#[test]
fn bootstrap_is_idempotent() {
    let mut db = IdentityStore::new();
    let first = get_or_create_user_for_trusted_login("alice", &mut db).unwrap();
    let second = get_or_create_user_for_trusted_login("alice", &mut db).unwrap();
    assert_eq!(first.id, second.id);
    assert_eq!(first, second);
    assert_eq!(db.len(), 1);
    assert_eq!(first.id, synthetic_github_user_id("alice"));
    assert_eq!(first.email.as_deref(), Some("alice@example.com"));
    assert!(!first.admin);
}

#[test]
fn resolve_twice_with_valid_secret_gives_one_record() {
    let mut db = IdentityStore::new();
    let header = trusted("alice");
    let first = authenticate(Some(&header), SECRET, None, &mut db).unwrap();
    let second = authenticate(Some(&header), SECRET, None, &mut db).unwrap();
    assert_eq!(first.id, second.id);
    assert_eq!(db.len(), 1);
}

#[test]
fn case_variants_resolve_to_one_identity() {
    let mut db = IdentityStore::new();
    let upper = authenticate(Some(&trusted("Alice")), SECRET, None, &mut db).unwrap();
    let lower = authenticate(Some(&trusted("alice")), SECRET, None, &mut db).unwrap();
    assert_eq!(upper, lower);
    assert_eq!(upper.github_login, "alice");
    assert_eq!(db.len(), 1);
}

#[test]
fn rejected_token_leaves_the_store_alone() {
    let mut db = IdentityStore::new();
    db.create_user("a@example.com", "alice", 42, false).unwrap();
    let r = authenticate(Some("42 bad-token"), SECRET, None, &mut db);
    assert_eq!(r, Err(Rejection::InvalidCredentials));
    assert_eq!(db.len(), 1);
    let r = authenticate(Some("43 bad-token"), SECRET, None, &mut db);
    assert_eq!(r, Err(Rejection::InvalidCredentials));
    assert_eq!(db.len(), 1);
    assert_eq!(authenticate(None, SECRET, None, &mut db), Err(Rejection::MissingHeader));
    assert_eq!(
        authenticate(Some("alice wrong"), SECRET, Some(42), &mut db),
        Err(Rejection::InvalidCredentials)
    );
    assert_eq!(db.len(), 1);
}

#[test]
fn asserted_id_wins_over_claimed_id() {
    let mut db = IdentityStore::new();
    let alice = db.create_user("a@example.com", "alice", 42, false).unwrap();
    let bob = db.create_user("b@example.com", "bob", 43, false).unwrap();
    assert_eq!(authenticate(Some("42 tok"), SECRET, Some(42), &mut db), Ok(alice));
    assert_eq!(authenticate(Some("42 tok"), SECRET, Some(43), &mut db), Ok(bob));
    assert_eq!(authenticate(Some("42 tok"), SECRET, Some(44), &mut db), Err(Rejection::UserNotFound));
    assert_eq!(db.len(), 2);
}

fn reject(rejection: Rejection) -> (AuthState, AuthAction) {
    (AuthState::Finished, AuthAction::Reject { rejection })
}

#[test]
fn machine_numeric_path() {
    let (state, action) = begin(Some("42 tok"), SECRET);
    assert_eq!(state, AuthState::AwaitingVerification);
    assert_eq!(action, AuthAction::Verify { claimed_id: 42, access_token: "tok".to_string() });
    assert_eq!(
        advance(state.clone(), AuthEvent::VerificationFailed),
        reject(Rejection::InvalidCredentials)
    );
    let (state, action) = advance(state, AuthEvent::Verified { user_id: 99 });
    assert_eq!(state, AuthState::AwaitingVerifiedUser);
    assert_eq!(action, AuthAction::GetUserById { id: 99 });
    assert_eq!(
        advance(state.clone(), AuthEvent::Lookup { user: None }),
        reject(Rejection::UserNotFound)
    );
    assert_eq!(advance(state.clone(), AuthEvent::StoreFailed), reject(Rejection::Storage));
    let user = Identity { id: 99, github_login: "z".to_string(), email: None, admin: true };
    assert_eq!(
        advance(state, AuthEvent::Lookup { user: Some(user.clone()) }),
        (AuthState::Finished, AuthAction::Proceed { user })
    );
}

#[test]
fn machine_handle_path() {
    let (state, action) = begin(Some(&trusted("Alice")), SECRET);
    assert_eq!(state, AuthState::AwaitingLogin { login: "alice".to_string() });
    assert_eq!(action, AuthAction::GetUserByLogin { login: "alice".to_string() });
    let (state, action) = advance(state, AuthEvent::Lookup { user: None });
    assert_eq!(state, AuthState::AwaitingCreation { login: "alice".to_string() });
    assert_eq!(
        action,
        AuthAction::CreateUser {
            email_address: "alice@example.com".to_string(),
            github_login: "alice".to_string(),
            github_user_id: synthetic_github_user_id("alice"),
            admin: false,
        }
    );
    assert_eq!(advance(state.clone(), AuthEvent::StoreFailed), reject(Rejection::Storage));
    let (state, action) = advance(state, AuthEvent::Created);
    assert_eq!(state, AuthState::AwaitingCreatedUser);
    assert_eq!(action, AuthAction::GetUserByLogin { login: "alice".to_string() });
    assert_eq!(
        advance(state.clone(), AuthEvent::Lookup { user: None }),
        reject(Rejection::UserMissingAfterCreate)
    );
    let user = Identity { id: 5, github_login: "alice".to_string(), email: None, admin: false };
    assert_eq!(
        advance(state, AuthEvent::Lookup { user: Some(user.clone()) }),
        (AuthState::Finished, AuthAction::Proceed { user })
    );
}

#[test]
fn machine_rejects_at_once_and_ignores_stray_answers() {
    assert_eq!(begin(None, SECRET), reject(Rejection::MissingHeader));
    assert_eq!(begin(Some("alice"), SECRET), reject(Rejection::MissingAccessToken));
    assert_eq!(begin(Some("dev-server-token x"), SECRET), reject(Rejection::DeprecatedCredential));
    assert_eq!(
        advance(AuthState::Finished, AuthEvent::Created),
        reject(Rejection::UnexpectedAnswer)
    );
    assert_eq!(
        advance(AuthState::AwaitingVerification, AuthEvent::Created),
        reject(Rejection::UnexpectedAnswer)
    );
    assert_eq!(
        advance(AuthState::AwaitingCreatedUser, AuthEvent::Verified { user_id: 1 }),
        reject(Rejection::UnexpectedAnswer)
    );
}

/// Performs `action` against the store, as a faithful collaborator would.
fn answer(action: &AuthAction, db: &mut IdentityStore) -> AuthEvent {
    match action {
        AuthAction::GetUserById { id } => AuthEvent::Lookup { user: db.get_user_by_id(*id) },
        AuthAction::GetUserByLogin { login } => {
            AuthEvent::Lookup { user: db.get_user_by_github_login(login) }
        }
        AuthAction::CreateUser { email_address, github_login, github_user_id, admin } => {
            match db.create_user(email_address, github_login, *github_user_id, *admin) {
                Ok(_) => AuthEvent::Created,
                Err(_) => AuthEvent::StoreFailed,
            }
        }
        _ => panic!("no answer to {action:?}"),
    }
}

#[test]
fn racing_first_contacts_share_one_record() {
    let n = 8;
    let mut db = IdentityStore::new();
    let header = trusted("Newcomer");
    // Every request misses the lookup before any of them creates the record.
    let mut moves: Vec<(AuthState, AuthAction)> =
        (0..n).map(|_| begin(Some(&header), SECRET)).collect();
    for _round in 0..3 {
        let events: Vec<AuthEvent> = moves.iter().map(|(_, a)| answer(a, &mut db)).collect();
        moves = moves
            .into_iter()
            .zip(events)
            .map(|((state, _), event)| advance(state, event))
            .collect();
    }
    assert_eq!(db.len(), 1);
    let stored = db.get_user_by_github_login("newcomer").unwrap();
    for (state, action) in moves {
        assert_eq!(state, AuthState::Finished);
        assert_eq!(action, AuthAction::Proceed { user: stored.clone() });
    }
}

#[test]
fn only_ascii_capitals_are_lowered() {
    assert_eq!(
        trusted_login("ABCDEFGHIJKLMNOPQRSTUVWXYZ-0189", "ADMIN_TOKEN:s3cret", SECRET),
        Ok("abcdefghijklmnopqrstuvwxyz-0189".to_string())
    );
    assert_eq!(
        trusted_login("abcxyz@[`{", "ADMIN_TOKEN:s3cret", SECRET),
        Err(Rejection::InvalidLogin)
    );
    // A capital outside ASCII is left as it is, and so refused.
    assert_eq!(
        trusted_login("\u{c9}lise", "ADMIN_TOKEN:s3cret", SECRET),
        Err(Rejection::InvalidLogin)
    );
}

#[test]
fn only_a_readable_success_vouches() {
    assert_eq!(verification_event(Some(200), Some(7)), AuthEvent::Verified { user_id: 7 });
    assert_eq!(verification_event(Some(299), Some(-1)), AuthEvent::Verified { user_id: -1 });
    for status in [100, 199, 300, 301, 401, 403, 404, 500, 503] {
        assert_eq!(verification_event(Some(status), Some(7)), AuthEvent::VerificationFailed);
    }
    assert_eq!(verification_event(Some(200), None), AuthEvent::VerificationFailed);
    assert_eq!(verification_event(None, None), AuthEvent::VerificationFailed);
    assert_eq!(verification_event(None, Some(7)), AuthEvent::VerificationFailed);
}
