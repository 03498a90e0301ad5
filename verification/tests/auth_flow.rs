use peroxide::authenticate::{
    authenticate, require_admin, session_cookie_header, session_set_cookie, AuthError,
};
use peroxide::keyring::Keys;
use peroxide::provision::{
    create_privileged, create_user, sign_in, sign_up, ProvisionError, SignInError, UserSignIn,
    UserSignUp,
};
use peroxide::store::UserStore;
use peroxide::user::Rank;

fn ann() -> UserSignUp {
    UserSignUp {
        name: "Ann".to_string(),
        username: "ann".to_string(),
        pass: "correct horse".to_string(),
        email: "a@x.com".to_string(),
    }
}

fn keys() -> Keys {
    Keys::new(b"the process signing secret")
}

fn header_for(cookie: &str) -> Vec<u8> {
    format!("theme=dark; jwt-token={cookie}").into_bytes()
}

const NOW: u64 = 1_700_000_000;

#[test]
fn end_to_end_sign_up_then_authenticate() {
    // Sign up, carry the cookie back on a later request, and resolve it to
    // the principal it was minted for.
    let keys = keys();
    let mut store = UserStore::new();
    let (user, cookie) = sign_up(&mut store, ann(), &keys, NOW).expect("sign-up succeeds");
    assert_eq!(user.username, "ann");
    assert_eq!(user.rank, Rank::User);
    assert_eq!(user.salt.len(), 64);

    let header = header_for(&cookie);
    let principal =
        authenticate(&store, Some(&header), &keys, NOW + 60).expect("the cookie authenticates");
    assert_eq!(principal.username, "ann");
    assert_eq!(principal.rank, Rank::User);
}

#[test]
fn sign_in_issues_a_working_cookie() {
    let keys = keys();
    let mut store = UserStore::new();
    sign_up(&mut store, ann(), &keys, NOW).expect("sign-up succeeds");

    let req = UserSignIn { username: "ann".to_string(), pass: "correct horse".to_string() };
    let cookie = sign_in(&store, &req, &keys, NOW + 100).expect("sign-in succeeds");
    let header = header_for(&cookie);
    let principal = authenticate(&store, Some(&header), &keys, NOW + 200).expect("authenticates");
    assert_eq!(principal.username, "ann");
}

#[test]
fn sign_in_wrong_password_is_generic() {
    let keys = keys();
    let mut store = UserStore::new();
    sign_up(&mut store, ann(), &keys, NOW).expect("sign-up succeeds");

    let wrong = UserSignIn { username: "ann".to_string(), pass: "wrong horse".to_string() };
    let missing = UserSignIn { username: "bob".to_string(), pass: "anything".to_string() };
    // A wrong password and an unknown username yield one and the same
    // error, so usernames cannot be probed.
    assert_eq!(sign_in(&store, &wrong, &keys, NOW), Err(SignInError::InvalidCredentials));
    assert_eq!(sign_in(&store, &missing, &keys, NOW), Err(SignInError::InvalidCredentials));
}

#[test]
fn sign_in_against_unreachable_store_is_generic() {
    let keys = keys();
    let mut store = UserStore::new();
    sign_up(&mut store, ann(), &keys, NOW).expect("sign-up succeeds");
    store.set_available(false);
    let req = UserSignIn { username: "ann".to_string(), pass: "correct horse".to_string() };
    assert_eq!(sign_in(&store, &req, &keys, NOW), Err(SignInError::InvalidCredentials));
}

#[test]
fn missing_and_malformed_headers() {
    let keys = keys();
    let store = UserStore::new();
    assert!(matches!(
        authenticate(&store, None, &keys, NOW),
        Err(AuthError::NoSessionCookie)
    ));
    assert!(matches!(
        authenticate(&store, Some(b"theme=dark"), &keys, NOW),
        Err(AuthError::NoSessionCookie)
    ));
    assert!(matches!(
        authenticate(&store, Some(b"jwt\x01token"), &keys, NOW),
        Err(AuthError::MalformedCookies)
    ));
}

#[test]
fn tampered_cookie_is_invalid() {
    let keys = keys();
    let mut store = UserStore::new();
    let (_, cookie) = sign_up(&mut store, ann(), &keys, NOW).expect("sign-up succeeds");

    let mut garbled = cookie.clone().into_bytes();
    let mid = garbled.len() / 2;
    garbled[mid] = if garbled[mid] == b'A' { b'B' } else { b'A' };
    let garbled = String::from_utf8(garbled).unwrap();
    let header = header_for(&garbled);
    assert!(matches!(
        authenticate(&store, Some(&header), &keys, NOW),
        Err(AuthError::InvalidToken)
    ));

    let header = header_for("not even base64!");
    assert!(matches!(
        authenticate(&store, Some(&header), &keys, NOW),
        Err(AuthError::InvalidToken)
    ));
}

#[test]
fn expired_token_is_rejected() {
    let keys = keys();
    let mut store = UserStore::new();
    let (_, cookie) = sign_up(&mut store, ann(), &keys, NOW).expect("sign-up succeeds");
    let header = header_for(&cookie);
    // Authoritative bound: the token's own expiry, 24 hours after issuance.
    let exp = NOW + 86400;
    assert!(authenticate(&store, Some(&header), &keys, exp - 1).is_ok());
    assert!(matches!(
        authenticate(&store, Some(&header), &keys, exp),
        Err(AuthError::InvalidToken)
    ));
    assert!(matches!(
        authenticate(&store, Some(&header), &keys, exp + 9999),
        Err(AuthError::InvalidToken)
    ));
}

#[test]
fn unknown_user_and_unreachable_store_look_alike() {
    let keys = keys();
    let mut store = UserStore::new();
    let (_, cookie) = sign_up(&mut store, ann(), &keys, NOW).expect("sign-up succeeds");
    let header = header_for(&cookie);

    // The same cookie against a store that never held the row.
    let empty = UserStore::new();
    assert!(matches!(
        authenticate(&empty, Some(&header), &keys, NOW),
        Err(AuthError::UnknownUserOrStoreError)
    ));

    // And against the right store gone unreachable.
    store.set_available(false);
    assert!(matches!(
        authenticate(&store, Some(&header), &keys, NOW),
        Err(AuthError::UnknownUserOrStoreError)
    ));
}

#[test]
fn rotated_hash_invalidates_outstanding_tokens() {
    // Hash invalidation: a token minted before the stored hash changed
    // fails the authenticator afterwards.
    let keys = keys();
    let mut store = UserStore::new();
    let (_, cookie) = sign_up(&mut store, ann(), &keys, NOW).expect("sign-up succeeds");
    let header = header_for(&cookie);

    let mut rotated = UserStore::new();
    let changed = UserSignUp {
        name: "Ann".to_string(),
        username: "ann".to_string(),
        pass: "a new password".to_string(),
        email: "a@x.com".to_string(),
    };
    sign_up(&mut rotated, changed, &keys, NOW).expect("sign-up succeeds");

    assert!(authenticate(&store, Some(&header), &keys, NOW).is_ok());
    assert!(matches!(
        authenticate(&rotated, Some(&header), &keys, NOW),
        Err(AuthError::HashMismatch)
    ));
}

#[test]
fn duplicate_sign_up_is_refused() {
    let keys = keys();
    let mut store = UserStore::new();
    sign_up(&mut store, ann(), &keys, NOW).expect("first sign-up succeeds");
    assert!(matches!(
        sign_up(&mut store, ann(), &keys, NOW),
        Err(ProvisionError::DuplicateUsername)
    ));
    // A distinct username with the same email conflicts too.
    let same_email = UserSignUp {
        name: "Ann2".to_string(),
        username: "ann2".to_string(),
        pass: "pw".to_string(),
        email: "a@x.com".to_string(),
    };
    assert!(matches!(
        sign_up(&mut store, same_email, &keys, NOW),
        Err(ProvisionError::DuplicateUsername)
    ));
}

#[test]
fn sign_up_against_unreachable_store() {
    let keys = keys();
    let mut store = UserStore::new();
    store.set_available(false);
    assert!(matches!(
        sign_up(&mut store, ann(), &keys, NOW),
        Err(ProvisionError::StoreUnavailable)
    ));
}

#[test]
fn rank_enforcement() {
    // A User-rank principal is turned away from admin-gated operations; an
    // Admin-rank principal passes.
    let keys = keys();
    let mut store = UserStore::new();
    let (user, _) = sign_up(&mut store, ann(), &keys, NOW).expect("sign-up succeeds");
    assert!(matches!(
        require_admin(user),
        Err(AuthError::InsufficientRank)
    ));

    let root_req = UserSignUp {
        name: "Root".to_string(),
        username: "root".to_string(),
        pass: "root pw".to_string(),
        email: "r@x.com".to_string(),
    };
    let seed = sign_up(&mut store, root_req, &keys, NOW).expect("sign-up succeeds").0;
    // Bootstrap an admin through the privileged path, acting as an admin.
    let mut acting = seed;
    acting.rank = Rank::Admin;
    let boss_req = UserSignUp {
        name: "Boss".to_string(),
        username: "boss".to_string(),
        pass: "boss pw".to_string(),
        email: "b@x.com".to_string(),
    };
    let boss = create_privileged(boss_req, Rank::Admin, &acting, &mut store)
        .expect("privileged creation succeeds");
    assert_eq!(boss.rank, Rank::Admin);
    let admitted = require_admin(boss).expect("an admin is admitted");
    assert_eq!(admitted.0.username, "boss");
}

#[test]
fn privileged_creation_requires_admin() {
    let keys = keys();
    let mut store = UserStore::new();
    let (plain, _) = sign_up(&mut store, ann(), &keys, NOW).expect("sign-up succeeds");
    let req = UserSignUp {
        name: "Eve".to_string(),
        username: "eve".to_string(),
        pass: "pw".to_string(),
        email: "e@x.com".to_string(),
    };
    assert!(matches!(
        create_privileged(req, Rank::Admin, &plain, &mut store),
        Err(ProvisionError::Unauthorized)
    ));
}

#[test]
fn create_user_handler_checks_rank_and_assigns_user_rank() {
    let keys = keys();
    let mut store = UserStore::new();
    let (mut actor, _) = sign_up(&mut store, ann(), &keys, NOW).expect("sign-up succeeds");

    let req = UserSignUp {
        name: "Eve".to_string(),
        username: "eve".to_string(),
        pass: "pw".to_string(),
        email: "e@x.com".to_string(),
    };
    let req2 = UserSignUp {
        name: "Eve".to_string(),
        username: "eve".to_string(),
        pass: "pw".to_string(),
        email: "e@x.com".to_string(),
    };
    assert!(matches!(
        create_user(&actor, &mut store, req),
        Err(ProvisionError::Unauthorized)
    ));
    actor.rank = Rank::Admin;
    let info = create_user(&actor, &mut store, req2).expect("an admin creates accounts");
    assert_eq!(info.username, "eve");
    assert_eq!(info.rank, Rank::User);
}

#[test]
fn privileged_creation_against_unreachable_store() {
    let keys = keys();
    let mut store = UserStore::new();
    let (mut actor, _) = sign_up(&mut store, ann(), &keys, NOW).expect("sign-up succeeds");
    actor.rank = Rank::Admin;
    store.set_available(false);
    let req = UserSignUp {
        name: "Eve".to_string(),
        username: "eve".to_string(),
        pass: "pw".to_string(),
        email: "e@x.com".to_string(),
    };
    assert!(matches!(
        create_privileged(req, Rank::Admin, &actor, &mut store),
        Err(ProvisionError::StoreUnavailable)
    ));
}

#[test]
fn cookie_signed_under_another_key_is_invalid() {
    let keys = keys();
    let other = Keys::new(b"some other process secret");
    let mut store = UserStore::new();
    let (_, cookie) = sign_up(&mut store, ann(), &keys, NOW).expect("sign-up succeeds");
    let header = header_for(&cookie);
    assert!(authenticate(&store, Some(&header), &keys, NOW).is_ok());
    assert!(matches!(
        authenticate(&store, Some(&header), &other, NOW),
        Err(AuthError::InvalidToken)
    ));
}

#[test]
fn issued_cookie_builds_a_header_that_authenticates() {
    // The verified header builder closes the loop: the cookie text from
    // sign-up is cookie-safe, and the header it builds resolves to the
    // principal.
    let keys = keys();
    let mut store = UserStore::new();
    let (_, cookie) = sign_up(&mut store, ann(), &keys, NOW).expect("sign-up succeeds");
    let header = session_cookie_header(&cookie).expect("base64 text is cookie-safe");
    let principal = authenticate(&store, Some(&header), &keys, NOW).expect("authenticates");
    assert_eq!(principal.username, "ann");
}

#[test]
fn session_cookie_header_is_exact_and_refuses_unsafe_values() {
    assert_eq!(session_cookie_header("abc"), Some(b"jwt-token=abc".to_vec()));
    assert_eq!(session_cookie_header(""), Some(b"jwt-token=".to_vec()));
    assert_eq!(session_cookie_header("a;b"), None);
    assert_eq!(session_cookie_header("a b"), None);
    assert_eq!(session_cookie_header("caf\u{e9}"), None);
    assert_eq!(session_cookie_header("tab\there"), None);
}

#[test]
fn create_user_duplicate_and_unreachable_store() {
    let keys = keys();
    let mut store = UserStore::new();
    let (mut actor, _) = sign_up(&mut store, ann(), &keys, NOW).expect("sign-up succeeds");
    actor.rank = Rank::Admin;
    let taken = UserSignUp {
        name: "Another Ann".to_string(),
        username: "ann".to_string(),
        pass: "pw".to_string(),
        email: "other@x.com".to_string(),
    };
    assert!(matches!(
        create_user(&actor, &mut store, taken),
        Err(ProvisionError::DuplicateUsername)
    ));
    store.set_available(false);
    let fresh = UserSignUp {
        name: "Eve".to_string(),
        username: "eve".to_string(),
        pass: "pw".to_string(),
        email: "e@x.com".to_string(),
    };
    assert!(matches!(
        create_user(&actor, &mut store, fresh),
        Err(ProvisionError::StoreUnavailable)
    ));
}

#[test]
fn provision_boundary_messages() {
    assert_eq!(
        ProvisionError::DuplicateUsername.boundary_message(),
        "username or email already taken"
    );
    assert_eq!(ProvisionError::Unauthorized.boundary_message(), "unauthorized");
    assert_eq!(ProvisionError::StoreUnavailable.boundary_message(), "service unavailable");
}

#[test]
fn set_cookie_line_has_the_fixed_attributes() {
    assert_eq!(
        session_set_cookie("abc"),
        "jwt-token=abc; HttpOnly; Secure; SameSite=Lax; Path=/; Max-Age=43200"
    );
}

#[test]
fn boundary_messages_leak_nothing() {
    let auth_failures = [
        AuthError::NoSessionCookie,
        AuthError::MalformedCookies,
        AuthError::InvalidToken,
        AuthError::UnknownUserOrStoreError,
        AuthError::HashMismatch,
    ];
    for e in auth_failures {
        assert_eq!(e.boundary_message(), "unauthenticated");
    }
    assert_eq!(AuthError::InsufficientRank.boundary_message(), "unauthorized");
}
