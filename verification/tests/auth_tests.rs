use hangman_plus::auth::AuthService;
use hangman_plus::errors::AppError;
use hangman_plus::store::Store;

fn register_ok(store: &mut Store, username: &str, email: &str) {
    AuthService::register_user(
        store,
        "Jane".to_owned(),
        "Doe".to_owned(),
        username.to_owned(),
        email.to_owned(),
        "password123".to_owned(),
    )
    .expect("registration succeeds");
}

#[test]
fn register_validation_errors() {
    let mut store = Store::new();
    let r = AuthService::register_user(
        &mut store,
        " J ".to_owned(),
        "Doe".to_owned(),
        "jdoe".to_owned(),
        "j@example.com".to_owned(),
        "password123".to_owned(),
    );
    match r {
        Err(AppError::Validation(m)) => {
            assert_eq!(m, "First name must be at least 2 characters.")
        },
        other => panic!("expected validation error, got {:?}", other),
    }
    let r = AuthService::register_user(
        &mut store,
        "Jane".to_owned(),
        "Doe".to_owned(),
        "jd".to_owned(),
        "j@example.com".to_owned(),
        "password123".to_owned(),
    );
    match r {
        Err(AppError::Validation(m)) => {
            assert_eq!(m, "Username must be at least 3 characters.")
        },
        other => panic!("expected validation error, got {:?}", other),
    }
    let r = AuthService::register_user(
        &mut store,
        "Jane".to_owned(),
        "Doe".to_owned(),
        "jdoe".to_owned(),
        "not-an-email".to_owned(),
        "password123".to_owned(),
    );
    match r {
        Err(AppError::Validation(m)) => assert_eq!(m, "Email is not valid."),
        other => panic!("expected validation error, got {:?}", other),
    }
    let r = AuthService::register_user(
        &mut store,
        "Jane".to_owned(),
        "Doe".to_owned(),
        "jdoe".to_owned(),
        "j@example.com".to_owned(),
        "short".to_owned(),
    );
    match r {
        Err(AppError::Validation(m)) => {
            assert_eq!(m, "Password must be at least 8 characters.")
        },
        other => panic!("expected validation error, got {:?}", other),
    }
}

#[test]
fn register_twice_same_username_conflicts() {
    let mut store = Store::new();
    register_ok(&mut store, "jdoe", "first@example.com");
    let r = AuthService::register_user(
        &mut store,
        "Jane".to_owned(),
        "Doe".to_owned(),
        "jdoe".to_owned(),
        "second@example.com".to_owned(),
        "password123".to_owned(),
    );
    assert!(matches!(r, Err(AppError::Conflict(_))));
}

#[test]
fn register_twice_same_email_conflicts() {
    let mut store = Store::new();
    register_ok(&mut store, "jdoe", "shared@example.com");
    let r = AuthService::register_user(
        &mut store,
        "Jane".to_owned(),
        "Doe".to_owned(),
        "other".to_owned(),
        "shared@example.com".to_owned(),
        "password123".to_owned(),
    );
    assert!(matches!(r, Err(AppError::Conflict(_))));
}

#[test]
fn register_trims_stored_fields() {
    let mut store = Store::new();
    AuthService::register_user(
        &mut store,
        "  Jane ".to_owned(),
        " Doe ".to_owned(),
        "  jdoe ".to_owned(),
        " j@example.com ".to_owned(),
        "password123".to_owned(),
    )
    .expect("registration succeeds");
    assert_eq!(store.users[0].first_name, "Jane");
    assert_eq!(store.users[0].last_name, "Doe");
    assert_eq!(store.users[0].username, "jdoe");
    assert_eq!(store.users[0].email, "j@example.com");
}

#[test]
fn login_with_username_and_email() {
    let mut store = Store::new();
    register_ok(&mut store, "jdoe", "j@example.com");
    let by_name = AuthService::login_user(&mut store, "jdoe".to_owned(), "password123".to_owned())
        .expect("login by username succeeds");
    assert_eq!(by_name.session_token.len(), 36);
    let by_mail =
        AuthService::login_user(&mut store, "j@example.com".to_owned(), "password123".to_owned())
            .expect("login by email succeeds");
    assert_ne!(by_name.session_token, by_mail.session_token);
}

#[test]
fn login_failures_are_indistinguishable() {
    let mut store = Store::new();
    register_ok(&mut store, "jdoe", "j@example.com");
    let unknown =
        AuthService::login_user(&mut store, "nobody".to_owned(), "password123".to_owned());
    let wrong_pw = AuthService::login_user(&mut store, "jdoe".to_owned(), "wrongpass".to_owned());
    match (unknown, wrong_pw) {
        (Err(AppError::Auth(m1)), Err(AppError::Auth(m2))) => assert_eq!(m1, m2),
        other => panic!("expected two auth errors, got {:?}", other),
    }
}

#[test]
fn login_validation_errors() {
    let mut store = Store::new();
    let r = AuthService::login_user(&mut store, "   ".to_owned(), "password123".to_owned());
    match r {
        Err(AppError::Validation(m)) => assert_eq!(m, "Enter username or email."),
        other => panic!("expected validation error, got {:?}", other),
    }
    let r = AuthService::login_user(&mut store, "jdoe".to_owned(), "".to_owned());
    match r {
        Err(AppError::Validation(m)) => assert_eq!(m, "Enter password."),
        other => panic!("expected validation error, got {:?}", other),
    }
}

#[test]
fn session_lifecycle() {
    let mut store = Store::new();
    register_ok(&mut store, "jdoe", "j@example.com");
    let resp = AuthService::login_user(&mut store, "jdoe".to_owned(), "password123".to_owned())
        .expect("login succeeds");
    let token = resp.session_token;
    assert!(AuthService::validate_session(&store, token.clone()));
    AuthService::logout(&mut store, token.clone()).expect("logout succeeds");
    assert!(!AuthService::validate_session(&store, token.clone()));
}

#[test]
fn logout_unknown_token_is_ok() {
    let mut store = Store::new();
    assert!(AuthService::logout(&mut store, "no-such-token".to_owned()).is_ok());
    assert!(AuthService::logout(&mut store, "".to_owned()).is_ok());
}

#[test]
fn validate_blank_token_is_false() {
    let store = Store::new();
    assert!(!AuthService::validate_session(&store, "".to_owned()));
    assert!(!AuthService::validate_session(&store, "   ".to_owned()));
}

#[test]
fn validate_unknown_token_is_false() {
    let store = Store::new();
    assert!(!AuthService::validate_session(&store, "made-up-token".to_owned()));
}

#[test]
fn resolve_requires_active_session() {
    let mut store = Store::new();
    register_ok(&mut store, "jdoe", "j@example.com");
    let resp = AuthService::login_user(&mut store, "jdoe".to_owned(), "password123".to_owned())
        .expect("login succeeds");
    let token = resp.session_token;
    let (uid, _role) =
        AuthService::require_session_user(&store, &token).expect("token resolves");
    assert_eq!(uid, store.users[0].id);
    AuthService::logout(&mut store, token.clone()).expect("logout succeeds");
    let r = AuthService::require_session_user(&store, &token);
    assert!(matches!(r, Err(AppError::Auth(_))));
}
