use hangman_plus::auth::AuthService;
use hangman_plus::domain::Role;
use hangman_plus::errors::AppError;
use hangman_plus::profile::ProfileService;
use hangman_plus::store::Store;

fn seed_and_login(store: &mut Store, username: &str) -> String {
    AuthService::register_user(
        store,
        "Jane".to_owned(),
        "Doe".to_owned(),
        username.to_owned(),
        format!("{username}@example.com"),
        "password123".to_owned(),
    )
    .expect("registration succeeds");
    AuthService::login_user(store, username.to_owned(), "password123".to_owned())
        .expect("login succeeds")
        .session_token
}

#[test]
fn get_profile_returns_own_row() {
    let mut store = Store::new();
    let token = seed_and_login(&mut store, "jdoe");
    let p = ProfileService::get_profile(&store, token).expect("profile resolves");
    assert_eq!(p.username, "jdoe");
    assert_eq!(p.email, "jdoe@example.com");
    assert_eq!(p.first_name, "Jane");
    assert_eq!(p.last_name, "Doe");
    assert_eq!(p.role, "USER");
    assert_eq!(p.id, store.users[0].id);
}

#[test]
fn get_profile_unauthorized() {
    let store = Store::new();
    let r = ProfileService::get_profile(&store, "garbage".to_owned());
    assert!(matches!(r, Err(AppError::Auth(_))));
}

#[test]
fn update_profile_rewrites_trimmed_fields() {
    let mut store = Store::new();
    let token = seed_and_login(&mut store, "jdoe");
    ProfileService::update_profile(
        &mut store,
        token,
        " Janet ".to_owned(),
        " Doeh ".to_owned(),
        " janet ".to_owned(),
        " janet@example.com ".to_owned(),
    )
    .expect("update succeeds");
    assert_eq!(store.users[0].first_name, "Janet");
    assert_eq!(store.users[0].last_name, "Doeh");
    assert_eq!(store.users[0].username, "janet");
    assert_eq!(store.users[0].email, "janet@example.com");
    assert_eq!(store.users[0].role, Role::User);
}

#[test]
fn update_profile_keeps_own_identity_without_conflict() {
    let mut store = Store::new();
    let token = seed_and_login(&mut store, "jdoe");
    // keeping one's own username and email is not a conflict
    ProfileService::update_profile(
        &mut store,
        token,
        "Jane".to_owned(),
        "Doe".to_owned(),
        "jdoe".to_owned(),
        "jdoe@example.com".to_owned(),
    )
    .expect("update succeeds");
}

#[test]
fn update_profile_conflicts_with_other_user() {
    let mut store = Store::new();
    let _other = seed_and_login(&mut store, "taken");
    let token = seed_and_login(&mut store, "jdoe");
    let r = ProfileService::update_profile(
        &mut store,
        token.clone(),
        "Jane".to_owned(),
        "Doe".to_owned(),
        "taken".to_owned(),
        "jdoe@example.com".to_owned(),
    );
    assert!(matches!(r, Err(AppError::Conflict(_))));
    let r = ProfileService::update_profile(
        &mut store,
        token,
        "Jane".to_owned(),
        "Doe".to_owned(),
        "jdoe".to_owned(),
        "taken@example.com".to_owned(),
    );
    assert!(matches!(r, Err(AppError::Conflict(_))));
}

#[test]
fn update_profile_validation() {
    let mut store = Store::new();
    let token = seed_and_login(&mut store, "jdoe");
    let r = ProfileService::update_profile(
        &mut store,
        token,
        "Jane".to_owned(),
        "Doe".to_owned(),
        "jdoe".to_owned(),
        "no-at-sign".to_owned(),
    );
    match r {
        Err(AppError::Validation(m)) => assert_eq!(m, "Email is not valid."),
        other => panic!("expected validation error, got {:?}", other),
    }
}

#[test]
fn change_password_round_trip() {
    let mut store = Store::new();
    let token = seed_and_login(&mut store, "jdoe");
    ProfileService::change_password(
        &mut store,
        token,
        "password123".to_owned(),
        "newpassword9".to_owned(),
    )
    .expect("password change succeeds");
    let r = AuthService::login_user(&mut store, "jdoe".to_owned(), "password123".to_owned());
    assert!(matches!(r, Err(AppError::Auth(_))));
    AuthService::login_user(&mut store, "jdoe".to_owned(), "newpassword9".to_owned())
        .expect("login with the new password succeeds");
}

#[test]
fn change_password_wrong_old_password() {
    let mut store = Store::new();
    let token = seed_and_login(&mut store, "jdoe");
    let r = ProfileService::change_password(
        &mut store,
        token,
        "wrongpass".to_owned(),
        "newpassword9".to_owned(),
    );
    match r {
        Err(AppError::Auth(m)) => assert_eq!(m, "Old password is not correct."),
        other => panic!("expected auth error, got {:?}", other),
    }
}

#[test]
fn change_password_validation() {
    let mut store = Store::new();
    let token = seed_and_login(&mut store, "jdoe");
    let r = ProfileService::change_password(
        &mut store,
        token.clone(),
        "".to_owned(),
        "newpassword9".to_owned(),
    );
    match r {
        Err(AppError::Validation(m)) => assert_eq!(m, "Enter old password."),
        other => panic!("expected validation error, got {:?}", other),
    }
    let r = ProfileService::change_password(
        &mut store,
        token,
        "password123".to_owned(),
        "short".to_owned(),
    );
    match r {
        Err(AppError::Validation(m)) => {
            assert_eq!(m, "New password must be at least 8 characters.")
        },
        other => panic!("expected validation error, got {:?}", other),
    }
}
