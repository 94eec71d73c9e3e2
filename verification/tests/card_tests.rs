use hangman_plus::auth::AuthService;
use hangman_plus::cards::{get_random_card, CardService};
use hangman_plus::domain::{CardStatus, Category, Role};
use hangman_plus::dto::{CreateCardInput, UpdateCardInput};
use hangman_plus::errors::AppError;
use hangman_plus::game::start_game;
use hangman_plus::game::GameManager;
use hangman_plus::store::Store;

fn seed_user(store: &mut Store, username: &str, role: Role) {
    let hash = hangman_plus::security::hash_password("password123").expect("hashing succeeds");
    store
        .insert_user(
            "Jane".to_owned(),
            "Doe".to_owned(),
            username.to_owned(),
            format!("{username}@example.com"),
            hash,
            role,
            0,
        )
        .expect("seed user");
}

fn login(store: &mut Store, username: &str) -> String {
    AuthService::login_user(store, username.to_owned(), "password123".to_owned())
        .expect("login succeeds")
        .session_token
}

fn card_input(token: &str, category: &str, english: &str) -> CreateCardInput {
    CreateCardInput {
        sessionToken: token.to_owned(),
        category: category.to_owned(),
        english: english.to_owned(),
        latin: "latinum".to_owned(),
        imagePath: "/cards/test.png".to_owned(),
    }
}

#[test]
fn admin_submission_is_approved() {
    let mut store = Store::new();
    seed_user(&mut store, "admin", Role::Admin);
    let token = login(&mut store, "admin");
    let resp = CardService::add_card_admin(&mut store, card_input(&token, "BONES", "Femur"))
        .expect("admin add succeeds");
    assert_eq!(resp.status, "APPROVED");
    assert_eq!(store.cards[0].status, CardStatus::Approved);
    assert_eq!(store.cards[0].id, resp.id);
}

#[test]
fn user_submission_starts_pending() {
    let mut store = Store::new();
    seed_user(&mut store, "user", Role::User);
    let token = login(&mut store, "user");
    let resp = CardService::request_card_user(&mut store, card_input(&token, "BONES", "Femur"))
        .expect("user request succeeds");
    assert_eq!(resp.status, "PENDING");
    assert_eq!(store.cards[0].status, CardStatus::Pending);
}

#[test]
fn pending_card_excluded_until_approved_then_included() {
    let mut store = Store::new();
    seed_user(&mut store, "admin", Role::Admin);
    seed_user(&mut store, "user", Role::User);
    let user_token = login(&mut store, "user");
    let admin_token = login(&mut store, "admin");
    let resp = CardService::request_card_user(&mut store, card_input(&user_token, "BONES", "Ulna"))
        .expect("user request succeeds");

    let mut games = GameManager::new();
    let start = start_game(&mut games, &store, Category::Bones).expect("start runs");
    assert!(start.finished);
    assert_eq!(start.total, 0);

    CardService::approve_card(&mut store, admin_token.clone(), resp.id).expect("approve succeeds");
    assert_eq!(store.cards[0].status, CardStatus::Approved);
    let start = start_game(&mut games, &store, Category::Bones).expect("start runs");
    assert!(!start.finished);
    assert_eq!(start.total, 1);
    assert_eq!(start.card.as_ref().map(|c| c.id), Some(resp.id));

    CardService::reject_card(&mut store, admin_token.clone(), resp.id).expect("reject succeeds");
    assert_eq!(store.cards[0].status, CardStatus::Rejected);
    let start = start_game(&mut games, &store, Category::Bones).expect("start runs");
    assert!(start.finished);
    assert_eq!(start.total, 0);
}

#[test]
fn admin_operations_forbidden_for_users() {
    let mut store = Store::new();
    seed_user(&mut store, "user", Role::User);
    let token = login(&mut store, "user");
    let r = CardService::add_card_admin(&mut store, card_input(&token, "BONES", "Femur"));
    assert!(matches!(r, Err(AppError::Forbidden(_))));
    let r = CardService::approve_card(&mut store, token.clone(), 1);
    assert!(matches!(r, Err(AppError::Forbidden(_))));
    let r = CardService::reject_card(&mut store, token.clone(), 1);
    assert!(matches!(r, Err(AppError::Forbidden(_))));
    let r = CardService::list_pending_cards(&store, token.clone());
    assert!(matches!(r, Err(AppError::Forbidden(_))));
    let r = CardService::count_pending_cards(&store, token.clone());
    assert!(matches!(r, Err(AppError::Forbidden(_))));
    let r = CardService::list_all_cards_admin(&store, token.clone());
    assert!(matches!(r, Err(AppError::Forbidden(_))));
    let r = CardService::admin_delete_card(&mut store, token.clone(), 1);
    assert!(matches!(r, Err(AppError::Forbidden(_))));
    let r = CardService::admin_update_card(
        &mut store,
        UpdateCardInput {
            sessionToken: token.clone(),
            id: 1,
            english: "x".to_owned(),
            latin: "y".to_owned(),
            imagePath: "z".to_owned(),
        },
    );
    assert!(matches!(r, Err(AppError::Forbidden(_))));
}

#[test]
fn admin_operations_unauthorized_for_bad_tokens() {
    let mut store = Store::new();
    let r = CardService::approve_card(&mut store, "garbage".to_owned(), 1);
    assert!(matches!(r, Err(AppError::Auth(_))));
    let r = CardService::list_pending_cards(&store, "".to_owned());
    assert!(matches!(r, Err(AppError::Auth(_))));
    let r = CardService::add_card_admin(&mut store, card_input("garbage", "BONES", "Femur"));
    assert!(matches!(r, Err(AppError::Auth(_))));
}

#[test]
fn approve_unknown_card_not_found() {
    let mut store = Store::new();
    seed_user(&mut store, "admin", Role::Admin);
    let token = login(&mut store, "admin");
    let r = CardService::approve_card(&mut store, token.clone(), 77);
    assert!(matches!(r, Err(AppError::NotFound(_))));
    let r = CardService::reject_card(&mut store, token.clone(), 77);
    assert!(matches!(r, Err(AppError::NotFound(_))));
    let r = CardService::admin_delete_card(&mut store, token.clone(), 77);
    assert!(matches!(r, Err(AppError::NotFound(_))));
}

#[test]
fn unknown_category_rejected() {
    let mut store = Store::new();
    seed_user(&mut store, "admin", Role::Admin);
    let token = login(&mut store, "admin");
    let r = CardService::add_card_admin(&mut store, card_input(&token, "PLANETS", "Mars"));
    assert!(matches!(r, Err(AppError::Validation(_))));
}

#[test]
fn pending_list_newest_first_and_count() {
    let mut store = Store::new();
    seed_user(&mut store, "admin", Role::Admin);
    seed_user(&mut store, "user", Role::User);
    let admin_token = login(&mut store, "admin");
    let user_token = login(&mut store, "user");
    // Three pending submissions; creation times come from the clock, so
    // seed rows directly to pin distinct timestamps.
    CardService::request_card_user(&mut store, card_input(&user_token, "BONES", "One"))
        .expect("request succeeds");
    CardService::request_card_user(&mut store, card_input(&user_token, "BONES", "Two"))
        .expect("request succeeds");
    store.cards[0].created_at = 100;
    store.cards[1].created_at = 200;
    let count = CardService::count_pending_cards(&store, admin_token.clone())
        .expect("count succeeds");
    assert_eq!(count, 2);
    let list = CardService::list_pending_cards(&store, admin_token.clone())
        .expect("list succeeds");
    assert_eq!(list.len(), 2);
    assert_eq!(list[0].english, "Two");
    assert_eq!(list[1].english, "One");
    assert!(list[0].created_at >= list[1].created_at);
    assert_eq!(list[0].status, "PENDING");
    assert_eq!(list[0].category, "BONES");
}

#[test]
fn admin_list_update_delete() {
    let mut store = Store::new();
    seed_user(&mut store, "admin", Role::Admin);
    let token = login(&mut store, "admin");
    let a = CardService::add_card_admin(&mut store, card_input(&token, "BONES", "Femur"))
        .expect("add succeeds");
    let b = CardService::add_card_admin(&mut store, card_input(&token, "ORGANS", "Heart"))
        .expect("add succeeds");
    let all = CardService::list_all_cards_admin(&store, token.clone()).expect("list succeeds");
    assert_eq!(all.len(), 2);
    assert_eq!(all[0].id, a.id);
    assert_eq!(all[0].category, "BONES");
    assert_eq!(all[1].id, b.id);
    assert_eq!(all[1].status, "APPROVED");

    CardService::admin_update_card(
        &mut store,
        UpdateCardInput {
            sessionToken: token.clone(),
            id: a.id,
            english: " Tibia ".to_owned(),
            latin: "tibia".to_owned(),
            imagePath: "/cards/tibia.png".to_owned(),
        },
    )
    .expect("update succeeds");
    assert_eq!(store.cards[0].english, "Tibia");
    assert_eq!(store.cards[0].category, Category::Bones);

    CardService::admin_delete_card(&mut store, token.clone(), a.id).expect("delete succeeds");
    let all = CardService::list_all_cards_admin(&store, token.clone()).expect("list succeeds");
    assert_eq!(all.len(), 1);
    assert_eq!(all[0].id, b.id);
}

#[test]
fn submission_trims_fields() {
    let mut store = Store::new();
    seed_user(&mut store, "admin", Role::Admin);
    let token = login(&mut store, "admin");
    let input = CreateCardInput {
        sessionToken: token,
        category: " BONES ".to_owned(),
        english: " Femur ".to_owned(),
        latin: " femur ".to_owned(),
        imagePath: " /cards/femur.png ".to_owned(),
    };
    CardService::add_card_admin(&mut store, input).expect("add succeeds");
    assert_eq!(store.cards[0].category, Category::Bones);
    assert_eq!(store.cards[0].english, "Femur");
    assert_eq!(store.cards[0].latin, "femur");
    assert_eq!(store.cards[0].image_path, "/cards/femur.png");
}

#[test]
fn storage_error_when_card_ids_exhausted() {
    let mut store = Store::new();
    seed_user(&mut store, "admin", Role::Admin);
    let token = login(&mut store, "admin");
    store.next_card_id = i64::MAX;
    let r = CardService::add_card_admin(&mut store, card_input(&token, "BONES", "Femur"));
    assert!(matches!(r, Err(AppError::Storage(_))));
}

#[test]
fn test_get_random_card_bones() {
    let mut store = Store::new();
    store
        .insert_card(
            Category::Bones,
            "Test bone".to_owned(),
            "Testus os".to_owned(),
            "/cards/bones/test.png".to_owned(),
            CardStatus::Approved,
            1,
            0,
        )
        .expect("insert succeeds");
    let card = get_random_card(&store, Category::Bones).expect("a bone card exists");
    assert_eq!(card.english, "Test bone");
}

#[test]
fn get_random_card_empty_category_fails() {
    let store = Store::new();
    let r = get_random_card(&store, Category::Organs);
    assert!(matches!(r, Err(AppError::NotFound(_))));
}
