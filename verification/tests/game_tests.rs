use hangman_plus::domain::{Card, CardStatus, Category};
use hangman_plus::errors::AppError;
use hangman_plus::game::{end_game, next_card, reset_game, start_game, GameManager};
use hangman_plus::store::{CardRow, Store};

fn bone_row(id: i64, english: &str) -> CardRow {
    CardRow {
        id,
        category: Category::Bones,
        english: english.to_owned(),
        latin: "latinum".to_owned(),
        image_path: "/cards/test.png".to_owned(),
        status: CardStatus::Approved,
        created_by: 1,
        created_at: 0,
    }
}

/// A store whose BONES category has exactly two approved cards, ids 10
/// and 11.
fn two_bones_store() -> Store {
    Store {
        users: Vec::new(),
        sessions: Vec::new(),
        cards: vec![bone_row(10, "Femur"), bone_row(11, "Ulna")],
        next_user_id: 1,
        next_session_id: 1,
        next_card_id: 12,
    }
}

fn card_id(card: &Option<Card>) -> i64 {
    card.as_ref().expect("a card is present").id
}

#[test]
fn two_card_scenario() {
    let store = two_bones_store();
    let mut games = GameManager::new();

    let start = start_game(&mut games, &store, Category::Bones).expect("start runs");
    assert_eq!(start.total, 2);
    assert!(!start.finished);
    let first = card_id(&start.card);
    assert!(first == 10 || first == 11);

    let step = next_card(&mut games, start.game_id).expect("run exists");
    assert!(!step.finished);
    assert_eq!(step.remaining, 0);
    let second = card_id(&step.card);
    assert!(second == 10 || second == 11);
    assert_ne!(first, second);

    let step = next_card(&mut games, start.game_id).expect("run exists");
    assert!(step.finished);
    assert!(step.card.is_none());
    assert_eq!(step.remaining, 0);

    let reset = reset_game(&mut games, start.game_id).expect("run exists");
    assert!(!reset.finished);
    assert_eq!(reset.remaining, 1);
    let again = card_id(&reset.card);
    assert!(again == 10 || again == 11);
}

#[test]
fn empty_category_scenario() {
    let store = two_bones_store();
    let mut games = GameManager::new();

    let start = start_game(&mut games, &store, Category::Organs).expect("start answers");
    assert!(start.finished);
    assert_eq!(start.total, 0);
    assert!(start.card.is_none());
    assert_eq!(start.message, "Nema karata za ovu kategoriju.");

    let r = next_card(&mut games, start.game_id);
    assert!(matches!(r, Err(AppError::NotFound(_))));
}

#[test]
fn deck_advances_exactly_n_minus_one_times() {
    let mut cards = Vec::new();
    for i in 0..5 {
        cards.push(bone_row(10 + i, "Bone"));
    }
    let store = Store {
        users: Vec::new(),
        sessions: Vec::new(),
        cards,
        next_user_id: 1,
        next_session_id: 1,
        next_card_id: 20,
    };
    let mut games = GameManager::new();
    let start = start_game(&mut games, &store, Category::Bones).expect("start runs");
    assert_eq!(start.total, 5);
    let mut advances = 0;
    loop {
        let step = next_card(&mut games, start.game_id).expect("run exists");
        if step.finished {
            break;
        }
        advances += 1;
        assert_eq!(step.remaining, 5 - advances - 1);
    }
    assert_eq!(advances, 4);
    // the run stays registered after finishing, so reset restarts it
    let reset = reset_game(&mut games, start.game_id).expect("run exists");
    assert!(!reset.finished);
    assert_eq!(reset.remaining, 4);
}

#[test]
fn start_game_deals_only_the_approved_set() {
    let mut store = two_bones_store();
    let mut pending = bone_row(20, "Pending bone");
    pending.status = CardStatus::Pending;
    let mut rejected = bone_row(21, "Rejected bone");
    rejected.status = CardStatus::Rejected;
    store.cards.push(pending);
    store.cards.push(rejected);
    store.next_card_id = 22;

    let mut games = GameManager::new();
    let start = start_game(&mut games, &store, Category::Bones).expect("start runs");
    assert_eq!(start.total, 2);
    let first = card_id(&start.card);
    assert!(first == 10 || first == 11);
    let step = next_card(&mut games, start.game_id).expect("run exists");
    let second = card_id(&step.card);
    assert!(second == 10 || second == 11);
}

#[test]
fn independent_runs_do_not_interfere() {
    let store = two_bones_store();
    let mut games = GameManager::new();
    let a = start_game(&mut games, &store, Category::Bones).expect("start runs");
    let b = start_game(&mut games, &store, Category::Bones).expect("start runs");
    assert_ne!(a.game_id, b.game_id);
    let step_a = next_card(&mut games, a.game_id).expect("run a exists");
    assert!(!step_a.finished);
    let step_a2 = next_card(&mut games, a.game_id).expect("run a exists");
    assert!(step_a2.finished);
    // run b has not advanced
    let step_b = next_card(&mut games, b.game_id).expect("run b exists");
    assert!(!step_b.finished);
}

#[test]
fn end_game_is_idempotent() {
    let store = two_bones_store();
    let mut games = GameManager::new();
    let start = start_game(&mut games, &store, Category::Bones).expect("start runs");
    assert!(end_game(&mut games, start.game_id).is_ok());
    let r = next_card(&mut games, start.game_id);
    assert!(matches!(r, Err(AppError::NotFound(_))));
    assert!(end_game(&mut games, start.game_id).is_ok());
    assert!(end_game(&mut games, 9999).is_ok());
}

#[test]
fn unknown_run_ids_fail() {
    let mut games = GameManager::new();
    assert!(matches!(next_card(&mut games, 0), Err(AppError::NotFound(_))));
    assert!(matches!(reset_game(&mut games, 0), Err(AppError::NotFound(_))));
}

#[test]
fn reset_reshuffles_same_cards() {
    let store = two_bones_store();
    let mut games = GameManager::new();
    let start = start_game(&mut games, &store, Category::Bones).expect("start runs");
    for _ in 0..10 {
        let reset = reset_game(&mut games, start.game_id).expect("run exists");
        let first = card_id(&reset.card);
        assert!(first == 10 || first == 11);
        assert_eq!(reset.remaining, 1);
        let step = next_card(&mut games, start.game_id).expect("run exists");
        let second = card_id(&step.card);
        assert!(second == 10 || second == 11);
        assert_ne!(first, second);
    }
}
