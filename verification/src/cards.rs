use vstd::prelude::*;
use rand::Rng;
use crate::auth::{resolves_to, spec_session_valid, AuthService};
use crate::clock::now_unix;
use crate::domain::{category_of, spec_category_of, Card, CardStatus, Category, Role};
use crate::dto::{CardAdminItem, CardResponse, CreateCardInput, PendingCard, UpdateCardInput};
use crate::errors::AppError;
use crate::store::{has_card_id, CardRow, Store};
use crate::text::{trim_str, trimmed};

verus! {

/// Whether the token resolves to a user holding the `Admin` role.
pub open spec fn resolves_to_admin(store: Store, token: Seq<char>) -> bool {
    exists|uid: i64| resolves_to(store, token, uid, Role::Admin)
}

/// A token resolves to one user and one role: the token hash is unique
/// across sessions and the user id across users.
pub proof fn lemma_resolution_unique(
    store: Store,
    token: Seq<char>,
    u1: i64,
    r1: Role,
    u2: i64,
    r2: Role,
)
    requires
        store.wf(),
        resolves_to(store, token, u1, r1),
        resolves_to(store, token, u2, r2),
    ensures
        u1 == u2,
        r1 == r2,
{
    let d = crate::security::token_digest(trimmed(token));
    let i1 = choose|i: int|
        0 <= i < store.sessions@.len() && (#[trigger] store.sessions@[i]).token_hash@ == d
            && store.sessions@[i].revoked_at is None && store.sessions@[i].user_id == u1;
    let i2 = choose|i: int|
        0 <= i < store.sessions@.len() && (#[trigger] store.sessions@[i]).token_hash@ == d
            && store.sessions@[i].revoked_at is None && store.sessions@[i].user_id == u2;
    assert(i1 == i2);
    let j1 = choose|j: int|
        0 <= j < store.users@.len() && (#[trigger] store.users@[j]).id == u1 && store.users@[j].role
            == r1;
    let j2 = choose|j: int|
        0 <= j < store.users@.len() && (#[trigger] store.users@[j]).id == u2 && store.users@[j].role
            == r2;
    assert(j1 == j2);
}

/// Law: the authorization boundary. A token held by a non-admin user has
/// a valid session yet cannot resolve to an admin, so every admin-gated
/// operation answers it with `Forbidden`; an invalid token fails the
/// session check itself, answered with `Auth` before any role is looked
/// at.
pub proof fn lemma_authorization_boundary(store: Store, token: Seq<char>, uid: i64)
    requires
        store.wf(),
        resolves_to(store, token, uid, Role::User),
    ensures
        spec_session_valid(store, token),
        !resolves_to_admin(store, token),
{
    if resolves_to_admin(store, token) {
        let u2 = choose|u: i64| resolves_to(store, token, u, Role::Admin);
        lemma_resolution_unique(store, token, uid, Role::User, u2, Role::Admin);
    }
}

/// The admin gate: resolves the token and requires the `Admin` role.
/// `Auth` exactly when the session is invalid, `Forbidden` exactly when
/// it is valid but not an admin's.
pub fn require_admin(store: &Store, session_token: &str) -> (r: Result<i64, AppError>)
    requires
        store.wf(),
    ensures
        (r matches Err(e) && e is Auth) <==> !spec_session_valid(*store, session_token@),
        (r matches Err(e) && e is Forbidden) <==> (spec_session_valid(*store, session_token@)
            && !resolves_to_admin(*store, session_token@)),
        r matches Err(e) ==> (e is Auth || e is Forbidden),
        r matches Ok(uid) ==> resolves_to(*store, session_token@, uid, Role::Admin),
        r is Ok <==> resolves_to_admin(*store, session_token@),
{
    match AuthService::require_session_user(store, session_token) {
        Err(e) => Err(e),
        Ok((uid, role)) => {
            if role == Role::Admin {
                Ok(uid)
            } else {
                proof {
                    if resolves_to_admin(*store, session_token@) {
                        let u2 = choose|u: i64| resolves_to(*store, session_token@, u, Role::Admin);
                        lemma_resolution_unique(
                            *store,
                            session_token@,
                            uid,
                            role,
                            u2,
                            Role::Admin,
                        );
                    }
                }
                Err(AppError::Forbidden("Forbidden: admin only.".to_owned()))
            }
        },
    }
}

/// The game-deck snapshot of a stored card: the moderation fields are
/// left behind.
pub open spec fn card_of_row(c: CardRow) -> Card {
    Card {
        id: c.id,
        category: c.category,
        english: c.english,
        latin: c.latin,
        image_path: c.image_path,
    }
}

/// Only approved cards of the requested category are eligible for decks.
pub open spec fn is_deck_card(c: CardRow, category: Category) -> bool {
    c.status == CardStatus::Approved && c.category == category
}

/// The deck a game draws from: the approved cards of the category, in
/// store order, as snapshots.
pub open spec fn deck_of(cards: Seq<CardRow>, category: Category) -> Seq<Card>
    decreases cards.len(),
{
    if cards.len() == 0 {
        Seq::empty()
    } else {
        let rest = deck_of(cards.drop_last(), category);
        if is_deck_card(cards.last(), category) {
            rest.push(card_of_row(cards.last()))
        } else {
            rest
        }
    }
}

/// Every deck snapshot comes from an eligible row, and every eligible row
/// is dealt in.
pub proof fn lemma_deck_of(cards: Seq<CardRow>, category: Category)
    ensures
        deck_of(cards, category).len() <= cards.len(),
        forall|k: int|
            #![trigger deck_of(cards, category)[k]]
            0 <= k < deck_of(cards, category).len() ==> exists|i: int|
                0 <= i < cards.len() && is_deck_card(#[trigger] cards[i], category) && deck_of(
                    cards,
                    category,
                )[k] == card_of_row(cards[i]),
        forall|i: int|
            0 <= i < cards.len() && is_deck_card(#[trigger] cards[i], category) ==> deck_of(
                cards,
                category,
            ).contains(card_of_row(cards[i])),
    decreases cards.len(),
{
    if cards.len() > 0 {
        lemma_deck_of(cards.drop_last(), category);
        let rest = deck_of(cards.drop_last(), category);
        let whole = deck_of(cards, category);
        assert forall|k: int|
            #![trigger whole[k]]
            0 <= k < whole.len() implies exists|i: int|
            0 <= i < cards.len() && is_deck_card(#[trigger] cards[i], category) && whole[k]
                == card_of_row(cards[i]) by {
            if k < rest.len() {
                let i = choose|i: int|
                    0 <= i < cards.drop_last().len() && is_deck_card(
                        #[trigger] cards.drop_last()[i],
                        category,
                    ) && rest[k] == card_of_row(cards.drop_last()[i]);
                assert(cards.drop_last()[i] == cards[i]);
                assert(0 <= i < cards.len() && is_deck_card(cards[i], category) && whole[k]
                    == card_of_row(cards[i]));
            } else {
                let i = cards.len() - 1;
                assert(0 <= i < cards.len() && is_deck_card(cards[i], category) && whole[k]
                    == card_of_row(cards[i]));
            }
        }
        assert forall|i: int|
            0 <= i < cards.len() && is_deck_card(#[trigger] cards[i], category) implies whole.contains(
            card_of_row(cards[i]),
        ) by {
            if i < cards.len() - 1 {
                assert(cards.drop_last()[i] == cards[i]);
                assert(rest.contains(card_of_row(cards[i])));
                let k = choose|k: int| 0 <= k < rest.len() && rest[k] == card_of_row(cards[i]);
                assert(whole[k] == card_of_row(cards[i]));
            } else {
                assert(whole.last() == card_of_row(cards[i]));
            }
        }
    }
}

/// Law: moderation gates the decks. A card that is not approved is dealt
/// into no deck; an approved card is dealt into the deck of its category.
/// A user-submitted card starts `Pending`, so it stays out of every deck
/// until `approve_card` marks it approved, and after `reject_card` it is
/// out again.
pub proof fn lemma_moderation_gates_decks(cards: Seq<CardRow>, category: Category, j: int)
    requires
        0 <= j < cards.len(),
        forall|a: int, b: int|
            #![trigger cards[a], cards[b]]
            0 <= a < cards.len() && 0 <= b < cards.len() && a != b ==> cards[a].id != cards[b].id,
    ensures
        cards[j].status != CardStatus::Approved ==> forall|k: int|
            0 <= k < deck_of(cards, category).len() ==> (#[trigger] deck_of(cards, category)[k]).id
                != cards[j].id,
        cards[j].status == CardStatus::Approved && cards[j].category == category ==> deck_of(
            cards,
            category,
        ).contains(card_of_row(cards[j])),
{
    lemma_deck_of(cards, category);
    if cards[j].status != CardStatus::Approved {
        assert forall|k: int|
            0 <= k < deck_of(cards, category).len() implies (#[trigger] deck_of(cards, category)[k]).id
            != cards[j].id by {
            let i = choose|i: int|
                0 <= i < cards.len() && is_deck_card(#[trigger] cards[i], category) && deck_of(
                    cards,
                    category,
                )[k] == card_of_row(cards[i]);
            assert(i != j);
        }
    }
}

/// Number of cards awaiting moderation.
pub open spec fn pending_count(cards: Seq<CardRow>) -> nat
    decreases cards.len(),
{
    if cards.len() == 0 {
        0
    } else {
        pending_count(cards.drop_last()) + if cards.last().status == CardStatus::Pending {
            1nat
        } else {
            0nat
        }
    }
}

/// The listing row shows exactly the stored card, with category and
/// status in their stored string forms.
pub open spec fn pending_matches(p: PendingCard, c: CardRow) -> bool {
    &&& p.id == c.id
    &&& p.category@ == c.category.spec_str()
    &&& p.english@ == c.english@
    &&& p.latin@ == c.latin@
    &&& p.image_path@ == c.image_path@
    &&& p.status@ == c.status.spec_str()
    &&& p.created_by == c.created_by
    &&& p.created_at == c.created_at
}

/// The administrative listing row shows exactly the stored card.
pub open spec fn admin_item_matches(p: CardAdminItem, c: CardRow) -> bool {
    &&& p.id == c.id
    &&& p.category@ == c.category.spec_str()
    &&& p.english@ == c.english@
    &&& p.latin@ == c.latin@
    &&& p.image_path@ == c.image_path@
    &&& p.status@ == c.status.spec_str()
}

/// Newest-first order on the pending listing.
pub open spec fn sorted_desc(s: Seq<PendingCard>) -> bool {
    forall|a: int, b: int|
        #![trigger s[a], s[b]]
        0 <= a < b < s.len() ==> s[a].created_at >= s[b].created_at
}

/// Inserts into a newest-first list, keeping it sorted.
fn insert_sorted(out: &mut Vec<PendingCard>, x: PendingCard)
    requires
        sorted_desc(old(out)@),
    ensures
        sorted_desc(final(out)@),
        exists|pos: int|
            0 <= pos <= old(out)@.len() && final(out)@ == (#[trigger] old(out)@.insert(pos, x)),
{
    let n = out.len();
    let mut pos: usize = 0;
    while pos < n && out[pos].created_at >= x.created_at
        invariant
            pos <= n,
            n == out@.len(),
            *out == *old(out),
            forall|k: int| 0 <= k < pos ==> (#[trigger] out@[k]).created_at >= x.created_at,
        decreases n - pos,
    {
        pos = pos + 1;
    }
    let ghost prev = out@;
    let ghost p = pos as int;
    out.insert(pos, x);
    proof {
        assert(out@ == prev.insert(p, x));
        assert forall|a: int, b: int|
            #![trigger out@[a], out@[b]]
            0 <= a < b < out@.len() implies out@[a].created_at >= out@[b].created_at by {
            assert(forall|k: int| 0 <= k < p ==> out@[k] == prev[k]);
            assert(out@[p] == x);
            assert(forall|k: int| p < k < out@.len() ==> out@[k] == prev[k - 1]);
            if p < out@.len() - 1 {
                assert(prev[p].created_at < x.created_at);
            }
        }
    }
}

/// Card moderation: submission as approved or pending, the one-way
/// transitions out of pending, and the administrative views over all
/// cards.
pub struct CardService;

impl CardService {
    /// An administrator's submission: stored directly as `Approved`,
    /// attributed to the caller, fields trimmed.
    pub fn add_card_admin(store: &mut Store, input: CreateCardInput) -> (r: Result<
        CardResponse,
        AppError,
    >)
        requires
            old(store).wf(),
        ensures
            final(store).wf(),
            final(store).users@ == old(store).users@,
            final(store).sessions@ == old(store).sessions@,
            r is Err ==> *final(store) == *old(store),
            (r matches Err(e) && e is Auth) <==> !spec_session_valid(
                *old(store),
                input.sessionToken@,
            ),
            (r matches Err(e) && e is Forbidden) <==> (spec_session_valid(
                *old(store),
                input.sessionToken@,
            ) && !resolves_to_admin(*old(store), input.sessionToken@)),
            (r matches Err(e) && e is Validation) <==> (resolves_to_admin(
                *old(store),
                input.sessionToken@,
            ) && spec_category_of(trimmed(input.category@)) is None),
            r matches Err(e) ==> (e is Auth || e is Forbidden || e is Validation || e is Storage),
            (r matches Err(e) && e is Storage) <==> (resolves_to_admin(
                *old(store),
                input.sessionToken@,
            ) && spec_category_of(trimmed(input.category@)) is Some && old(store).next_card_id
                == i64::MAX),
            r is Ok <==> (resolves_to_admin(*old(store), input.sessionToken@) && spec_category_of(
                trimmed(input.category@),
            ) is Some && old(store).next_card_id < i64::MAX),
            r matches Ok(resp) ==> {
                &&& resolves_to_admin(*old(store), input.sessionToken@)
                &&& final(store).cards@.len() == old(store).cards@.len() + 1
                &&& final(store).cards@.drop_last() == old(store).cards@
                &&& {
                    let c = final(store).cards@.last();
                    &&& c.id == old(store).next_card_id
                    &&& resp.id == c.id
                    &&& resp.status@ == "APPROVED"@
                    &&& Some(c.category) == spec_category_of(trimmed(input.category@))
                    &&& c.english@ == trimmed(input.english@)
                    &&& c.latin@ == trimmed(input.latin@)
                    &&& c.image_path@ == trimmed(input.imagePath@)
                    &&& c.status == CardStatus::Approved
                    &&& resolves_to(*old(store), input.sessionToken@, c.created_by, Role::Admin)
                }
            },
    {
        let uid = match require_admin(store, input.sessionToken.as_str()) {
            Ok(uid) => uid,
            Err(e) => { return Err(e) },
        };
        let category = match category_of(trim_str(input.category.as_str())) {
            Some(c) => c,
            None => { return Err(AppError::Validation("Unknown category.".to_owned())) },
        };
        let english: String = trim_str(input.english.as_str()).to_owned();
        let latin: String = trim_str(input.latin.as_str()).to_owned();
        let image_path: String = trim_str(input.imagePath.as_str()).to_owned();
        let created_at = now_unix();
        match store.insert_card(
            category,
            english,
            latin,
            image_path,
            CardStatus::Approved,
            uid,
            created_at,
        ) {
            Ok(id) => Ok(CardResponse { id, status: "APPROVED".to_owned() }),
            Err(e) => Err(e),
        }
    }

    /// A user's submission: stored as `Pending`, awaiting moderation,
    /// attributed to the caller, fields trimmed. Any valid session may
    /// submit.
    pub fn request_card_user(store: &mut Store, input: CreateCardInput) -> (r: Result<
        CardResponse,
        AppError,
    >)
        requires
            old(store).wf(),
        ensures
            final(store).wf(),
            final(store).users@ == old(store).users@,
            final(store).sessions@ == old(store).sessions@,
            r is Err ==> *final(store) == *old(store),
            (r matches Err(e) && e is Auth) <==> !spec_session_valid(
                *old(store),
                input.sessionToken@,
            ),
            (r matches Err(e) && e is Validation) <==> (spec_session_valid(
                *old(store),
                input.sessionToken@,
            ) && spec_category_of(trimmed(input.category@)) is None),
            r matches Err(e) ==> (e is Auth || e is Validation || e is Storage),
            (r matches Err(e) && e is Storage) <==> (spec_session_valid(
                *old(store),
                input.sessionToken@,
            ) && spec_category_of(trimmed(input.category@)) is Some && old(store).next_card_id
                == i64::MAX),
            r is Ok <==> (spec_session_valid(*old(store), input.sessionToken@)
                && spec_category_of(trimmed(input.category@)) is Some && old(store).next_card_id
                < i64::MAX),
            r matches Ok(resp) ==> {
                &&& spec_session_valid(*old(store), input.sessionToken@)
                &&& final(store).cards@.len() == old(store).cards@.len() + 1
                &&& final(store).cards@.drop_last() == old(store).cards@
                &&& {
                    let c = final(store).cards@.last();
                    &&& c.id == old(store).next_card_id
                    &&& resp.id == c.id
                    &&& resp.status@ == "PENDING"@
                    &&& Some(c.category) == spec_category_of(trimmed(input.category@))
                    &&& c.english@ == trimmed(input.english@)
                    &&& c.latin@ == trimmed(input.latin@)
                    &&& c.image_path@ == trimmed(input.imagePath@)
                    &&& c.status == CardStatus::Pending
                    &&& exists|role: Role|
                        resolves_to(*old(store), input.sessionToken@, c.created_by, role)
                }
            },
    {
        let (uid, role) = match AuthService::require_session_user(store, input.sessionToken.as_str()) {
            Ok(p) => p,
            Err(e) => { return Err(e) },
        };
        let category = match category_of(trim_str(input.category.as_str())) {
            Some(c) => c,
            None => { return Err(AppError::Validation("Unknown category.".to_owned())) },
        };
        let english: String = trim_str(input.english.as_str()).to_owned();
        let latin: String = trim_str(input.latin.as_str()).to_owned();
        let image_path: String = trim_str(input.imagePath.as_str()).to_owned();
        let created_at = now_unix();
        match store.insert_card(
            category,
            english,
            latin,
            image_path,
            CardStatus::Pending,
            uid,
            created_at,
        ) {
            Ok(id) => {
                proof {
                    let c = store.cards@.last();
                    assert(c.created_by == uid);
                    assert(resolves_to(*old(store), input.sessionToken@, c.created_by, role));
                }
                Ok(CardResponse { id, status: "PENDING".to_owned() })
            },
            Err(e) => Err(e),
        }
    }

    /// Marks the card `Approved`, unconditionally of its prior status.
    pub fn approve_card(store: &mut Store, session_token: String, card_id: i64) -> (r: Result<
        (),
        AppError,
    >)
        requires
            old(store).wf(),
        ensures
            final(store).wf(),
            final(store).users@ == old(store).users@,
            final(store).sessions@ == old(store).sessions@,
            final(store).cards@.len() == old(store).cards@.len(),
            final(store).next_card_id == old(store).next_card_id,
            r is Err ==> *final(store) == *old(store),
            (r matches Err(e) && e is Auth) <==> !spec_session_valid(*old(store), session_token@),
            (r matches Err(e) && e is Forbidden) <==> (spec_session_valid(
                *old(store),
                session_token@,
            ) && !resolves_to_admin(*old(store), session_token@)),
            (r matches Err(e) && e is NotFound) <==> (resolves_to_admin(*old(store), session_token@)
                && !has_card_id(old(store).cards@, card_id)),
            r matches Err(e) ==> (e is Auth || e is Forbidden || e is NotFound),
            r is Ok <==> (resolves_to_admin(*old(store), session_token@) && has_card_id(
                old(store).cards@,
                card_id,
            )),
            r is Ok ==> forall|i: int|
                0 <= i < old(store).cards@.len() ==> {
                    let pre = #[trigger] old(store).cards@[i];
                    let post = final(store).cards@[i];
                    if pre.id == card_id {
                        post == CardRow { status: CardStatus::Approved, ..pre }
                    } else {
                        post == pre
                    }
                },
    {
        Self::set_card_status(store, session_token, card_id, CardStatus::Approved)
    }

    /// Marks the card `Rejected`, unconditionally of its prior status.
    pub fn reject_card(store: &mut Store, session_token: String, card_id: i64) -> (r: Result<
        (),
        AppError,
    >)
        requires
            old(store).wf(),
        ensures
            final(store).wf(),
            final(store).users@ == old(store).users@,
            final(store).sessions@ == old(store).sessions@,
            final(store).cards@.len() == old(store).cards@.len(),
            final(store).next_card_id == old(store).next_card_id,
            r is Err ==> *final(store) == *old(store),
            (r matches Err(e) && e is Auth) <==> !spec_session_valid(*old(store), session_token@),
            (r matches Err(e) && e is Forbidden) <==> (spec_session_valid(
                *old(store),
                session_token@,
            ) && !resolves_to_admin(*old(store), session_token@)),
            (r matches Err(e) && e is NotFound) <==> (resolves_to_admin(*old(store), session_token@)
                && !has_card_id(old(store).cards@, card_id)),
            r matches Err(e) ==> (e is Auth || e is Forbidden || e is NotFound),
            r is Ok <==> (resolves_to_admin(*old(store), session_token@) && has_card_id(
                old(store).cards@,
                card_id,
            )),
            r is Ok ==> forall|i: int|
                0 <= i < old(store).cards@.len() ==> {
                    let pre = #[trigger] old(store).cards@[i];
                    let post = final(store).cards@[i];
                    if pre.id == card_id {
                        post == CardRow { status: CardStatus::Rejected, ..pre }
                    } else {
                        post == pre
                    }
                },
    {
        Self::set_card_status(store, session_token, card_id, CardStatus::Rejected)
    }

    /// The shared admin-gated status overwrite behind approval and
    /// rejection.
    fn set_card_status(store: &mut Store, session_token: String, card_id: i64, status: CardStatus)
        -> (r: Result<(), AppError>)
        requires
            old(store).wf(),
        ensures
            final(store).wf(),
            final(store).users@ == old(store).users@,
            final(store).sessions@ == old(store).sessions@,
            final(store).cards@.len() == old(store).cards@.len(),
            final(store).next_card_id == old(store).next_card_id,
            r is Err ==> *final(store) == *old(store),
            (r matches Err(e) && e is Auth) <==> !spec_session_valid(*old(store), session_token@),
            (r matches Err(e) && e is Forbidden) <==> (spec_session_valid(
                *old(store),
                session_token@,
            ) && !resolves_to_admin(*old(store), session_token@)),
            (r matches Err(e) && e is NotFound) <==> (resolves_to_admin(*old(store), session_token@)
                && !has_card_id(old(store).cards@, card_id)),
            r matches Err(e) ==> (e is Auth || e is Forbidden || e is NotFound),
            r is Ok <==> (resolves_to_admin(*old(store), session_token@) && has_card_id(
                old(store).cards@,
                card_id,
            )),
            r is Ok ==> forall|i: int|
                0 <= i < old(store).cards@.len() ==> {
                    let pre = #[trigger] old(store).cards@[i];
                    let post = final(store).cards@[i];
                    if pre.id == card_id {
                        post == CardRow { status: status, ..pre }
                    } else {
                        post == pre
                    }
                },
    {
        if let Err(e) = require_admin(store, session_token.as_str()) {
            return Err(e);
        }
        let idx = match store.find_card_by_id(card_id) {
            Some(i) => i,
            None => { return Err(AppError::NotFound("Card not found.".to_owned())) },
        };
        let row = &store.cards[idx];
        let updated = CardRow {
            id: row.id,
            category: row.category,
            english: row.english.clone(),
            latin: row.latin.clone(),
            image_path: row.image_path.clone(),
            status,
            created_by: row.created_by,
            created_at: row.created_at,
        };
        store.cards[idx] = updated;
        proof {
            assert(has_card_id(old(store).cards@, card_id));
            assert forall|i: int| 0 <= i < old(store).cards@.len() implies {
                let pre = #[trigger] old(store).cards@[i];
                let post = final(store).cards@[i];
                if pre.id == card_id {
                    post == CardRow { status: status, ..pre }
                } else {
                    post == pre
                }
            } by {
                if i != idx as int {
                    assert(old(store).cards@[i].id != old(store).cards@[idx as int].id);
                }
            }
        }
        Ok(())
    }

    /// All pending cards, newest first by creation time. Admin only.
    #[verifier::spinoff_prover]
    #[verifier::rlimit(100)]
    pub fn list_pending_cards(store: &Store, session_token: String) -> (r: Result<
        Vec<PendingCard>,
        AppError,
    >)
        requires
            store.wf(),
        ensures
            (r matches Err(e) && e is Auth) <==> !spec_session_valid(*store, session_token@),
            (r matches Err(e) && e is Forbidden) <==> (spec_session_valid(*store, session_token@)
                && !resolves_to_admin(*store, session_token@)),
            r matches Err(e) ==> (e is Auth || e is Forbidden),
            r is Ok <==> resolves_to_admin(*store, session_token@),
            r matches Ok(list) ==> {
                &&& list@.len() == pending_count(store.cards@)
                &&& sorted_desc(list@)
                &&& forall|k: int|
                    #![trigger list@[k]]
                    0 <= k < list@.len() ==> exists|i: int|
                        0 <= i < store.cards@.len() && (#[trigger] store.cards@[i]).status
                            == CardStatus::Pending && pending_matches(list@[k], store.cards@[i])
                &&& forall|i: int|
                    0 <= i < store.cards@.len() && (#[trigger] store.cards@[i]).status
                        == CardStatus::Pending ==> exists|k: int|
                        0 <= k < list@.len() && pending_matches(#[trigger] list@[k], store.cards@[i])
            },
    {
        if let Err(e) = require_admin(store, session_token.as_str()) {
            return Err(e);
        }
        let n = store.cards.len();
        let mut out: Vec<PendingCard> = Vec::new();
        let mut i: usize = 0;
        while i < n
            invariant
                i <= n,
                n == store.cards@.len(),
                out@.len() == pending_count(store.cards@.take(i as int)),
                sorted_desc(out@),
                forall|k: int|
                    #![trigger out@[k]]
                    0 <= k < out@.len() ==> exists|ii: int|
                        0 <= ii < store.cards@.len() && (#[trigger] store.cards@[ii]).status
                            == CardStatus::Pending && pending_matches(out@[k], store.cards@[ii]),
                forall|ii: int|
                    0 <= ii < i && (#[trigger] store.cards@[ii]).status == CardStatus::Pending
                        ==> exists|k: int|
                        0 <= k < out@.len() && pending_matches(
                            #[trigger] out@[k],
                            store.cards@[ii],
                        ),
            decreases n - i,
        {
            let ghost prev_out = out@;
            let row = &store.cards[i];
            if row.status == CardStatus::Pending {
                let item = PendingCard {
                    id: row.id,
                    category: row.category.as_str().to_owned(),
                    english: row.english.clone(),
                    latin: row.latin.clone(),
                    image_path: row.image_path.clone(),
                    status: row.status.as_str().to_owned(),
                    created_by: row.created_by,
                    created_at: row.created_at,
                };
                proof {
                    assert(pending_matches(item, store.cards@[i as int]));
                }
                insert_sorted(&mut out, item);
                proof {
                    let pos = choose|pos: int|
                        0 <= pos <= prev_out.len() && out@ == (#[trigger] prev_out.insert(
                            pos,
                            item,
                        ));
                    assert(out@[pos] == item);
                    assert(forall|k: int| 0 <= k < pos ==> out@[k] == prev_out[k]);
                    assert(forall|k: int| pos < k < out@.len() ==> out@[k] == prev_out[k - 1]);
                    assert forall|k: int| #![trigger out@[k]] 0 <= k < out@.len() implies exists|
                        ii: int,
                    |
                        0 <= ii < store.cards@.len() && (#[trigger] store.cards@[ii]).status
                            == CardStatus::Pending && pending_matches(out@[k], store.cards@[ii]) by {
                        if k < pos {
                            assert(out@[k] == prev_out[k]);
                        } else if k == pos {
                            assert(pending_matches(out@[k], store.cards@[i as int]));
                        } else {
                            assert(out@[k] == prev_out[k - 1]);
                        }
                    }
                    assert forall|ii: int|
                        0 <= ii < i + 1 && (#[trigger] store.cards@[ii]).status
                            == CardStatus::Pending implies exists|k: int|
                        0 <= k < out@.len() && pending_matches(
                            #[trigger] out@[k],
                            store.cards@[ii],
                        ) by {
                        if ii < i {
                            let k0 = choose|k: int|
                                0 <= k < prev_out.len() && pending_matches(
                                    #[trigger] prev_out[k],
                                    store.cards@[ii],
                                );
                            let k1 = if k0 < pos {
                                k0
                            } else {
                                k0 + 1
                            };
                            assert(out@[k1] == prev_out[k0]);
                        } else {
                            assert(pending_matches(out@[pos], store.cards@[ii]));
                        }
                    }
                }
            }
            proof {
                assert(store.cards@.take(i + 1).drop_last() =~= store.cards@.take(i as int));
                assert(store.cards@.take(i + 1).last() == store.cards@[i as int]);
            }
            i = i + 1;
        }
        proof {
            assert(store.cards@.take(n as int) =~= store.cards@);
        }
        Ok(out)
    }

    /// Number of pending cards. Admin only.
    pub fn count_pending_cards(store: &Store, session_token: String) -> (r: Result<i64, AppError>)
        requires
            store.wf(),
        ensures
            (r matches Err(e) && e is Auth) <==> !spec_session_valid(*store, session_token@),
            (r matches Err(e) && e is Forbidden) <==> (spec_session_valid(*store, session_token@)
                && !resolves_to_admin(*store, session_token@)),
            r matches Err(e) ==> (e is Auth || e is Forbidden),
            r is Ok <==> resolves_to_admin(*store, session_token@),
            r matches Ok(c) ==> c == pending_count(store.cards@),
    {
        if let Err(e) = require_admin(store, session_token.as_str()) {
            return Err(e);
        }
        let n = store.cards.len();
        let mut count: i64 = 0;
        let mut i: usize = 0;
        while i < n
            invariant
                i <= n,
                n == store.cards@.len(),
                store.wf(),
                count == pending_count(store.cards@.take(i as int)),
                count <= i,
            decreases n - i,
        {
            proof {
                assert(store.cards@.take(i + 1).drop_last() =~= store.cards@.take(i as int));
                assert(store.cards@.take(i + 1).last() == store.cards@[i as int]);
            }
            if store.cards[i].status == CardStatus::Pending {
                count = count + 1;
            }
            i = i + 1;
        }
        proof {
            assert(store.cards@.take(n as int) =~= store.cards@);
        }
        Ok(count)
    }

    /// Every card, whatever its status, in store order. Admin only.
    pub fn list_all_cards_admin(store: &Store, session_token: String) -> (r: Result<
        Vec<CardAdminItem>,
        AppError,
    >)
        requires
            store.wf(),
        ensures
            (r matches Err(e) && e is Auth) <==> !spec_session_valid(*store, session_token@),
            (r matches Err(e) && e is Forbidden) <==> (spec_session_valid(*store, session_token@)
                && !resolves_to_admin(*store, session_token@)),
            r matches Err(e) ==> (e is Auth || e is Forbidden),
            r is Ok <==> resolves_to_admin(*store, session_token@),
            r matches Ok(list) ==> {
                &&& list@.len() == store.cards@.len()
                &&& forall|i: int|
                    0 <= i < list@.len() ==> admin_item_matches(
                        #[trigger] list@[i],
                        store.cards@[i],
                    )
            },
    {
        if let Err(e) = require_admin(store, session_token.as_str()) {
            return Err(e);
        }
        let n = store.cards.len();
        let mut out: Vec<CardAdminItem> = Vec::new();
        let mut i: usize = 0;
        while i < n
            invariant
                i <= n,
                n == store.cards@.len(),
                out@.len() == i,
                forall|k: int|
                    0 <= k < i ==> admin_item_matches(#[trigger] out@[k], store.cards@[k]),
            decreases n - i,
        {
            let row = &store.cards[i];
            out.push(
                CardAdminItem {
                    id: row.id,
                    category: row.category.as_str().to_owned(),
                    english: row.english.clone(),
                    latin: row.latin.clone(),
                    image_path: row.image_path.clone(),
                    status: row.status.as_str().to_owned(),
                },
            );
            i = i + 1;
        }
        Ok(out)
    }

    /// Rewrites the text fields of the card, trimmed. Admin only;
    /// `NotFound` when no card has the id.
    pub fn admin_update_card(store: &mut Store, input: UpdateCardInput) -> (r: Result<
        (),
        AppError,
    >)
        requires
            old(store).wf(),
        ensures
            final(store).wf(),
            final(store).users@ == old(store).users@,
            final(store).sessions@ == old(store).sessions@,
            final(store).cards@.len() == old(store).cards@.len(),
            final(store).next_card_id == old(store).next_card_id,
            r is Err ==> *final(store) == *old(store),
            (r matches Err(e) && e is Auth) <==> !spec_session_valid(
                *old(store),
                input.sessionToken@,
            ),
            (r matches Err(e) && e is Forbidden) <==> (spec_session_valid(
                *old(store),
                input.sessionToken@,
            ) && !resolves_to_admin(*old(store), input.sessionToken@)),
            (r matches Err(e) && e is NotFound) <==> (resolves_to_admin(
                *old(store),
                input.sessionToken@,
            ) && !has_card_id(old(store).cards@, input.id)),
            r matches Err(e) ==> (e is Auth || e is Forbidden || e is NotFound),
            r is Ok <==> (resolves_to_admin(*old(store), input.sessionToken@) && has_card_id(
                old(store).cards@,
                input.id,
            )),
            r is Ok ==> forall|i: int|
                0 <= i < old(store).cards@.len() ==> {
                    let pre = #[trigger] old(store).cards@[i];
                    let post = final(store).cards@[i];
                    if pre.id == input.id {
                        &&& post.id == pre.id
                        &&& post.category == pre.category
                        &&& post.english@ == trimmed(input.english@)
                        &&& post.latin@ == trimmed(input.latin@)
                        &&& post.image_path@ == trimmed(input.imagePath@)
                        &&& post.status == pre.status
                        &&& post.created_by == pre.created_by
                        &&& post.created_at == pre.created_at
                    } else {
                        post == pre
                    }
                },
    {
        if let Err(e) = require_admin(store, input.sessionToken.as_str()) {
            return Err(e);
        }
        let idx = match store.find_card_by_id(input.id) {
            Some(i) => i,
            None => { return Err(AppError::NotFound("Card not found.".to_owned())) },
        };
        let row = &store.cards[idx];
        let updated = CardRow {
            id: row.id,
            category: row.category,
            english: trim_str(input.english.as_str()).to_owned(),
            latin: trim_str(input.latin.as_str()).to_owned(),
            image_path: trim_str(input.imagePath.as_str()).to_owned(),
            status: row.status,
            created_by: row.created_by,
            created_at: row.created_at,
        };
        store.cards[idx] = updated;
        proof {
            assert(has_card_id(old(store).cards@, input.id));
            assert forall|i: int|
                0 <= i < old(store).cards@.len() && i != idx as int implies final(store).cards@[i]
                == old(store).cards@[i] && old(store).cards@[i].id != input.id by {
                assert(old(store).cards@[i].id != old(store).cards@[idx as int].id);
            }
        }
        Ok(())
    }

    /// Removes the card. Admin only; `NotFound` when no card has the id.
    pub fn admin_delete_card(store: &mut Store, session_token: String, id: i64) -> (r: Result<
        (),
        AppError,
    >)
        requires
            old(store).wf(),
        ensures
            final(store).wf(),
            final(store).users@ == old(store).users@,
            final(store).sessions@ == old(store).sessions@,
            final(store).next_card_id == old(store).next_card_id,
            r is Err ==> *final(store) == *old(store),
            (r matches Err(e) && e is Auth) <==> !spec_session_valid(*old(store), session_token@),
            (r matches Err(e) && e is Forbidden) <==> (spec_session_valid(
                *old(store),
                session_token@,
            ) && !resolves_to_admin(*old(store), session_token@)),
            (r matches Err(e) && e is NotFound) <==> (resolves_to_admin(*old(store), session_token@)
                && !has_card_id(old(store).cards@, id)),
            r matches Err(e) ==> (e is Auth || e is Forbidden || e is NotFound),
            r is Ok <==> (resolves_to_admin(*old(store), session_token@) && has_card_id(
                old(store).cards@,
                id,
            )),
            r is Ok ==> exists|i: int|
                0 <= i < old(store).cards@.len() && (#[trigger] old(store).cards@[i]).id == id
                    && final(store).cards@ == old(store).cards@.remove(i),
            r is Ok ==> !has_card_id(final(store).cards@, id),
    {
        if let Err(e) = require_admin(store, session_token.as_str()) {
            return Err(e);
        }
        let idx = match store.find_card_by_id(id) {
            Some(i) => i,
            None => { return Err(AppError::NotFound("Card not found.".to_owned())) },
        };
        let _removed = store.cards.remove(idx);
        proof {
            assert(has_card_id(old(store).cards@, id));
            old(store).cards@.remove_ensures(idx as int);
            assert(final(store).cards@ == old(store).cards@.remove(idx as int));
            assert forall|k: int| 0 <= k < final(store).cards@.len() implies (
            #[trigger] final(store).cards@[k]).id != id by {
                if k < idx as int {
                    assert(final(store).cards@[k] == old(store).cards@[k]);
                    assert(old(store).cards@[k].id != old(store).cards@[idx as int].id);
                } else {
                    assert(final(store).cards@[k] == old(store).cards@[k + 1]);
                    assert(old(store).cards@[k + 1].id != old(store).cards@[idx as int].id);
                }
            }
        }
        Ok(())
    }
}

/// Relies on rand's Rng::gen_range over `0..n`: a uniformly drawn index
/// below `n`. The range must be non-empty, or the call panics.
#[verifier::external_body]
fn rand_index(n: usize) -> (r: usize)
    requires
        n > 0,
    ensures
        r < n,
{
    rand::thread_rng().gen_range(0..n)
}

/// A card of the category drawn at random, whatever its status, as the
/// single-card lookup of the database layer returns one. `NotFound` when
/// the category has no card at all.
pub fn get_random_card(store: &Store, category: Category) -> (r: Result<Card, AppError>)
    requires
        store.wf(),
    ensures
        r matches Ok(c) ==> exists|i: int|
            0 <= i < store.cards@.len() && (#[trigger] store.cards@[i]).category == category && c
                == card_of_row(store.cards@[i]),
        r is Err <==> (forall|i: int|
            0 <= i < store.cards@.len() ==> (#[trigger] store.cards@[i]).category != category),
        r matches Err(e) ==> e is NotFound,
{
    let n = store.cards.len();
    let mut matching: Vec<usize> = Vec::new();
    let mut i: usize = 0;
    while i < n
        invariant
            i <= n,
            n == store.cards@.len(),
            forall|k: int|
                0 <= k < matching@.len() ==> (#[trigger] matching@[k]) < store.cards@.len()
                    && store.cards@[matching@[k] as int].category == category,
            matching@.len() == 0 ==> forall|j: int|
                0 <= j < i ==> (#[trigger] store.cards@[j]).category != category,
        decreases n - i,
    {
        if store.cards[i].category == category {
            matching.push(i);
        }
        i = i + 1;
    }
    if matching.len() == 0 {
        return Err(AppError::NotFound("No card in this category.".to_owned()));
    }
    let pick = rand_index(matching.len());
    let idx = matching[pick];
    let row = &store.cards[idx];
    Ok(Card {
        id: row.id,
        category: row.category,
        english: row.english.clone(),
        latin: row.latin.clone(),
        image_path: row.image_path.clone(),
    })
}

} // verus!
