use vstd::prelude::*;
use rand::seq::SliceRandom;
use crate::cards::{card_of_row, deck_of, is_deck_card};
use crate::domain::{Card, Category};
use crate::errors::AppError;
use crate::store::Store;

verus! {

/// One play session: a shuffled snapshot of the approved cards of a
/// category, and the cursor into it. Later card edits do not touch a
/// running deck.
#[derive(Debug)]
pub struct GameRun {
    pub run_id: u64,
    pub category: Category,
    pub deck: Vec<Card>,
    pub idx: usize,
}

/// The process-scoped registry of play sessions, an explicit state object
/// injected into the handling layer; the caller serializes access to it.
#[derive(Debug)]
pub struct GameManager {
    pub runs: Vec<GameRun>,
    pub next_run_id: u64,
}

pub open spec fn has_run(runs: Seq<GameRun>, run_id: u64) -> bool {
    exists|i: int| 0 <= i < runs.len() && (#[trigger] runs[i]).run_id == run_id
}

/// Where the cursor stands after one advance: capped at the deck length.
pub open spec fn advanced_idx(i: nat, n: nat) -> nat {
    if i + 1 >= n {
        n
    } else {
        (i + 1) as nat
    }
}

/// Whether one advance from position `i` reaches the end of `n` cards.
pub open spec fn advance_finishes(i: nat, n: nat) -> bool {
    i + 1 >= n
}

/// Where the cursor stands after `k` advances from position 0.
pub open spec fn idx_after_advances(k: nat, n: nat) -> nat {
    if k <= n {
        k
    } else {
        n
    }
}

/// Law: a run of `n` cards advances exactly `n - 1` times before the end:
/// counting advances from a fresh cursor, the `k`-th advance reports
/// finished exactly when `k >= n`, and until then each advance lands on
/// the next card.
pub proof fn lemma_deck_advances(n: nat, k: nat)
    requires
        n > 0,
        k >= 1,
    ensures
        idx_after_advances(k, n) == advanced_idx(idx_after_advances((k - 1) as nat, n), n),
        advance_finishes(idx_after_advances((k - 1) as nat, n), n) <==> k >= n,
{
}

impl GameManager {
    /// Run ids are unique and below the allocation counter; every stored
    /// deck is non-empty and its cursor never passes its end.
    pub open spec fn wf(self) -> bool {
        &&& forall|i: int|
            0 <= i < self.runs@.len() ==> (#[trigger] self.runs@[i]).run_id < self.next_run_id
        &&& forall|i: int, j: int|
            #![trigger self.runs@[i], self.runs@[j]]
            0 <= i < self.runs@.len() && 0 <= j < self.runs@.len() && i != j
                ==> self.runs@[i].run_id != self.runs@[j].run_id
        &&& forall|i: int|
            0 <= i < self.runs@.len() ==> (#[trigger] self.runs@[i]).deck@.len() > 0
                && self.runs@[i].idx <= self.runs@[i].deck@.len()
    }

    /// An empty registry, as the application starts.
    pub fn new() -> (g: GameManager)
        ensures
            g.wf(),
            g.runs@ =~= Seq::<GameRun>::empty(),
            g.next_run_id == 0,
    {
        GameManager { runs: Vec::new(), next_run_id: 0 }
    }

    /// Index of the run with this id, unique when the registry is
    /// well-formed.
    fn find_run(&self, run_id: u64) -> (r: Option<usize>)
        ensures
            match r {
                Some(i) => i < self.runs@.len() && self.runs@[i as int].run_id == run_id,
                None => !has_run(self.runs@, run_id),
            },
    {
        let n = self.runs.len();
        let mut i: usize = 0;
        while i < n
            invariant
                i <= n,
                n == self.runs@.len(),
                forall|j: int| 0 <= j < i ==> (#[trigger] self.runs@[j]).run_id != run_id,
            decreases n - i,
        {
            if self.runs[i].run_id == run_id {
                return Some(i);
            }
            i = i + 1;
        }
        None
    }
}

/// Relies on rand's SliceRandom::shuffle with thread_rng: an in-place,
/// uniformly random permutation of the deck. It only swaps elements, so
/// the multiset of cards is unchanged; the order is random and nothing
/// relates two calls.
#[verifier::external_body]
fn shuffle_cards(deck: &mut Vec<Card>)
    ensures
        final(deck)@.to_multiset() == old(deck)@.to_multiset(),
{
    deck.shuffle(&mut rand::thread_rng());
}

/// The response of `start_game`: the fresh run id, the deck size, the
/// first card, and whether the game is already over (an empty category).
#[derive(Debug)]
pub struct StartGameResponse {
    pub game_id: u64,
    pub total: usize,
    pub card: Option<Card>,
    pub finished: bool,
    pub message: String,
}

/// The response of `next_card` and `reset_game`: the current card, the
/// end flag, and how many cards follow the current one.
#[derive(Debug)]
pub struct NextCardResponse {
    pub card: Option<Card>,
    pub finished: bool,
    pub remaining: usize,
    pub message: String,
}

/// Starts a play session over the approved cards of the category,
/// uniformly shuffled. A category without approved cards is answered
/// with a terminal `finished` response and no stored run, so the
/// returned id is not usable; otherwise the run is registered under a
/// fresh id with its cursor on the first card.
pub fn start_game(games: &mut GameManager, store: &Store, category: Category) -> (r: Result<
    StartGameResponse,
    AppError,
>)
    requires
        old(games).wf(),
        store.wf(),
    ensures
        final(games).wf(),
        r is Err <==> old(games).next_run_id == u64::MAX,
        r matches Err(e) ==> *final(games) == *old(games) && e is Storage,
        r matches Ok(resp) ==> {
            let deck0 = deck_of(store.cards@, category);
            &&& resp.total == deck0.len()
            &&& (resp.finished <==> deck0.len() == 0)
            &&& resp.game_id == old(games).next_run_id
            &&& final(games).next_run_id == old(games).next_run_id + 1
            &&& (deck0.len() == 0 ==> {
                &&& resp.card is None
                &&& final(games).runs@ == old(games).runs@
                &&& !has_run(final(games).runs@, resp.game_id)
                &&& resp.message@ == "Nema karata za ovu kategoriju."@
            })
            &&& (deck0.len() > 0 ==> {
                &&& final(games).runs@.len() == old(games).runs@.len() + 1
                &&& final(games).runs@.drop_last() == old(games).runs@
                &&& {
                    let run = final(games).runs@.last();
                    &&& run.run_id == resp.game_id
                    &&& run.category == category
                    &&& run.idx == 0
                    &&& run.deck@.len() == deck0.len()
                    &&& run.deck@.to_multiset() == deck0.to_multiset()
                    &&& resp.card == Some(run.deck@[0])
                }
                &&& resp.message@ == "Igra je počela."@
            })
        },
{
    if games.next_run_id == u64::MAX {
        return Err(AppError::Storage("Run id space exhausted.".to_owned()));
    }
    let n = store.cards.len();
    let mut deck: Vec<Card> = Vec::new();
    let mut i: usize = 0;
    while i < n
        invariant
            i <= n,
            n == store.cards@.len(),
            deck@ == deck_of(store.cards@.take(i as int), category),
        decreases n - i,
    {
        proof {
            assert(store.cards@.take(i + 1).drop_last() =~= store.cards@.take(i as int));
            assert(store.cards@.take(i + 1).last() == store.cards@[i as int]);
        }
        let row = &store.cards[i];
        if row.status == crate::domain::CardStatus::Approved && row.category == category {
            deck.push(Card {
                id: row.id,
                category: row.category,
                english: row.english.clone(),
                latin: row.latin.clone(),
                image_path: row.image_path.clone(),
            });
            proof {
                assert(deck@.last() == card_of_row(store.cards@[i as int]));
                assert(deck@ =~= deck_of(store.cards@.take(i + 1), category));
            }
        } else {
            proof {
                assert(!is_deck_card(store.cards@[i as int], category));
            }
        }
        i = i + 1;
    }
    proof {
        assert(store.cards@.take(n as int) =~= store.cards@);
    }
    let game_id = games.next_run_id;
    let total = deck.len();
    if total == 0 {
        games.next_run_id = game_id + 1;
        return Ok(StartGameResponse {
            game_id,
            total: 0,
            card: None,
            finished: true,
            message: "Nema karata za ovu kategoriju.".to_owned(),
        });
    }
    let ghost deck0 = deck@;
    shuffle_cards(&mut deck);
    proof {
        broadcast use vstd::seq_lib::group_to_multiset_ensures;

        assert(deck@.to_multiset().len() == deck@.len());
        assert(deck0.to_multiset().len() == deck0.len());
        assert(deck@.len() == deck_of(store.cards@, category).len());
    }
    let first = deck[0].clone();
    let run = GameRun { run_id: game_id, category, deck, idx: 0 };
    games.runs.push(run);
    games.next_run_id = game_id + 1;
    Ok(StartGameResponse {
        game_id,
        total,
        card: Some(first),
        finished: false,
        message: "Igra je počela.".to_owned(),
    })
}

/// Advances the run's cursor by one. At the end of the deck it answers a
/// terminal response and keeps the run registered, so a later reset can
/// restart it; otherwise it hands out the card at the new position and
/// the count of cards strictly after it. Unknown run ids are `NotFound`.
pub fn next_card(games: &mut GameManager, game_id: u64) -> (r: Result<NextCardResponse, AppError>)
    requires
        old(games).wf(),
    ensures
        final(games).wf(),
        final(games).next_run_id == old(games).next_run_id,
        r is Err <==> !has_run(old(games).runs@, game_id),
        r matches Err(e) ==> *final(games) == *old(games) && e is NotFound,
        r is Ok ==> final(games).runs@.len() == old(games).runs@.len(),
        r matches Ok(resp) ==> forall|i: int|
            0 <= i < old(games).runs@.len() ==> {
                let pre = #[trigger] old(games).runs@[i];
                let post = final(games).runs@[i];
                if pre.run_id == game_id {
                    let n = pre.deck@.len();
                    &&& post.run_id == pre.run_id
                    &&& post.category == pre.category
                    &&& post.deck@ == pre.deck@
                    &&& post.idx == advanced_idx(pre.idx as nat, n)
                    &&& resp.finished == advance_finishes(pre.idx as nat, n)
                    &&& (advance_finishes(pre.idx as nat, n) ==> resp.card is None
                        && resp.remaining == 0 && resp.message@
                        == "Došli ste do kraja. Hoćete li da ponovite od početka?"@)
                    &&& (!advance_finishes(pre.idx as nat, n) ==> resp.card == Some(
                        pre.deck@[pre.idx + 1],
                    ) && resp.remaining == n - pre.idx - 2 && resp.message@ == "Nova karta."@)
                } else {
                    post == pre
                }
            },
{
    let idx = match games.find_run(game_id) {
        Some(i) => i,
        None => { return Err(AppError::NotFound("Nevažeći game_id.".to_owned())) },
    };
    let deck_len = games.runs[idx].deck.len();
    let pos = games.runs[idx].idx;
    let ghost prev_runs = games.runs@;
    if pos >= deck_len - 1 {
        let run = &mut games.runs[idx];
        run.idx = deck_len;
        proof {
            assert(games.runs@ == prev_runs.update(idx as int, games.runs@[idx as int]));
            assert forall|i: int|
                0 <= i < prev_runs.len() && i != idx as int implies games.runs@[i] == prev_runs[i]
                && prev_runs[i].run_id != game_id by {
                assert(prev_runs[i].run_id != prev_runs[idx as int].run_id);
            }
        }
        Ok(NextCardResponse {
            card: None,
            finished: true,
            remaining: 0,
            message: "Došli ste do kraja. Hoćete li da ponovite od početka?".to_owned(),
        })
    } else {
        let new_pos = pos + 1;
        let run = &mut games.runs[idx];
        run.idx = new_pos;
        let card = games.runs[idx].deck[new_pos].clone();
        let remaining = deck_len - new_pos - 1;
        proof {
            assert forall|i: int|
                0 <= i < prev_runs.len() && i != idx as int implies games.runs@[i] == prev_runs[i]
                && prev_runs[i].run_id != game_id by {
                assert(prev_runs[i].run_id != prev_runs[idx as int].run_id);
            }
        }
        Ok(NextCardResponse {
            card: Some(card),
            finished: false,
            remaining,
            message: "Nova karta.".to_owned(),
        })
    }
}

/// Reshuffles the run's existing deck in place and returns the cursor to
/// the first card, however far the run had advanced. Unknown run ids are
/// `NotFound`.
pub fn reset_game(games: &mut GameManager, game_id: u64) -> (r: Result<NextCardResponse, AppError>)
    requires
        old(games).wf(),
    ensures
        final(games).wf(),
        final(games).next_run_id == old(games).next_run_id,
        r is Err <==> !has_run(old(games).runs@, game_id),
        r matches Err(e) ==> *final(games) == *old(games) && e is NotFound,
        r is Ok ==> final(games).runs@.len() == old(games).runs@.len(),
        r matches Ok(resp) ==> forall|i: int|
            0 <= i < old(games).runs@.len() ==> {
                let pre = #[trigger] old(games).runs@[i];
                let post = final(games).runs@[i];
                if pre.run_id == game_id {
                    &&& post.run_id == pre.run_id
                    &&& post.category == pre.category
                    &&& post.deck@.to_multiset() == pre.deck@.to_multiset()
                    &&& post.deck@.len() == pre.deck@.len()
                    &&& post.idx == 0
                    &&& resp.card == Some(post.deck@[0])
                    &&& resp.finished == false
                    &&& resp.remaining == pre.deck@.len() - 1
                    &&& resp.message@ == "Krenuli smo ispočetka."@
                } else {
                    post == pre
                }
            },
{
    let idx = match games.find_run(game_id) {
        Some(i) => i,
        None => { return Err(AppError::NotFound("Nevažeći game_id.".to_owned())) },
    };
    let ghost prev_runs = games.runs@;
    let run = &mut games.runs[idx];
    shuffle_cards(&mut run.deck);
    run.idx = 0;
    proof {
        broadcast use vstd::seq_lib::group_to_multiset_ensures;

        let post_deck = games.runs@[idx as int].deck@;
        let pre_deck = prev_runs[idx as int].deck@;
        assert(post_deck.to_multiset() == pre_deck.to_multiset());
        assert(post_deck.to_multiset().len() == post_deck.len());
        assert(pre_deck.to_multiset().len() == pre_deck.len());
        assert(pre_deck.len() > 0);
    }
    let card = games.runs[idx].deck[0].clone();
    let remaining = games.runs[idx].deck.len() - 1;
    proof {
        assert forall|i: int|
            0 <= i < prev_runs.len() && i != idx as int implies games.runs@[i] == prev_runs[i]
            && prev_runs[i].run_id != game_id by {
            assert(prev_runs[i].run_id != prev_runs[idx as int].run_id);
        }
    }
    Ok(NextCardResponse {
        card: Some(card),
        finished: false,
        remaining,
        message: "Krenuli smo ispočetka.".to_owned(),
    })
}

/// Removes the run. Idempotent: removing an absent run id succeeds.
pub fn end_game(games: &mut GameManager, game_id: u64) -> (r: Result<(), AppError>)
    requires
        old(games).wf(),
    ensures
        final(games).wf(),
        final(games).next_run_id == old(games).next_run_id,
        r is Ok,
        !has_run(final(games).runs@, game_id),
        has_run(old(games).runs@, game_id) ==> exists|i: int|
            0 <= i < old(games).runs@.len() && (#[trigger] old(games).runs@[i]).run_id == game_id
                && final(games).runs@ == old(games).runs@.remove(i),
        !has_run(old(games).runs@, game_id) ==> *final(games) == *old(games),
{
    match games.find_run(game_id) {
        Some(i) => {
            let _removed = games.runs.remove(i);
            proof {
                old(games).runs@.remove_ensures(i as int);
                assert forall|k: int| 0 <= k < games.runs@.len() implies (
                #[trigger] games.runs@[k]).run_id != game_id by {
                    if k < i as int {
                        assert(games.runs@[k] == old(games).runs@[k]);
                        assert(old(games).runs@[k].run_id != old(games).runs@[i as int].run_id);
                    } else {
                        assert(games.runs@[k] == old(games).runs@[k + 1]);
                        assert(old(games).runs@[k + 1].run_id != old(games).runs@[i as int].run_id);
                    }
                }
            }
            Ok(())
        },
        None => Ok(()),
    }
}

} // verus!
