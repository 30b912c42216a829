//! What holds of every run of the game, stated over the transitions that
//! `Game`'s operations are specified by.
use vstd::prelude::*;

use crate::models::{
    after_flip, all_matched, dealt, fetching, guess, judged, lemma_flip_consistent,
    lemma_judged_consistent, lemma_redealt_consistent, matched_face_up, matched_in_pairs, reacts,
    redealt, reload_starts, well_formed, GameView, PokeCard, Pokemon, Scheduled,
};

verus! {

/// After every transition a matched card is face up, and the matched cards
/// fall into pairs of equal names.
pub proof fn law_matched_cards_face_up_in_pairs(
    v: GameView,
    id: usize,
    p: (usize, usize),
    pokes: Seq<Pokemon>,
)
    requires
        well_formed(v),
        pokes.len() <= usize::MAX,
    ensures
        forall|w: GameView, r: Scheduled|
            #[trigger] reacts(v.cards, after_flip(v, id), w, r) ==> matched_face_up(w.cards)
                && matched_in_pairs(w.cards),
        v.pending.contains(p) ==> forall|w: GameView, r: Scheduled|
            #[trigger] reacts(v.cards, judged(v, p), w, r) ==> matched_face_up(w.cards)
                && matched_in_pairs(w.cards),
        forall|w: GameView, r: Scheduled|
            #[trigger] reacts(v.cards, redealt(v, pokes), w, r) ==> matched_face_up(w.cards)
                && matched_in_pairs(w.cards),
        matched_face_up(fetching(v).cards) && matched_in_pairs(fetching(v).cards),
{
    lemma_flip_consistent(v, id);
    if v.pending.contains(p) {
        lemma_judged_consistent(v, p);
    }
    lemma_redealt_consistent(v, pokes);
}

/// A judgement is scheduled exactly when a change forms a guess: when the
/// cards face up and unmatched become exactly two, and not the same two as
/// before the change. It names those two, and adds one waiting judgement of
/// them even when another of the same pair already waits.
pub proof fn law_guess_scheduled_when_formed(
    before: Seq<PokeCard>,
    v: GameView,
    w: GameView,
    r: Scheduled,
)
    requires
        reacts(before, v, w, r),
    ensures
        guess(v.cards) is Some && guess(v.cards) != guess(before) ==> r.resolve == guess(v.cards)
            && w.pending.count(guess(v.cards)->0) == v.pending.count(guess(v.cards)->0) + 1,
        guess(v.cards) is None || guess(v.cards) == guess(before) ==> r.resolve is None
            && w.pending == v.pending,
{
}

/// A judged guess of two unmatched cards with equal names leaves both
/// matched and face up, and no other card changes.
pub proof fn law_equal_names_match(v: GameView, p: (usize, usize))
    requires
        well_formed(v),
        v.pending.contains(p),
        !v.cards[p.0 as int].disabled,
        !v.cards[p.1 as int].disabled,
        v.cards[p.0 as int].poke.name@ == v.cards[p.1 as int].poke.name@,
    ensures
        judged(v, p).cards[p.0 as int].disabled,
        judged(v, p).cards[p.0 as int].flipped,
        judged(v, p).cards[p.1 as int].disabled,
        judged(v, p).cards[p.1 as int].flipped,
        forall|m: int|
            0 <= m < v.cards.len() && m != p.0 && m != p.1 ==> #[trigger] judged(v, p).cards[m]
                == v.cards[m],
{
}

/// A judged guess of two unmatched cards with different names turns both
/// face down, unmatched, and no other card changes.
pub proof fn law_different_names_turn_down(v: GameView, p: (usize, usize))
    requires
        well_formed(v),
        v.pending.contains(p),
        !v.cards[p.0 as int].disabled,
        !v.cards[p.1 as int].disabled,
        v.cards[p.0 as int].poke.name@ != v.cards[p.1 as int].poke.name@,
    ensures
        !judged(v, p).cards[p.0 as int].flipped,
        !judged(v, p).cards[p.0 as int].disabled,
        !judged(v, p).cards[p.1 as int].flipped,
        !judged(v, p).cards[p.1 as int].disabled,
        forall|m: int|
            0 <= m < v.cards.len() && m != p.0 && m != p.1 ==> #[trigger] judged(v, p).cards[m]
                == v.cards[m],
{
}

/// A matched card stays as it is, face up, until the round is replaced: no
/// flip request and no judgement changes it.
pub proof fn law_matched_card_stays(v: GameView, id: usize, p: (usize, usize), i: int)
    requires
        well_formed(v),
        v.pending.contains(p),
        0 <= i < v.cards.len(),
        v.cards[i].disabled,
    ensures
        v.cards[i].flipped,
        after_flip(v, id).cards[i] == v.cards[i],
        judged(v, p).cards[i] == v.cards[i],
        fetching(v).cards[i] == v.cards[i],
{
}

/// A card turned over while a guess is waiting does not join that guess:
/// the judgement stays waiting as captured, and leaves the new card as the
/// flip left it.
pub proof fn law_third_flip_untouched(
    v: GameView,
    p: (usize, usize),
    id: usize,
    w: GameView,
    r: Scheduled,
)
    requires
        well_formed(v),
        v.pending.contains(p),
        id != p.0,
        id != p.1,
        id < v.cards.len(),
        reacts(v.cards, after_flip(v, id), w, r),
    ensures
        w.pending.contains(p),
        judged(w, p).cards[id as int] == w.cards[id as int],
{
}

/// A complete round schedules its reload once: the judgement that matches
/// the last pair schedules it; while it is under way no transition
/// schedules another, and it starts at most once. A flip never completes a
/// round.
pub proof fn law_reload_once(v: GameView, id: usize, p: (usize, usize), round: u64)
    requires
        well_formed(v),
        v.pending.contains(p),
    ensures
        v.reload is Idle && all_matched(judged(v, p).cards) ==> forall|w: GameView, r: Scheduled|
            #[trigger] reacts(v.cards, judged(v, p), w, r) ==> r.reload && w.reload is Scheduled,
        forall|w: GameView, r: Scheduled| #[trigger]
            reacts(v.cards, after_flip(v, id), w, r) ==> !r.reload && w.reload == v.reload,
        !(v.reload is Idle) ==> forall|w: GameView, r: Scheduled|
            #[trigger] reacts(v.cards, judged(v, p), w, r) ==> !r.reload && w.reload == v.reload,
        reload_starts(v, round) ==> forall|round2: u64| !reload_starts(fetching(v), round2),
{
    if v.reload is Idle {
        let i = choose|i: int| 0 <= i < v.cards.len() && !v.cards[i].disabled;
        assert(!after_flip(v, id).cards[i].disabled);
    }
}

/// When every card is matched, every card is face up.
pub proof fn law_complete_round_face_up(v: GameView)
    requires
        well_formed(v),
        all_matched(v.cards),
    ensures
        forall|i: int| 0 <= i < v.cards.len() ==> #[trigger] v.cards[i].flipped,
{
    assert forall|i: int| 0 <= i < v.cards.len() implies #[trigger] v.cards[i].flipped by {
        assert(v.cards[i].disabled);
    }
}

/// A new round replaces the old one wholesale: one card per creature, each
/// at its own position with that position as id, face down and unmatched,
/// with a new tag and no judgement waiting; when it has cards, it
/// schedules nothing.
pub proof fn law_new_round_fresh(v: GameView, pokes: Seq<Pokemon>, w: GameView, r: Scheduled)
    requires
        pokes.len() <= usize::MAX,
        reacts(v.cards, redealt(v, pokes), w, r),
    ensures
        w.cards.len() == pokes.len(),
        forall|i: int| 0 <= i < w.cards.len() ==> !(#[trigger] w.cards[i]).flipped && !w.cards[i].disabled
            && w.cards[i].poke == pokes[i] && w.cards[i].id == i,
        w.round != v.round,
        w.pending.len() == 0,
        pokes.len() > 0 ==> r.resolve is None && !r.reload && w.reload is Idle,
{
    lemma_redealt_consistent(v, pokes);
    if pokes.len() > 0 {
        assert(!dealt(pokes)[0].disabled);
    }
}

/// A flip request for an id that no card of the round has changes nothing.
pub proof fn law_unknown_id_no_change(v: GameView, id: usize, w: GameView, r: Scheduled)
    requires
        well_formed(v),
        id >= v.cards.len(),
        reacts(v.cards, after_flip(v, id), w, r),
    ensures
        w == v,
        r.resolve is None,
        !r.reload,
{
}

} // verus!
