use vstd::multiset::Multiset;
use vstd::prelude::*;

use crate::api::get_poke_cards;

verus! {

broadcast use vstd::multiset::group_multiset_axioms, vstd::seq_lib::group_to_multiset_ensures;

/// A creature that a card reveals. Two cards match when their creatures
/// carry the same `name`.
#[derive(Clone, Debug)]
pub struct Pokemon {
    pub name: String,
    pub url: String,
}

/// One tile of a round.
#[derive(Clone, Debug)]
pub struct PokeCard {
    pub poke: Pokemon,
    /// The card's position in its round.
    pub id: usize,
    /// Face up (`true`) or face down.
    pub flipped: bool,
    /// Matched for good: a disabled card stays face up.
    pub disabled: bool,
}

impl PokeCard {
    /// A face-up card that is not yet matched: one that takes part in a guess.
    pub open spec fn is_guessing(&self) -> bool {
        self.flipped && !self.disabled
    }

    /// Turns the card over.
    pub fn flip(&mut self)
        ensures
            final(self).flipped == !old(self).flipped,
            final(self).disabled == old(self).disabled,
            final(self).id == old(self).id,
            final(self).poke == old(self).poke,
    {
        self.flipped = !self.flipped;
    }

    /// Marks the card as matched; a matched card stays face up.
    pub fn disable(&mut self)
        ensures
            final(self).flipped,
            final(self).disabled,
            final(self).id == old(self).id,
            final(self).poke == old(self).poke,
    {
        self.flipped = true;
        self.disabled = true;
    }

    /// Turns the card face down.
    pub fn turn_down(&mut self)
        ensures
            !final(self).flipped,
            final(self).disabled == old(self).disabled,
            final(self).id == old(self).id,
            final(self).poke == old(self).poke,
    {
        self.flipped = false;
    }
}


/// The cards of a round, one for each creature, in order: the card at
/// position `i` shows `pokes[i]`, has id `i`, and starts face down and
/// unmatched.
pub open spec fn dealt(pokes: Seq<Pokemon>) -> Seq<PokeCard> {
    Seq::new(
        pokes.len(),
        |i: int| PokeCard { poke: pokes[i], id: i as usize, flipped: false, disabled: false },
    )
}

/// How many cards of `cards` are face up and not yet matched.
pub open spec fn guessing_count(cards: Seq<PokeCard>) -> nat
    decreases cards.len(),
{
    if cards.len() == 0 {
        0
    } else {
        guessing_count(cards.drop_last()) + if cards.last().is_guessing() {
            1nat
        } else {
            0nat
        }
    }
}

/// Whether `c` is matched and shows the creature called `name`.
pub open spec fn matched_as(c: PokeCard, name: Seq<char>) -> nat {
    if c.disabled && c.poke.name@ == name {
        1
    } else {
        0
    }
}

/// How many matched cards of `cards` show the creature called `name`.
pub open spec fn matched_count(cards: Seq<PokeCard>, name: Seq<char>) -> nat
    decreases cards.len(),
{
    if cards.len() == 0 {
        0
    } else {
        matched_count(cards.drop_last(), name) + matched_as(cards.last(), name)
    }
}

/// Every card is matched, and so face up: the round is complete.
pub open spec fn all_matched(cards: Seq<PokeCard>) -> bool {
    forall|i: int| 0 <= i < cards.len() ==> #[trigger] cards[i].disabled
}

/// A matched card is always face up.
pub open spec fn matched_face_up(cards: Seq<PokeCard>) -> bool {
    forall|i: int| 0 <= i < cards.len() && #[trigger] cards[i].disabled ==> cards[i].flipped
}

/// The matched cards fall into pairs of equal names: for each name, an even
/// number of matched cards carry it.
pub open spec fn matched_in_pairs(cards: Seq<PokeCard>) -> bool {
    forall|name: Seq<char>| #[trigger] matched_count(cards, name) % 2 == 0
}

/// Each card's id is its position.
pub open spec fn ids_are_positions(cards: Seq<PokeCard>) -> bool {
    forall|i: int| 0 <= i < cards.len() ==> #[trigger] cards[i].id as int == i
}

proof fn lemma_matched_count_update(s: Seq<PokeCard>, i: int, c: PokeCard, name: Seq<char>)
    requires
        0 <= i < s.len(),
    ensures
        matched_count(s.update(i, c), name) + matched_as(s[i], name) == matched_count(s, name)
            + matched_as(c, name),
    decreases s.len(),
{
    let t = s.update(i, c);
    if i < s.len() - 1 {
        assert(t.drop_last() =~= s.drop_last().update(i, c));
        lemma_matched_count_update(s.drop_last(), i, c, name);
    } else {
        assert(t.drop_last() =~= s.drop_last());
    }
}

proof fn lemma_unmatched_count_zero(s: Seq<PokeCard>, name: Seq<char>)
    requires
        forall|i: int| 0 <= i < s.len() ==> !(#[trigger] s[i]).disabled,
    ensures
        matched_count(s, name) == 0,
    decreases s.len(),
{
    if s.len() > 0 {
        lemma_unmatched_count_zero(s.drop_last(), name);
    }
}

pub proof fn lemma_no_guess_count_zero(s: Seq<PokeCard>)
    requires
        forall|i: int| 0 <= i < s.len() ==> !(#[trigger] s[i]).flipped,
    ensures
        guessing_count(s) == 0,
    decreases s.len(),
{
    if s.len() > 0 {
        lemma_no_guess_count_zero(s.drop_last());
    }
}

/// `p` names the first two cards, in order, that are face up and unmatched.
pub open spec fn is_guess(cards: Seq<PokeCard>, p: (usize, usize)) -> bool {
    &&& p.0 < p.1 < cards.len()
    &&& cards[p.0 as int].is_guessing()
    &&& cards[p.1 as int].is_guessing()
    &&& forall|k: int| 0 <= k < p.1 && k != p.0 ==> !(#[trigger] cards[k]).is_guessing()
}

/// The guess on the table: the two cards that are face up and unmatched,
/// when there are exactly two.
pub open spec fn guess(cards: Seq<PokeCard>) -> Option<(usize, usize)> {
    if guessing_count(cards) == 2 && exists|p: (usize, usize)| is_guess(cards, p) {
        Some(choose|p: (usize, usize)| is_guess(cards, p))
    } else {
        None
    }
}

proof fn lemma_guess_unique(cards: Seq<PokeCard>, p: (usize, usize), q: (usize, usize))
    requires
        is_guess(cards, p),
        is_guess(cards, q),
    ensures
        p == q,
{
    if p.1 < q.1 {
        assert(cards[p.1 as int].is_guessing());
        assert(cards[p.0 as int].is_guessing());
    } else if q.1 < p.1 {
        assert(cards[q.1 as int].is_guessing());
        assert(cards[q.0 as int].is_guessing());
    } else if p.0 != q.0 {
        assert(cards[p.0 as int].is_guessing());
    }
}

/// Finds the two face-up unmatched cards, when there are exactly two.
fn guessing_pair(cards: &Vec<PokeCard>) -> (r: Option<(usize, usize)>)
    ensures
        r == guess(cards@),
        r matches Some(p) ==> is_guess(cards@, p),
{
    let mut count: usize = 0;
    let mut first: usize = 0;
    let mut second: usize = 0;
    let mut i: usize = 0;
    while i < cards.len()
        invariant
            i <= cards@.len(),
            count <= i,
            count == guessing_count(cards@.subrange(0, i as int)),
            count == 0 ==> forall|k: int| 0 <= k < i ==> !(#[trigger] cards@[k]).is_guessing(),
            count == 1 ==> forall|k: int|
                0 <= k < i && k != first ==> !(#[trigger] cards@[k]).is_guessing(),
            count >= 1 ==> first < i && cards@[first as int].is_guessing(),
            count >= 2 ==> first < second < i && cards@[second as int].is_guessing(),
            count >= 2 ==> forall|k: int|
                0 <= k < second && k != first ==> !(#[trigger] cards@[k]).is_guessing(),
        decreases cards@.len() - i,
    {
        assert(cards@.subrange(0, i + 1).drop_last() =~= cards@.subrange(0, i as int));
        if cards[i].flipped && !cards[i].disabled {
            if count == 0 {
                first = i;
            } else if count == 1 {
                second = i;
            }
            count = count + 1;
        }
        i = i + 1;
    }
    assert(cards@.subrange(0, cards@.len() as int) =~= cards@);
    if count == 2 {
        let p = (first, second);
        assert(is_guess(cards@, p));
        proof {
            let q = choose|q: (usize, usize)| is_guess(cards@, q);
            lemma_guess_unique(cards@, p, q);
        }
        Some(p)
    } else {
        None
    }
}

/// Whether every card of `cards` is matched.
fn every_card_matched(cards: &Vec<PokeCard>) -> (r: bool)
    ensures
        r == all_matched(cards@),
{
    let mut i: usize = 0;
    while i < cards.len()
        invariant
            i <= cards@.len(),
            forall|k: int| 0 <= k < i ==> #[trigger] cards@[k].disabled,
        decreases cards@.len() - i,
    {
        if !cards[i].disabled {
            return false;
        }
        i = i + 1;
    }
    true
}

/// The position of `pair` in `pending`.
fn find_pair(pending: &Vec<(usize, usize)>, pair: (usize, usize)) -> (r: Option<usize>)
    ensures
        r matches Some(k) ==> k < pending@.len() && pending@[k as int] == pair,
        r is None ==> !pending@.contains(pair),
{
    let mut i: usize = 0;
    while i < pending.len()
        invariant
            i <= pending@.len(),
            forall|k: int| 0 <= k < i ==> #[trigger] pending@[k] != pair,
        decreases pending@.len() - i,
    {
        let q = pending[i];
        if q.0 == pair.0 && q.1 == pair.1 {
            return Some(i);
        }
        i = i + 1;
    }
    None
}

/// Where the round's reload stands.
pub enum ReloadState {
    /// The round is still being played.
    Idle,
    /// The round is complete and its reload waits for its delay.
    Scheduled,
    /// New cards have been requested and have not arrived yet.
    Fetching,
}

/// The deferred actions that a change of the round asks for; the caller
/// runs each after its delay, tagged with `round`.
#[derive(Clone, Copy, Debug)]
pub struct Scheduled {
    /// A guess to judge (`Game::resolve_guess`): the positions of its two
    /// cards, captured when the guess was made.
    pub resolve: Option<(usize, usize)>,
    /// Start the reload (`Game::start_reload`).
    pub reload: bool,
    /// The round that the actions belong to.
    pub round: u64,
}

/// The state of a game as a mathematical value.
pub struct GameView {
    pub cards: Seq<PokeCard>,
    /// Counts the rounds dealt so far, modulo 2^64.
    pub round: u64,
    /// The judgements scheduled and not run yet, one entry for each.
    pub pending: Multiset<(usize, usize)>,
    pub reload: ReloadState,
}

/// The match engine: the live round of cards and the rules that react to
/// its changes.
pub struct Game {
    poke_cards: Vec<PokeCard>,
    round: u64,
    pending: Vec<(usize, usize)>,
    reload: ReloadState,
}

impl View for Game {
    type V = GameView;

    closed spec fn view(&self) -> GameView {
        GameView {
            cards: self.poke_cards@,
            round: self.round,
            pending: self.pending@.to_multiset(),
            reload: self.reload,
        }
    }
}

/// The state invariants that hold between any two steps, except those that
/// the reactive rules restore.
pub open spec fn consistent(v: GameView) -> bool {
    &&& ids_are_positions(v.cards)
    &&& matched_face_up(v.cards)
    &&& matched_in_pairs(v.cards)
    &&& forall|p: (usize, usize)| #[trigger] v.pending.contains(p) ==> p.0 < p.1 < v.cards.len()
}

/// The full invariant: consistent, and the reactive rules have nothing left
/// to start.
pub open spec fn well_formed(v: GameView) -> bool {
    &&& consistent(v)
    &&& guess(v.cards) matches Some(p) ==> v.pending.contains(p)
    &&& v.reload is Idle ==> !all_matched(v.cards)
}

/// The reactive rules, run on `v` after a change from cards `before`, give
/// `w` and ask for `r`: when the change forms a guess (exactly two cards
/// face up and unmatched, and not the same two as before), its judgement
/// is scheduled, also while an earlier judgement of the same two waits;
/// with every card matched and no reload under way, the reload is
/// scheduled. Nothing else changes.
pub open spec fn reacts(before: Seq<PokeCard>, v: GameView, w: GameView, r: Scheduled) -> bool {
    &&& w.cards == v.cards
    &&& w.round == v.round
    &&& r.round == v.round
    &&& if guess(v.cards) is Some && guess(v.cards) != guess(before) {
        &&& r.resolve == guess(v.cards)
        &&& w.pending == v.pending.insert(guess(v.cards)->0)
    } else {
        r.resolve is None && w.pending == v.pending
    }
    &&& if v.reload is Idle && all_matched(v.cards) {
        r.reload && w.reload is Scheduled
    } else {
        !r.reload && w.reload == v.reload
    }
}

/// `c` turned over.
pub open spec fn toggled(c: PokeCard) -> PokeCard {
    PokeCard { flipped: !c.flipped, ..c }
}

/// `c` matched, face up.
pub open spec fn matched(c: PokeCard) -> PokeCard {
    PokeCard { flipped: true, disabled: true, ..c }
}

/// `c` face down.
pub open spec fn face_down(c: PokeCard) -> PokeCard {
    PokeCard { flipped: false, ..c }
}

/// `c` face down, unless it is matched.
pub open spec fn turned_back(c: PokeCard) -> PokeCard {
    if c.disabled {
        c
    } else {
        face_down(c)
    }
}

/// A request to turn over card `id`: the card is turned over when it exists
/// and is not matched; otherwise nothing happens.
pub open spec fn after_flip(v: GameView, id: usize) -> GameView {
    if (id as int) < v.cards.len() && !v.cards[id as int].disabled {
        GameView { cards: v.cards.update(id as int, toggled(v.cards[id as int])), ..v }
    } else {
        v
    }
}

/// Whether the judgement of `pair` tagged with `round` acts on `v`: it
/// belongs to the live round and a judgement of the pair waits.
pub open spec fn judgement_due(v: GameView, round: u64, pair: (usize, usize)) -> bool {
    round == v.round && v.pending.contains(pair)
}

/// The guess `p` judged: two unmatched cards of equal names are matched;
/// otherwise each of the two that is not matched is turned face down. No
/// other card changes, and one waiting judgement of `p` is used up.
pub open spec fn judged(v: GameView, p: (usize, usize)) -> GameView {
    let a = v.cards[p.0 as int];
    let b = v.cards[p.1 as int];
    let cards = if !a.disabled && !b.disabled && a.poke.name@ == b.poke.name@ {
        v.cards.update(p.0 as int, matched(a)).update(p.1 as int, matched(b))
    } else {
        v.cards.update(p.0 as int, turned_back(a)).update(p.1 as int, turned_back(b))
    };
    GameView { cards, pending: v.pending.remove(p), ..v }
}

/// Whether a reload tagged with `round` starts on `v`: it belongs to the
/// live round and the round's reload is scheduled.
pub open spec fn reload_starts(v: GameView, round: u64) -> bool {
    round == v.round && v.reload is Scheduled
}

/// `v` with its reload under way.
pub open spec fn fetching(v: GameView) -> GameView {
    GameView { reload: ReloadState::Fetching, ..v }
}

/// The round that follows `round`.
pub open spec fn next_round(round: u64) -> u64 {
    if round == u64::MAX {
        0
    } else {
        (round + 1) as u64
    }
}

/// A new round dealt from `pokes`, replacing the state of `v` entirely.
pub open spec fn redealt(v: GameView, pokes: Seq<Pokemon>) -> GameView {
    GameView {
        cards: dealt(pokes),
        round: next_round(v.round),
        pending: Multiset::empty(),
        reload: ReloadState::Idle,
    }
}

/// Turning a card over keeps the state consistent.
pub proof fn lemma_flip_consistent(v: GameView, id: usize)
    requires
        consistent(v),
    ensures
        consistent(after_flip(v, id)),
{
    if (id as int) < v.cards.len() && !v.cards[id as int].disabled {
        let c = toggled(v.cards[id as int]);
        let after = v.cards.update(id as int, c);
        assert forall|name: Seq<char>| #[trigger] matched_count(after, name) % 2 == 0 by {
            lemma_matched_count_update(v.cards, id as int, c, name);
            assert(matched_count(v.cards, name) % 2 == 0);
        }
    }
}

/// Judging a waiting guess keeps the state consistent, and leaves no guess
/// on the table made of the judged pair.
pub proof fn lemma_judged_consistent(v: GameView, p: (usize, usize))
    requires
        consistent(v),
        v.pending.contains(p),
    ensures
        consistent(judged(v, p)),
        guess(judged(v, p).cards) != Some(p),
{
    let a = v.cards[p.0 as int];
    let b = v.cards[p.1 as int];
    let (ma, mb) = if !a.disabled && !b.disabled && a.poke.name@ == b.poke.name@ {
        (matched(a), matched(b))
    } else {
        (turned_back(a), turned_back(b))
    };
    let s1 = v.cards.update(p.0 as int, ma);
    let s2 = s1.update(p.1 as int, mb);
    assert(judged(v, p).cards == s2);
    assert forall|name: Seq<char>| #[trigger] matched_count(s2, name) % 2 == 0 by {
        lemma_matched_count_update(v.cards, p.0 as int, ma, name);
        lemma_matched_count_update(s1, p.1 as int, mb, name);
        assert(matched_count(v.cards, name) % 2 == 0);
    }
    assert forall|q: (usize, usize)| #[trigger] judged(v, p).pending.contains(q) implies q.0 < q.1
        < s2.len() by {
        assert(v.pending.count(q) >= judged(v, p).pending.count(q));
        assert(v.pending.contains(q));
    }
    assert(!s2[p.0 as int].is_guessing());
    if guess(s2) == Some(p) {
        let q = choose|q: (usize, usize)| is_guess(s2, q);
        assert(is_guess(s2, q));
    }
}

/// A freshly dealt round is consistent and has no guess on the table.
pub proof fn lemma_redealt_consistent(v: GameView, pokes: Seq<Pokemon>)
    requires
        pokes.len() <= usize::MAX,
    ensures
        consistent(redealt(v, pokes)),
        guess(redealt(v, pokes).cards) is None,
{
    let cards = dealt(pokes);
    assert forall|name: Seq<char>| #[trigger] matched_count(cards, name) % 2 == 0 by {
        lemma_unmatched_count_zero(cards, name);
    }
    assert forall|q: (usize, usize)| !(#[trigger] Multiset::<(usize, usize)>::empty().contains(q)) by {
    }
    lemma_no_guess_count_zero(cards);
}

impl Game {
    pub open spec fn well_formed(&self) -> bool {
        well_formed(self@)
    }

    /// A game whose first round is being fetched.
    pub fn new() -> (r: Game)
        ensures
            r.well_formed(),
            r@.cards.len() == 0,
            r@.round == 0,
            r@.pending.len() == 0,
            r@.reload is Fetching,
    {
        let r = Game { poke_cards: Vec::new(), round: 0, pending: Vec::new(), reload: ReloadState::Fetching };
        proof {
            r.pending@.to_multiset_ensures();
        }
        r
    }

    /// The cards of the live round.
    pub fn poke_cards(&self) -> (r: &Vec<PokeCard>)
        ensures
            r@ == self@.cards,
    {
        &self.poke_cards
    }

    /// The live round's tag.
    pub fn round(&self) -> (r: u64)
        ensures
            r == self@.round,
    {
        self.round
    }

    /// Whether new cards have been requested and have not arrived yet.
    pub fn loading(&self) -> (r: bool)
        ensures
            r == self@.reload is Fetching,
    {
        match self.reload {
            ReloadState::Fetching => true,
            _ => false,
        }
    }

    /// Turns over the card whose id is `id`, then runs the reactive rules.
    /// An id that no card of the live round has, or a matched card, leaves
    /// the cards as they are.
    pub fn flip_card(&mut self, id: usize) -> (r: Scheduled)
        requires
            old(self).well_formed(),
        ensures
            final(self).well_formed(),
            reacts(old(self)@.cards, after_flip(old(self)@, id), final(self)@, r),
    {
        let before = guessing_pair(&self.poke_cards);
        let ghost b = self@.cards;
        proof {
            lemma_flip_consistent(self@, id);
        }
        if id < self.poke_cards.len() && !self.poke_cards[id].disabled {
            self.poke_cards[id].flip();
            assert(self@.cards =~= after_flip(old(self)@, id).cards);
        }
        self.react(before, Ghost(b))
    }

    /// Judges the guess `pair`, when `round` is the live round and a
    /// judgement of the pair waits, then runs the reactive rules; otherwise
    /// does nothing.
    pub fn resolve_guess(&mut self, round: u64, pair: (usize, usize)) -> (r: Scheduled)
        requires
            old(self).well_formed(),
        ensures
            final(self).well_formed(),
            judgement_due(old(self)@, round, pair) ==> reacts(
                old(self)@.cards,
                judged(old(self)@, pair),
                final(self)@,
                r,
            ),
            !judgement_due(old(self)@, round, pair) ==> final(self)@ == old(self)@ && r.resolve is None
                && !r.reload && r.round == round,
    {
        proof {
            self.pending@.to_multiset_ensures();
        }
        if round != self.round {
            return Scheduled { resolve: None, reload: false, round };
        }
        let k = match find_pair(&self.pending, pair) {
            None => {
                return Scheduled { resolve: None, reload: false, round };
            },
            Some(k) => k,
        };
        let ghost v = self@;
        assert(self.pending@.contains(pair));
        assert(v.pending.contains(pair));
        let before = guessing_pair(&self.poke_cards);
        proof {
            lemma_judged_consistent(v, pair);
        }
        let (a, b) = pair;
        if !self.poke_cards[a].disabled && !self.poke_cards[b].disabled
            && self.poke_cards[a].poke.name == self.poke_cards[b].poke.name {
            self.poke_cards[a].disable();
            self.poke_cards[b].disable();
        } else {
            if !self.poke_cards[a].disabled {
                self.poke_cards[a].turn_down();
            }
            if !self.poke_cards[b].disabled {
                self.poke_cards[b].turn_down();
            }
        }
        let ghost old_pending = self.pending@;
        self.pending.remove(k);
        proof {
            old_pending.to_multiset_ensures();
            assert(self.pending@ == old_pending.remove(k as int));
        }
        assert(self@.cards =~= judged(v, pair).cards);
        assert(self@.pending == judged(v, pair).pending);
        self.react(before, Ghost(v.cards))
    }

    /// Starts the reload of a complete round: when `round` is the live
    /// round and its reload is scheduled, the reload is marked as fetching
    /// and `true` comes back, asking the caller to fetch new cards;
    /// otherwise nothing changes and `false` comes back.
    pub fn start_reload(&mut self, round: u64) -> (r: bool)
        requires
            old(self).well_formed(),
        ensures
            final(self).well_formed(),
            r == reload_starts(old(self)@, round),
            r ==> final(self)@ == fetching(old(self)@),
            !r ==> final(self)@ == old(self)@,
    {
        match self.reload {
            ReloadState::Scheduled => {
                if round == self.round {
                    self.reload = ReloadState::Fetching;
                    return true;
                }
                false
            },
            _ => false,
        }
    }

    /// Replaces the live round with one dealt from `pokemons`, then runs the
    /// reactive rules.
    pub fn load_round(&mut self, pokemons: &Vec<Pokemon>) -> (r: Scheduled)
        requires
            old(self).well_formed(),
        ensures
            final(self).well_formed(),
            reacts(old(self)@.cards, redealt(old(self)@, pokemons@), final(self)@, r),
    {
        let before = guessing_pair(&self.poke_cards);
        let ghost b = self@.cards;
        proof {
            assert(pokemons@.len() == pokemons.len());
            lemma_redealt_consistent(self@, pokemons@);
        }
        self.poke_cards = get_poke_cards(pokemons);
        self.round = if self.round == u64::MAX {
            0
        } else {
            self.round + 1
        };
        self.pending = Vec::new();
        self.reload = ReloadState::Idle;
        proof {
            self.pending@.to_multiset_ensures();
            assert(self@.pending =~= Multiset::empty());
        }
        self.react(before, Ghost(b))
    }

    /// Runs the reactive rules after a change from cards `b`, whose guess
    /// was `before`.
    fn react(&mut self, before: Option<(usize, usize)>, Ghost(b): Ghost<Seq<PokeCard>>) -> (r: Scheduled)
        requires
            consistent(old(self)@),
            before == guess(b),
            guess(old(self)@.cards) is Some && guess(old(self)@.cards) == guess(b) ==> old(self)@.pending.contains(
                guess(b)->0,
            ),
        ensures
            reacts(b, old(self)@, final(self)@, r),
            well_formed(final(self)@),
    {
        let ghost v = self@;
        let mut resolve: Option<(usize, usize)> = None;
        match guessing_pair(&self.poke_cards) {
            Some(p) => {
                let same = match before {
                    Some(q) => q.0 == p.0 && q.1 == p.1,
                    None => false,
                };
                if !same {
                    let ghost old_pending = self.pending@;
                    self.pending.push(p);
                    proof {
                        old_pending.to_multiset_ensures();
                        assert(self@.pending == v.pending.insert(p));
                        assert(self@.pending.count(p) > 0);
                        assert forall|q: (usize, usize)| #[trigger] self@.pending.contains(q) implies q.0
                            < q.1 < self@.cards.len() by {
                            if q != p {
                                assert(v.pending.count(q) == self@.pending.count(q));
                                assert(v.pending.contains(q));
                            }
                        }
                    }
                    resolve = Some(p);
                }
            },
            None => {},
        }
        let mut reload = false;
        match self.reload {
            ReloadState::Idle => {
                if every_card_matched(&self.poke_cards) {
                    self.reload = ReloadState::Scheduled;
                    reload = true;
                }
            },
            _ => {},
        }
        Scheduled { resolve, reload, round: self.round }
    }
}

} // verus!
