use vstd::prelude::*;

use rand::seq::SliceRandom;
use rand::Rng;
use vstd::string::StringExecFns;

use crate::models::{dealt, PokeCard, Pokemon};
use crate::sprite::{decimal, push_decimal};

verus! {

/// Relies on rand's `Rng::gen_range` over `thread_rng()`: a number drawn
/// from the half-open range `0..bound`, which panics only when that range
/// is empty.
#[verifier::external_body]
fn random_below(bound: u32) -> (r: u32)
    requires
        bound > 0,
    ensures
        r < bound,
{
    rand::thread_rng().gen_range(0..bound)
}

/// The number of offsets that a page of creatures is drawn from.
pub const OFFSET_CHOICES: u32 = 50;

/// Relies on rand's `SliceRandom::shuffle` over `thread_rng()`: the items
/// are put in a random order, none added or lost.
#[verifier::external_body]
fn shuffle_pokemons(v: &mut Vec<Pokemon>)
    ensures
        final(v)@.to_multiset() == old(v)@.to_multiset(),
{
    v.shuffle(&mut rand::thread_rng());
}

fn copy_pokemon(p: &Pokemon) -> (r: Pokemon)
    ensures
        r == *p,
{
    Pokemon { name: p.name.clone(), url: p.url.clone() }
}

/// The address of the page of eight creatures that starts at `offset`.
pub open spec fn list_url(offset: nat) -> Seq<char> {
    "https://pokeapi.co/api/v2/pokemon?limit=8&offset="@ + decimal(offset)
}

/// The address of the page of eight creatures that starts at `offset`.
pub fn pokemon_list_url(offset: u32) -> (r: String)
    ensures
        r@ == list_url(offset as nat),
{
    let mut r = String::from_str("https://pokeapi.co/api/v2/pokemon?limit=8&offset=");
    push_decimal(&mut r, offset);
    r
}

/// The address of a page of eight creatures at a random offset below 50.
pub fn random_pokemon_list_url() -> (r: String)
    ensures
        exists|offset: nat| offset < OFFSET_CHOICES && r@ == list_url(offset),
{
    let offset = random_below(OFFSET_CHOICES);
    pokemon_list_url(offset)
}

/// `v` followed by itself.
fn duplicate(v: &Vec<Pokemon>) -> (r: Vec<Pokemon>)
    ensures
        r@ == v@ + v@,
{
    let mut r: Vec<Pokemon> = Vec::new();
    let mut round: usize = 0;
    while round < 2
        invariant
            round <= 2,
            round == 0 ==> r@ == Seq::<Pokemon>::empty(),
            round == 1 ==> r@ == v@,
            round == 2 ==> r@ == v@ + v@,
        decreases 2 - round,
    {
        let ghost start = r@;
        let mut i: usize = 0;
        while i < v.len()
            invariant
                i <= v@.len(),
                r@ == start + v@.subrange(0, i as int),
            decreases v@.len() - i,
        {
            r.push(copy_pokemon(&v[i]));
            i = i + 1;
        }
        assert(v@.subrange(0, v@.len() as int) =~= v@);
        assert(start == Seq::<Pokemon>::empty() ==> r@ =~= v@);
        round = round + 1;
    }
    r
}

/// The creatures of one round, from a fetched page: each creature of the
/// page twice, in a random order. A failed fetch (`None`) gives an empty
/// round.
pub fn get_pokemons(fetched: Option<Vec<Pokemon>>) -> (r: Vec<Pokemon>)
    ensures
        fetched is None ==> r@.len() == 0,
        fetched matches Some(v) ==> r@.to_multiset() == (v@ + v@).to_multiset()
            && r@.len() == 2 * v@.len(),
{
    match fetched {
        None => Vec::new(),
        Some(v) => {
            let mut r = duplicate(&v);
            shuffle_pokemons(&mut r);
            proof {
                r@.to_multiset_ensures();
                (v@ + v@).to_multiset_ensures();
            }
            r
        },
    }
}

/// Deals a round: one card per creature, in order, each with its position
/// as id, face down and unmatched.
pub fn get_poke_cards(pokemons: &Vec<Pokemon>) -> (r: Vec<PokeCard>)
    ensures
        r@ == dealt(pokemons@),
{
    let mut cards: Vec<PokeCard> = Vec::new();
    let mut i: usize = 0;
    while i < pokemons.len()
        invariant
            i <= pokemons@.len(),
            cards@ == dealt(pokemons@).subrange(0, i as int),
        decreases pokemons@.len() - i,
    {
        let poke = copy_pokemon(&pokemons[i]);
        cards.push(PokeCard { poke, id: i, flipped: false, disabled: false });
        i = i + 1;
    }
    assert(cards@ =~= dealt(pokemons@));
    cards
}

} // verus!
