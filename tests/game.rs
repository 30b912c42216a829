use pokeflip::models::{Game, PokeCard, Pokemon};

fn poke(name: &str, number: u32) -> Pokemon {
    Pokemon {
        name: name.to_string(),
        url: format!("https://pokeapi.co/api/v2/pokemon/{}/", number),
    }
}

fn state(game: &Game) -> Vec<(bool, bool)> {
    game.poke_cards()
        .iter()
        .map(|c: &PokeCard| (c.flipped, c.disabled))
        .collect()
}

fn game_with(pokes: Vec<Pokemon>) -> Game {
    let mut game = Game::new();
    assert!(game.loading());
    let s = game.load_round(&pokes);
    assert!(s.resolve.is_none());
    assert_eq!(s.reload, pokes.is_empty());
    assert!(!game.loading());
    game
}

#[test]
fn two_pairs_matched_then_reload() {
    let mut game = game_with(vec![poke("a", 1), poke("a", 1), poke("b", 2), poke("b", 2)]);
    let round = game.round();
    assert!(game.flip_card(0).resolve.is_none());
    let s = game.flip_card(1);
    assert_eq!(s.resolve, Some((0, 1)));
    assert!(!s.reload);
    assert_eq!(s.round, round);
    let s = game.resolve_guess(round, (0, 1));
    assert!(s.resolve.is_none() && !s.reload);
    assert_eq!(state(&game), vec![(true, true), (true, true), (false, false), (false, false)]);

    assert!(game.flip_card(2).resolve.is_none());
    let s = game.flip_card(3);
    assert_eq!(s.resolve, Some((2, 3)));
    assert!(!s.reload);
    let s = game.resolve_guess(round, (2, 3));
    assert!(s.resolve.is_none());
    assert!(s.reload);
    assert_eq!(s.round, round);
    assert_eq!(state(&game), vec![(true, true); 4]);
    let s = game.flip_card(0);
    assert!(s.resolve.is_none() && !s.reload);

    assert!(game.start_reload(round));
    assert!(game.loading());
    assert!(!game.start_reload(round));
    let s = game.load_round(&vec![poke("c", 3), poke("d", 4), poke("d", 4), poke("c", 3)]);
    assert!(s.resolve.is_none() && !s.reload);
    assert_ne!(game.round(), round);
    assert_eq!(state(&game), vec![(false, false); 4]);
    assert_eq!(game.poke_cards()[3].poke.name, "c");
}

#[test]
fn mismatch_turns_back_without_reload() {
    let mut game = game_with(vec![poke("a", 1), poke("b", 2)]);
    let round = game.round();
    game.flip_card(0);
    let s = game.flip_card(1);
    assert_eq!(s.resolve, Some((0, 1)));
    assert!(!s.reload);
    let s = game.resolve_guess(round, (0, 1));
    assert!(s.resolve.is_none() && !s.reload);
    assert_eq!(state(&game), vec![(false, false), (false, false)]);
    assert!(!game.start_reload(round));
}

#[test]
fn third_flip_left_alone_by_judgement() {
    let mut game = game_with(vec![poke("a", 1), poke("a", 1), poke("b", 2), poke("b", 2)]);
    let round = game.round();
    game.flip_card(0);
    assert_eq!(game.flip_card(2).resolve, Some((0, 2)));
    let s = game.flip_card(1);
    assert!(s.resolve.is_none());
    game.resolve_guess(round, (0, 2));
    assert_eq!(state(&game), vec![(false, false), (true, false), (false, false), (false, false)]);
}

#[test]
fn new_pair_judged_while_earlier_waits() {
    let mut game = game_with(vec![poke("a", 1), poke("b", 2), poke("c", 3)]);
    let round = game.round();
    game.flip_card(0);
    assert_eq!(game.flip_card(1).resolve, Some((0, 1)));
    assert!(game.flip_card(0).resolve.is_none());
    assert_eq!(game.flip_card(2).resolve, Some((1, 2)));
    game.resolve_guess(round, (0, 1));
    assert_eq!(state(&game), vec![(false, false), (false, false), (true, false)]);
    game.resolve_guess(round, (1, 2));
    assert_eq!(state(&game), vec![(false, false); 3]);
}

#[test]
fn late_pair_matches_after_earlier_judgement() {
    let mut game = game_with(vec![poke("a", 1), poke("b", 2), poke("b", 2)]);
    let round = game.round();
    game.flip_card(0);
    game.flip_card(1);
    game.flip_card(0);
    assert_eq!(game.flip_card(2).resolve, Some((1, 2)));
    game.resolve_guess(round, (0, 1));
    assert_eq!(state(&game), vec![(false, false), (false, false), (true, false)]);
    game.resolve_guess(round, (1, 2));
    assert_eq!(state(&game), vec![(false, false), (true, true), (true, true)]);
}

#[test]
fn late_card_turned_back_when_partner_matched() {
    let mut game = game_with(vec![poke("a", 1), poke("a", 1), poke("b", 2)]);
    let round = game.round();
    game.flip_card(0);
    game.flip_card(1);
    game.flip_card(0);
    assert_eq!(game.flip_card(2).resolve, Some((1, 2)));
    game.resolve_guess(round, (0, 1));
    assert_eq!(state(&game), vec![(true, true), (true, true), (true, false)]);
    game.resolve_guess(round, (1, 2));
    assert_eq!(state(&game), vec![(true, true), (true, true), (false, false)]);
}

#[test]
fn pair_formed_again_scheduled_again() {
    let mut game = game_with(vec![poke("a", 1), poke("b", 2), poke("c", 3)]);
    game.flip_card(0);
    assert_eq!(game.flip_card(1).resolve, Some((0, 1)));
    assert!(game.flip_card(2).resolve.is_none());
    assert_eq!(game.flip_card(2).resolve, Some((0, 1)));
}

#[test]
fn reformed_pair_gets_own_judgement() {
    let mut game = game_with(vec![poke("a", 1), poke("b", 2)]);
    let round = game.round();
    game.flip_card(0);
    assert_eq!(game.flip_card(1).resolve, Some((0, 1)));
    assert!(game.flip_card(1).resolve.is_none());
    assert_eq!(game.flip_card(1).resolve, Some((0, 1)));
    let s = game.resolve_guess(round, (0, 1));
    assert!(s.resolve.is_none() && !s.reload);
    assert_eq!(state(&game), vec![(false, false), (false, false)]);
    game.flip_card(0);
    let s = game.resolve_guess(round, (0, 1));
    assert!(s.resolve.is_none() && !s.reload);
    assert_eq!(state(&game), vec![(false, false), (false, false)]);
    let s = game.resolve_guess(round, (0, 1));
    assert!(s.resolve.is_none() && !s.reload);
    game.flip_card(1);
    assert_eq!(state(&game), vec![(false, false), (true, false)]);
}

#[test]
fn matching_pair_formed_twice_matched() {
    let mut game = game_with(vec![poke("a", 1), poke("a", 1), poke("b", 2), poke("b", 2)]);
    let round = game.round();
    game.flip_card(0);
    game.flip_card(1);
    game.flip_card(1);
    assert_eq!(game.flip_card(1).resolve, Some((0, 1)));
    game.resolve_guess(round, (0, 1));
    assert_eq!(state(&game)[..2], [(true, true), (true, true)]);
    let s = game.resolve_guess(round, (0, 1));
    assert!(s.resolve.is_none() && !s.reload);
    assert_eq!(state(&game), vec![(true, true), (true, true), (false, false), (false, false)]);
}

#[test]
fn unknown_id_changes_nothing() {
    let mut game = game_with(vec![poke("a", 1), poke("a", 1)]);
    game.flip_card(0);
    let s = game.flip_card(9);
    assert!(s.resolve.is_none() && !s.reload);
    assert_eq!(state(&game), vec![(true, false), (false, false)]);
}

#[test]
fn flip_twice_turns_back() {
    let mut game = game_with(vec![poke("a", 1), poke("a", 1)]);
    game.flip_card(1);
    game.flip_card(1);
    assert_eq!(state(&game), vec![(false, false), (false, false)]);
}

#[test]
fn matched_card_ignores_flips() {
    let mut game = game_with(vec![poke("a", 1), poke("a", 1), poke("b", 2), poke("b", 2)]);
    let round = game.round();
    game.flip_card(0);
    game.flip_card(1);
    game.resolve_guess(round, (0, 1));
    let s = game.flip_card(0);
    assert!(s.resolve.is_none() && !s.reload);
    assert_eq!(state(&game)[0], (true, true));
}

#[test]
fn stale_timers_do_nothing() {
    let mut game = game_with(vec![poke("a", 1), poke("b", 2)]);
    let round = game.round();
    game.flip_card(0);
    game.flip_card(1);
    let s = game.resolve_guess(round.wrapping_add(5), (0, 1));
    assert!(s.resolve.is_none() && !s.reload);
    assert_eq!(state(&game), vec![(true, false), (true, false)]);
    let s = game.resolve_guess(round, (0, 2));
    assert!(s.resolve.is_none() && !s.reload);
    assert!(!game.start_reload(round));
    game.resolve_guess(round, (0, 1));
    let s = game.resolve_guess(round, (0, 1));
    assert!(s.resolve.is_none() && !s.reload);
    assert_eq!(state(&game), vec![(false, false), (false, false)]);
}

#[test]
fn empty_round_reloads() {
    let mut game = Game::new();
    assert_eq!(game.round(), 0);
    assert!(game.poke_cards().is_empty());
    let s = game.load_round(&vec![]);
    assert!(s.reload);
    assert_eq!(s.round, 1);
    assert!(game.start_reload(1));
    assert!(!game.start_reload(1));
}

#[test]
fn long_list_dealt_whole() {
    let mut game = Game::new();
    let pokes: Vec<Pokemon> = (0..300).map(|i| poke("a", i)).collect();
    let s = game.load_round(&pokes);
    assert_eq!(game.poke_cards().len(), 300);
    assert_eq!(game.poke_cards()[299].id, 299);
    assert!(!s.reload);
    game.flip_card(298);
    assert_eq!(game.flip_card(299).resolve, Some((298, 299)));
}

#[test]
fn new_game_has_no_reload_to_start() {
    let mut game = Game::new();
    assert!(!game.start_reload(0));
    let s = game.flip_card(0);
    assert!(s.resolve.is_none() && !s.reload);
}

#[test]
fn card_flip_and_disable() {
    let mut card = PokeCard { poke: poke("a", 1), id: 3, flipped: false, disabled: false };
    card.flip();
    assert!(card.flipped);
    card.flip();
    assert!(!card.flipped);
    card.disable();
    assert!(card.flipped && card.disabled);
    assert_eq!(card.id, 3);
}
