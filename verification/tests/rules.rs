use tacos::controls::{Button, Key};
use tacos::game::{Game, Phase, HOME, LEFT, OVER, PLAY, RIGHT, STILL};

fn press(g: &mut Game, key: Key) -> bool {
    g.input(&Button::Keyboard(key), true)
}

fn release(g: &mut Game, key: Key) -> bool {
    g.input(&Button::Keyboard(key), false)
}

#[test]
fn new_game_holds_every_taco() {
    let g = Game::new(HOME, 20);
    assert_eq!(g.screen, 0);
    assert_eq!(g.max_tacos, 20);
    assert_eq!(g.tacos_release, 20);
    assert_eq!(g.score, 0);
    assert_eq!(g.player_dir, ' ');
    assert!(g.tacos_active.is_empty());
    assert!(g.people_active.is_empty());
    assert_eq!(g.thrown(), 0);
}

#[test]
fn space_starts_the_game_from_home() {
    let mut g = Game::new(HOME, 3);
    assert!(!press(&mut g, Key::Z));
    assert_eq!(g.screen, HOME);
    assert_eq!(g.player_dir, STILL);
    assert!(!release(&mut g, Key::Space));
    assert_eq!(g.screen, HOME);
    assert!(!g.input(&Button::Other, true));
    assert_eq!(g.screen, HOME);
    assert!(!press(&mut g, Key::Space));
    assert_eq!(g.screen, PLAY);
    assert_eq!(g.tacos_release, 3);
    assert!(g.tacos_active.is_empty());
}

#[test]
fn arrow_keys_steer_the_player() {
    let mut g = Game::new(PLAY, 3);
    press(&mut g, Key::Z);
    assert_eq!(g.player_dir, RIGHT);
    press(&mut g, Key::A);
    assert_eq!(g.player_dir, LEFT);
    release(&mut g, Key::Other);
    assert_eq!(g.player_dir, LEFT);
    release(&mut g, Key::Z);
    assert_eq!(g.player_dir, STILL);
    press(&mut g, Key::A);
    release(&mut g, Key::A);
    assert_eq!(g.player_dir, STILL);
    g.input(&Button::Other, true);
    assert_eq!(g.player_dir, STILL);
}

#[test]
fn press_then_release_changes_only_the_direction() {
    let mut g = Game::new(PLAY, 2);
    press(&mut g, Key::Space);
    let before = (g.screen, g.tacos_release, g.score, g.tacos_active.clone());
    press(&mut g, Key::Z);
    release(&mut g, Key::Z);
    assert_eq!(g.player_dir, STILL);
    assert_eq!((g.screen, g.tacos_release, g.score, g.tacos_active.clone()), before);
}

#[test]
fn space_throws_while_tacos_are_left() {
    let mut g = Game::new(PLAY, 2);
    assert!(press(&mut g, Key::Space));
    assert_eq!(g.tacos_release, 1);
    assert_eq!(g.tacos_active, vec![true]);
    assert!(press(&mut g, Key::Space));
    assert_eq!(g.tacos_release, 0);
    assert_eq!(g.tacos_active, vec![true, true]);
    assert_eq!(g.thrown(), 2);
    // Empty hands, tacos still flying: nothing happens.
    assert!(!press(&mut g, Key::Space));
    assert_eq!(g.screen, PLAY);
    assert_eq!(g.tacos_active, vec![true, true]);
    // Releasing Space never throws.
    assert!(!release(&mut g, Key::Space));
}

#[test]
fn game_ends_once_every_taco_has_landed() {
    let mut g = Game::new(PLAY, 2);
    assert!(g.throw());
    assert!(g.throw());
    g.record_moves(&vec![true, false], &vec![], false);
    assert!(!g.throw());
    assert_eq!(g.screen, PLAY);
    g.record_moves(&vec![false, true], &vec![], false);
    assert_eq!(g.tacos_active, vec![false, false]);
    assert!(!g.throw());
    assert_eq!(g.screen, OVER);
}

#[test]
fn game_with_no_taco_ends_at_the_first_throw() {
    let mut g = Game::new(PLAY, 0);
    assert!(!press(&mut g, Key::Space));
    assert_eq!(g.screen, OVER);
}

#[test]
fn throw_outside_play_still_counts_tacos() {
    // `throw` itself does not look at the screen.
    let mut g = Game::new(HOME, 1);
    assert!(g.throw());
    assert_eq!(g.tacos_release, 0);
    assert!(!g.throw());
    assert_eq!(g.screen, HOME);
    g.record_moves(&vec![true], &vec![], false);
    assert!(!g.throw());
    assert_eq!(g.screen, OVER);
}

#[test]
fn final_screen_ignores_every_button() {
    let mut g = Game::new(OVER, 2);
    for key in [Key::Space, Key::Z, Key::A, Key::Other] {
        assert!(!press(&mut g, key));
        assert!(!release(&mut g, key));
    }
    assert_eq!(g.screen, OVER);
    assert_eq!(g.tacos_release, 2);
    assert_eq!(g.player_dir, STILL);
}

#[test]
fn unknown_screen_ignores_every_button() {
    let mut g = Game::new(7, 2);
    assert!(!press(&mut g, Key::Space));
    assert!(!press(&mut g, Key::Z));
    assert_eq!(g.screen, 7);
    assert_eq!(g.player_dir, STILL);
    assert_eq!(g.update(), Phase::Still);
}

#[test]
fn each_screen_moves_its_own_things() {
    assert_eq!(Game::new(HOME, 1).update(), Phase::Clouds);
    assert_eq!(Game::new(PLAY, 1).update(), Phase::Play);
    assert_eq!(Game::new(OVER, 1).update(), Phase::Still);
}

#[test]
fn moves_lower_flags_and_add_arrivals() {
    let mut g = Game::new(PLAY, 3);
    g.throw();
    g.throw();
    g.throw();
    g.record_moves(&vec![], &vec![], true);
    g.record_moves(&vec![], &vec![], true);
    assert_eq!(g.people_active, vec![true, true]);
    g.record_moves(&vec![false, true], &vec![true], true);
    assert_eq!(g.tacos_active, vec![true, false, true]);
    assert_eq!(g.people_active, vec![false, true, true]);
    // A landed taco stays down, a gone passer-by stays gone.
    g.record_moves(&vec![false, false, false, true], &vec![false, false, false, true], false);
    assert_eq!(g.tacos_active, vec![true, false, true]);
    assert_eq!(g.people_active, vec![false, true, true]);
    assert_eq!(g.score, 0);
}

#[test]
fn first_touching_taco_makes_a_passer_by_happy() {
    let mut g = Game::new(PLAY, 3);
    g.throw();
    g.throw();
    g.throw();
    g.record_moves(&vec![], &vec![], true);
    g.record_moves(&vec![], &vec![], true);
    // Passer-by 0 is touched by tacos 1 and 2, passer-by 1 by taco 1 only.
    let hits = vec![vec![false, true, true], vec![false, true, false]];
    let made = g.check_happiness(&hits, &vec![]);
    assert_eq!(made, vec![(0, 1)]);
    assert_eq!(g.score, 1);
    assert_eq!(g.tacos_active, vec![true, false, true]);
    assert_eq!(g.people_active, vec![false, true]);
}

#[test]
fn a_happy_passer_by_meets_later_tacos_at_the_happy_spot() {
    let mut g = Game::new(PLAY, 3);
    g.throw();
    g.throw();
    g.throw();
    g.record_moves(&vec![], &vec![], true);
    g.record_moves(&vec![], &vec![], true);
    // Passer-by 0 is touched by taco 0 where it walks; tacos 1 and 2 touch the
    // happy spot, taco 2 touches passer-by 1 where it walks.
    let hits = vec![vec![true, false, false], vec![false, false, true]];
    let parked = vec![false, true, true];
    let made = g.check_happiness(&hits, &parked);
    assert_eq!(made, vec![(0, 0), (0, 1), (0, 2)]);
    assert_eq!(g.score, 3);
    assert_eq!(g.tacos_active, vec![false, false, false]);
    assert_eq!(g.people_active, vec![false, true]);
    assert!(g.score <= g.thrown());
}

#[test]
fn the_happy_spot_counts_only_after_a_first_touch() {
    let mut g = Game::new(PLAY, 2);
    g.throw();
    g.throw();
    g.record_moves(&vec![], &vec![], true);
    // Taco 0 misses passer-by 0 where it walks: the happy spot does not matter.
    let hits = vec![vec![false, true]];
    let parked = vec![true, false];
    let made = g.check_happiness(&hits, &parked);
    assert_eq!(made, vec![(0, 1)]);
    assert_eq!(g.tacos_active, vec![true, false]);
    assert_eq!(g.score, 1);
}

#[test]
fn each_taco_serves_one_passer_by() {
    let mut g = Game::new(PLAY, 2);
    g.throw();
    g.throw();
    g.record_moves(&vec![], &vec![], true);
    g.record_moves(&vec![], &vec![], true);
    g.record_moves(&vec![], &vec![], true);
    let hits = vec![vec![true, true], vec![true, true], vec![true, true]];
    let made = g.check_happiness(&hits, &vec![]);
    assert_eq!(made, vec![(0, 0), (1, 1)]);
    assert_eq!(g.score, 2);
    assert_eq!(g.tacos_active, vec![false, false]);
    assert_eq!(g.people_active, vec![false, false, true]);
    // Nothing left to throw or to reach: the next Space ends the game.
    assert!(!press(&mut g, Key::Space));
    assert_eq!(g.screen, OVER);
    assert!(g.score <= g.thrown());
}

#[test]
fn landed_tacos_and_gone_people_are_skipped() {
    let mut g = Game::new(PLAY, 2);
    g.throw();
    g.throw();
    g.record_moves(&vec![true], &vec![], true);
    g.record_moves(&vec![], &vec![true], true);
    // Passer-by 0 has left, taco 0 has landed.
    let hits = vec![vec![true, true], vec![true, false]];
    let made = g.check_happiness(&hits, &vec![]);
    assert!(made.is_empty());
    assert_eq!(g.score, 0);
    assert_eq!(g.tacos_active, vec![false, true]);
    assert_eq!(g.people_active, vec![false, true]);
}

#[test]
fn missing_rows_and_entries_touch_nothing() {
    let mut g = Game::new(PLAY, 2);
    g.throw();
    g.throw();
    g.record_moves(&vec![], &vec![], true);
    g.record_moves(&vec![], &vec![], true);
    let hits = vec![vec![false]];
    assert!(g.check_happiness(&hits, &vec![]).is_empty());
    let hits = vec![vec![false], vec![false, true]];
    assert_eq!(g.check_happiness(&hits, &vec![]), vec![(1, 1)]);
    assert_eq!(g.people_active, vec![true, false]);
}

#[test]
fn score_never_passes_the_tacos_thrown() {
    let mut g = Game::new(PLAY, 4);
    for _ in 0..4 {
        g.throw();
        g.record_moves(&vec![], &vec![], true);
        let hits: Vec<Vec<bool>> = (0..g.people_active.len()).map(|_| vec![true; 4]).collect();
        g.check_happiness(&hits, &vec![]);
        assert!(g.score <= g.thrown());
        assert!(g.thrown() <= g.max_tacos);
    }
    assert_eq!(g.score, 4);
    assert_eq!(g.thrown(), 4);
    assert_eq!(g.tacos_active, vec![false; 4]);
}
