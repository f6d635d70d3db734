use omega_rust::movement::{Keys, PlayField, Position};
use omega_rust::score::GameState;
use omega_rust::world::setup;

const NONE: Keys = Keys { left: false, right: false, up: false, down: false };

#[test]
fn setup_places_everything() {
    let w = setup(PlayField::window());
    assert_eq!(w.player, Position { x: 320_000_000, y: 120_000_000 });
    assert_eq!(w.state, GameState { score: 0, high_score: 0, lives: 3 });
    assert_eq!(w.score_text.text, "SCORE\n0");
    assert_eq!(w.high_score_text.text, "HIGH SCORE\n0");
}

#[test]
fn one_tick_moves_scores_and_syncs() {
    let mut w = setup(PlayField::window());
    w.tick(Keys { left: true, ..NONE }, 500_000);
    assert_eq!(w.player, Position { x: 220_000_000, y: 90_000_000 });
    assert_eq!(w.state.score, 1);
    assert_eq!(w.state.high_score, 1);
    assert_eq!(w.score_text.text, "SCORE\n1");
    assert_eq!(w.high_score_text.text, "HIGH SCORE\n1");
}

#[test]
fn many_ticks_keep_player_in_area() {
    let mut w = setup(PlayField::window());
    for i in 0..50 {
        let keys = Keys { right: i % 2 == 0, up: true, ..NONE };
        w.tick(keys, 100_000);
        assert!(w.player.x <= 360_000_000 && w.player.x >= -360_000_000);
        assert!(w.player.y <= 90_000_000 && w.player.y >= -270_000_000);
    }
    assert_eq!(w.state.score, 50);
    assert_eq!(w.high_score_text.text, "HIGH SCORE\n50");
}
