use vstd::prelude::*;
use crate::hud::{hud_line, shown_value, sync_hud, HudRole, HudText};
use crate::movement::{next_position, player_movement, Keys, PlayField, Position};
use crate::score::GameState;

verus! {

/// Everything a frame updates: the player's position, the score state, and
/// the two HUD elements that show it.
#[derive(Debug)]
pub struct World {
    pub field: PlayField,
    pub player: Position,
    pub state: GameState,
    pub score_text: HudText,
    pub high_score_text: HudText,
}

/// Where the player starts: 0.4 of the width right of the centre, 0.2 of the
/// height above it.
pub open spec fn start_position(field: PlayField) -> Position {
    Position { x: (400_000 * field.width) as i64, y: (200_000 * field.height) as i64 }
}

impl World {
    /// The HUD elements keep their roles and show the state, and the state is
    /// well formed.
    pub open spec fn wf(self) -> bool {
        &&& self.state.wf()
        &&& self.score_text.role == HudRole::Score
        &&& self.high_score_text.role == HudRole::HighScore
        &&& self.score_text.text@ == hud_line(HudRole::Score, self.state.score as nat)
        &&& self.high_score_text.text@ == hud_line(HudRole::HighScore, self.state.high_score as nat)
    }
}

/// A new game on `field`: the player at its start, a new score state, and the
/// two HUD elements showing zero.
pub fn setup(field: PlayField) -> (r: World)
    ensures
        r.field == field,
        r.player == start_position(field),
        r.state == GameState::new_spec(),
        r.wf(),
{
    let w: i64 = field.width as i64;
    let h: i64 = field.height as i64;
    World {
        field,
        player: Position { x: 400_000 * w, y: 200_000 * h },
        state: GameState::new(),
        score_text: HudText::new(HudRole::Score),
        high_score_text: HudText::new(HudRole::HighScore),
    }
}

impl World {
    /// One frame: the player moves by the keys held for `elapsed_us`
    /// microseconds, a point is scored, and the HUD is brought up to date.
    pub fn tick(&mut self, keys: Keys, elapsed_us: i32)
        requires
            old(self).state.score < u32::MAX,
        ensures
            old(self).wf() ==> final(self).wf(),
            final(self).score_text.role == old(self).score_text.role,
            final(self).high_score_text.role == old(self).high_score_text.role,
            final(self).score_text.text@ == hud_line(
                old(self).score_text.role,
                shown_value(old(self).score_text.role, final(self).state),
            ),
            final(self).high_score_text.text@ == hud_line(
                old(self).high_score_text.role,
                shown_value(old(self).high_score_text.role, final(self).state),
            ),
            final(self).field == old(self).field,
            final(self).player == next_position(
                old(self).field,
                old(self).player,
                keys,
                elapsed_us as int,
            ),
            final(self).state == old(self).state.scored(),
            final(self).field.contains(final(self).player),
    {
        self.player = player_movement(self.field, self.player, keys, elapsed_us);
        self.state.update_score();
        sync_hud(&self.state, &mut self.score_text);
        sync_hud(&self.state, &mut self.high_score_text);
    }
}

} // verus!
