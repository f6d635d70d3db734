use vstd::prelude::*;

verus! {

/// Lives a new game starts with.
pub const START_LIVES: u8 = 3;

/// Score bookkeeping of one game.
#[derive(Clone, Copy, Debug, PartialEq, Eq)]
pub struct GameState {
    pub score: u32,
    pub high_score: u32,
    pub lives: u8,
}

pub open spec fn max(a: int, b: int) -> int {
    if a >= b {
        a
    } else {
        b
    }
}

impl GameState {
    /// The high score is at least the score, and there are at most three lives.
    pub open spec fn wf(self) -> bool {
        self.score <= self.high_score && self.lives <= START_LIVES
    }

    /// The state after one point is scored.
    pub open spec fn scored(self) -> GameState {
        GameState {
            score: (self.score + 1) as u32,
            high_score: max(self.high_score as int, self.score + 1) as u32,
            lives: self.lives,
        }
    }

    pub open spec fn new_spec() -> GameState {
        GameState { score: 0, high_score: 0, lives: START_LIVES }
    }

    /// A new game: no score, no high score, three lives.
    pub fn new() -> (r: GameState)
        ensures
            r == GameState::new_spec(),
            r.score == 0,
            r.high_score == 0,
            r.lives == START_LIVES,
            r.wf(),
    {
        GameState { score: 0, high_score: 0, lives: START_LIVES }
    }

    /// Scores one point, and raises the high score to the score when the score
    /// passes it.
    pub fn update_score(&mut self)
        requires
            old(self).score < u32::MAX,
        ensures
            *final(self) == old(self).scored(),
            final(self).score == old(self).score + 1,
            final(self).high_score == max(old(self).high_score as int, old(self).score + 1),
            final(self).lives == old(self).lives,
            old(self).wf() ==> final(self).wf(),
    {
        self.score = self.score + 1;
        if self.score > self.high_score {
            self.high_score = self.score;
        }
    }
}

/// The state after `n` points are scored from `s`.
pub open spec fn after_updates(s: GameState, n: nat) -> GameState
    decreases n,
{
    if n == 0 {
        s
    } else {
        after_updates(s, (n - 1) as nat).scored()
    }
}

/// The largest score held in the first `n` updates from `s`, `s` included.
pub open spec fn max_score_seen(s: GameState, n: nat) -> int
    decreases n,
{
    if n == 0 {
        s.score as int
    } else {
        max(max_score_seen(s, (n - 1) as nat), after_updates(s, n).score as int)
    }
}

/// Along any run of score updates, the high score is the largest of the high
/// score it started from and every score held so far; from a new game, it is
/// the largest score held so far.
pub proof fn lemma_high_score_is_max(s: GameState, n: nat)
    requires
        s.wf(),
        s.score + n <= u32::MAX,
    ensures
        after_updates(s, n).wf(),
        after_updates(s, n).score == s.score + n,
        after_updates(s, n).high_score == max(s.high_score as int, max_score_seen(s, n)),
        s.score == 0 && s.high_score == 0 ==> after_updates(s, n).high_score == max_score_seen(s, n),
    decreases n,
{
    if n > 0 {
        lemma_high_score_is_max(s, (n - 1) as nat);
    }
}

} // verus!
