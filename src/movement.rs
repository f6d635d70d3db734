use vstd::prelude::*;

verus! {

/// Subunits in one play-field unit.
pub const SUBUNITS_PER_UNIT: i64 = 1_000_000;

/// Player speed: 200 units per second, that is 200 subunits per microsecond.
pub const SPEED: i64 = 200;

/// Width of the default play-field, in units.
pub const WINDOW_WIDTH: u32 = 800;

/// Height of the default play-field, in units.
pub const WINDOW_HEIGHT: u32 = 600;

/// Size of the bordered play-field, in whole units.
#[derive(Clone, Copy, Debug, PartialEq, Eq)]
pub struct PlayField {
    pub width: u32,
    pub height: u32,
}

/// A point of the play-field, in subunits, origin at the centre, y upwards.
#[derive(Clone, Copy, Debug, PartialEq, Eq)]
pub struct Position {
    pub x: i64,
    pub y: i64,
}

/// The directional keys held down during a frame.
#[derive(Clone, Copy, Debug, PartialEq, Eq)]
pub struct Keys {
    pub left: bool,
    pub right: bool,
    pub up: bool,
    pub down: bool,
}

impl PlayField {
    /// Left edge of the player's area: 0.45 of the width left of the centre.
    pub open spec fn min_x(self) -> int {
        -450_000 * self.width
    }

    /// Right edge of the player's area: 0.45 of the width right of the centre.
    pub open spec fn max_x(self) -> int {
        450_000 * self.width
    }

    /// Bottom edge of the player's area: 0.45 of the height below the centre.
    pub open spec fn min_y(self) -> int {
        -450_000 * self.height
    }

    /// Top edge of the player's area: 0.15 of the height above the centre,
    /// below the score banner.
    pub open spec fn max_y(self) -> int {
        150_000 * self.height
    }

    pub open spec fn contains(self, p: Position) -> bool {
        self.min_x() <= p.x <= self.max_x() && self.min_y() <= p.y <= self.max_y()
    }

    /// The default play-field, 800 by 600 units.
    pub fn window() -> (r: PlayField)
        ensures
            r.width == 800,
            r.height == 600,
    {
        PlayField { width: WINDOW_WIDTH, height: WINDOW_HEIGHT }
    }
}

/// Contribution of a pair of opposing keys to one axis: -1, 0 or +1.
pub open spec fn axis(negative: bool, positive: bool) -> int {
    (if positive { 1int } else { 0int }) - (if negative { 1int } else { 0int })
}

impl Keys {
    pub open spec fn dir_x(self) -> int {
        axis(self.left, self.right)
    }

    pub open spec fn dir_y(self) -> int {
        axis(self.down, self.up)
    }

    pub open spec fn is_diagonal(self) -> bool {
        self.dir_x() != 0 && self.dir_y() != 0
    }

    pub open spec fn is_still(self) -> bool {
        self.dir_x() == 0 && self.dir_y() == 0
    }
}

/// Distance covered in `elapsed_us` microseconds, in subunits; no time, no
/// distance.
pub open spec fn travel(elapsed_us: int) -> int {
    if elapsed_us > 0 {
        SPEED * elapsed_us
    } else {
        0
    }
}

/// `s` is `d / sqrt(2)` rounded down: the per-axis step of a diagonal move of
/// length `d`.
pub open spec fn is_half_root(d: int, s: int) -> bool {
    0 <= s && 2 * s * s <= d * d && d * d < 2 * (s + 1) * (s + 1)
}

/// `d / sqrt(2)` rounded down, grown one step of `d` at a time.
pub open spec fn half_root(d: nat) -> nat
    decreases d,
{
    if d == 0 {
        0
    } else {
        let s = half_root((d - 1) as nat);
        if 2 * (s + 1) * (s + 1) <= d * d {
            s + 1
        } else {
            s
        }
    }
}

/// Distance moved along each axis that a key moves: the whole distance for a
/// move along one axis, a fraction 1/sqrt(2) of it on each axis for a diagonal
/// one, so that both have the same length.
pub open spec fn axis_step(keys: Keys, elapsed_us: int) -> int {
    let d = travel(elapsed_us);
    if keys.is_diagonal() {
        half_root(d as nat) as int
    } else {
        d
    }
}

pub open spec fn clamp(v: int, lo: int, hi: int) -> int {
    if v < lo {
        lo
    } else if v > hi {
        hi
    } else {
        v
    }
}

pub open spec fn next_x(field: PlayField, pos: Position, keys: Keys, elapsed_us: int) -> int {
    clamp(pos.x + keys.dir_x() * axis_step(keys, elapsed_us), field.min_x(), field.max_x())
}

pub open spec fn next_y(field: PlayField, pos: Position, keys: Keys, elapsed_us: int) -> int {
    clamp(pos.y + keys.dir_y() * axis_step(keys, elapsed_us), field.min_y(), field.max_y())
}

/// The player's position after one frame (see `player_movement`).
pub open spec fn next_position(field: PlayField, pos: Position, keys: Keys, elapsed_us: int) -> Position {
    Position {
        x: next_x(field, pos, keys, elapsed_us) as i64,
        y: next_y(field, pos, keys, elapsed_us) as i64,
    }
}

/// The player's position after a run of frames, each given by the keys held
/// and the microseconds elapsed.
pub open spec fn after_frames(field: PlayField, pos: Position, frames: Seq<(Keys, int)>) -> Position
    decreases frames.len(),
{
    if frames.len() == 0 {
        pos
    } else {
        let last = frames.last();
        next_position(field, after_frames(field, pos, frames.drop_last()), last.0, last.1)
    }
}

/// At most one value of `s` is `d / sqrt(2)` rounded down.
pub proof fn lemma_half_root_unique(d: int, a: int, b: int)
    requires
        is_half_root(d, a),
        is_half_root(d, b),
    ensures
        a == b,
{
    if a < b {
        assert(false) by (nonlinear_arith)
            requires
                0 <= a,
                a + 1 <= b,
                2 * b * b <= d * d,
                d * d < 2 * (a + 1) * (a + 1),
        ;
    } else if b < a {
        assert(false) by (nonlinear_arith)
            requires
                0 <= b,
                b + 1 <= a,
                2 * a * a <= d * d,
                d * d < 2 * (b + 1) * (b + 1),
        ;
    }
}

/// `half_root(d)` is `d / sqrt(2)` rounded down.
pub proof fn lemma_half_root(d: nat)
    ensures
        is_half_root(d as int, half_root(d) as int),
    decreases d,
{
    if d > 0 {
        let p = (d - 1) as int;
        lemma_half_root((d - 1) as nat);
        let s = half_root((d - 1) as nat) as int;
        assert(p < 2 * (s + 1)) by (nonlinear_arith)
            requires
                0 <= p,
                0 <= s,
                p * p < 2 * (s + 1) * (s + 1),
        ;
        assert(2 * s * s <= d * d) by (nonlinear_arith)
            requires
                0 <= p,
                d == p + 1,
                2 * s * s <= p * p,
        ;
        assert(d * d < 2 * (s + 2) * (s + 2)) by (nonlinear_arith)
            requires
                0 <= p,
                0 <= s,
                d == p + 1,
                p < 2 * (s + 1),
                p * p < 2 * (s + 1) * (s + 1),
        ;
    }
}

/// Largest `s` with `2 * s * s <= d * d`, found by bisection.
fn diagonal_step(d: u64) -> (s: u64)
    requires
        d < 0x100_0000_0000,
    ensures
        is_half_root(d as int, s as int),
        s <= d,
{
    assert(d * d <= 0x100_0000_0000 * 0x100_0000_0000) by (nonlinear_arith)
        requires
            d < 0x100_0000_0000,
    ;
    let dd: u128 = (d as u128) * (d as u128);
    let mut lo: u128 = 0;
    let mut hi: u128 = d as u128 + 1;
    assert(dd < 2 * hi * hi) by (nonlinear_arith)
        requires
            dd == d * d,
            hi == d + 1,
    ;
    while lo + 1 < hi
        invariant
            dd == d * d,
            lo < hi <= d + 1,
            2 * lo * lo <= dd,
            dd < 2 * hi * hi,
            d < 0x100_0000_0000,
        decreases hi - lo,
    {
        let mid: u128 = lo + (hi - lo) / 2;
        assert(2 * mid * mid <= 2 * 0x100_0000_0000 * 0x100_0000_0000) by (nonlinear_arith)
            requires
                mid <= 0x100_0000_0000,
        ;
        if 2 * mid * mid <= dd {
            lo = mid;
        } else {
            hi = mid;
        }
    }
    lo as u64
}

/// The player's position after one frame: each held key adds a unit of
/// direction along its axis (opposing keys cancel), a non-zero direction is
/// scaled to unit length, the player moves along it at `SPEED` for
/// `elapsed_us` microseconds (not at all when that is not positive), and the
/// result is clamped to the player's area of `field`.
pub fn player_movement(field: PlayField, pos: Position, keys: Keys, elapsed_us: i32) -> (r:
    Position)
    ensures
        r.x == next_x(field, pos, keys, elapsed_us as int),
        r.y == next_y(field, pos, keys, elapsed_us as int),
        r == next_position(field, pos, keys, elapsed_us as int),
        field.contains(r),
{
    let dx: i128 = (if keys.right { 1i128 } else { 0i128 }) - (if keys.left { 1i128 } else { 0i128 });
    let dy: i128 = (if keys.up { 1i128 } else { 0i128 }) - (if keys.down { 1i128 } else { 0i128 });
    let d: u64 = if elapsed_us > 0 {
        200 * elapsed_us as u64
    } else {
        0
    };
    let step: u64 = if dx != 0 && dy != 0 {
        let s = diagonal_step(d);
        proof {
            lemma_half_root(d as nat);
            lemma_half_root_unique(d as int, s as int, half_root(d as nat) as int);
        }
        s
    } else {
        d
    };
    assert(dx == keys.dir_x() && dy == keys.dir_y());
    assert(d as int == travel(elapsed_us as int));
    assert(step as int == axis_step(keys, elapsed_us as int));
    let s: i128 = step as i128;
    let x: i128 = pos.x as i128 + if dx > 0 { s } else if dx < 0 { -s } else { 0 };
    let y: i128 = pos.y as i128 + if dy > 0 { s } else if dy < 0 { -s } else { 0 };
    let w: i128 = field.width as i128;
    let h: i128 = field.height as i128;
    let max_x: i128 = 450_000 * w;
    let min_x: i128 = -max_x;
    let min_y: i128 = -(450_000 * h);
    let max_y: i128 = 150_000 * h;
    let cx: i128 = if x < min_x {
        min_x
    } else if x > max_x {
        max_x
    } else {
        x
    };
    let cy: i128 = if y < min_y {
        min_y
    } else if y > max_y {
        max_y
    } else {
        y
    };
    assert(cx == next_x(field, pos, keys, elapsed_us as int));
    assert(cy == next_y(field, pos, keys, elapsed_us as int));
    Position { x: cx as i64, y: cy as i64 }
}

/// The player's area of any play-field holds only coordinates that fit `i64`.
proof fn lemma_area_fits(field: PlayField)
    ensures
        i64::MIN <= field.min_x() && field.max_x() <= i64::MAX,
        i64::MIN <= field.min_y() && field.max_y() <= i64::MAX,
        field.min_x() <= 0 <= field.max_x(),
        field.min_y() <= 0 <= field.max_y(),
{
}

/// Movement keeps the player inside the player's area, whatever the position
/// before, the keys and the time: after a single frame, and after any
/// non-empty run of frames.
pub proof fn lemma_stays_in_area(field: PlayField, pos: Position, frames: Seq<(Keys, int)>)
    requires
        frames.len() > 0,
    ensures
        field.contains(after_frames(field, pos, frames)),
        forall|keys: Keys, t: int| field.contains(#[trigger] next_position(field, pos, keys, t)),
{
    lemma_area_fits(field);
}

/// A frame in which no time has passed leaves a player inside the area where
/// it was.
pub proof fn lemma_no_time_no_move(field: PlayField, pos: Position, keys: Keys, elapsed_us: int)
    requires
        elapsed_us <= 0,
        field.contains(pos),
    ensures
        next_position(field, pos, keys, elapsed_us) == pos,
{
    assert(travel(elapsed_us) == 0);
    assert(half_root(0) == 0);
    assert(axis_step(keys, elapsed_us) == 0);
    assert(keys.dir_x() * 0 == 0 && keys.dir_y() * 0 == 0);
}

/// The direction of movement has unit length: when any direction is held, the
/// move has the length `travel(elapsed_us)` of a move along one axis, exactly
/// when along one axis, and on a diagonal rounded down to the subunit on each
/// axis (one more subunit on each axis would make it longer).
pub proof fn lemma_unit_direction(keys: Keys, elapsed_us: int)
    requires
        !keys.is_still(),
    ensures
        ({
            let s = axis_step(keys, elapsed_us);
            let d = travel(elapsed_us);
            let (dx, dy) = (keys.dir_x(), keys.dir_y());
            &&& (dx * s) * (dx * s) + (dy * s) * (dy * s) <= d * d
            &&& !keys.is_diagonal() ==> (dx * s) * (dx * s) + (dy * s) * (dy * s) == d * d
            &&& keys.is_diagonal() ==> d * d < (dx * (s + 1)) * (dx * (s + 1)) + (dy * (s + 1)) * (
            dy * (s + 1))
        }),
{
    let d = travel(elapsed_us);
    let s = axis_step(keys, elapsed_us);
    lemma_half_root(d as nat);
    lemma_square_of_axis(keys.dir_x(), s);
    lemma_square_of_axis(keys.dir_y(), s);
    lemma_square_of_axis(keys.dir_x(), s + 1);
    lemma_square_of_axis(keys.dir_y(), s + 1);
    assert(2 * s * s == s * s + s * s) by (nonlinear_arith);
    assert(2 * (s + 1) * (s + 1) == (s + 1) * (s + 1) + (s + 1) * (s + 1)) by (nonlinear_arith);
}

proof fn lemma_square_of_axis(a: int, s: int)
    requires
        -1 <= a <= 1,
    ensures
        a == 0 ==> (a * s) * (a * s) == 0,
        a != 0 ==> (a * s) * (a * s) == s * s,
{
    if a == 1 {
        assert(a * s == s);
    } else if a == -1 {
        assert(a * s == -s);
        assert((-s) * (-s) == s * s) by (nonlinear_arith);
    } else {
        assert(a * s == 0);
    }
}

} // verus!
