//! The court and its per-tick simulation: input mapping, rotation,
//! movement integration, shape synchronization and collision resolution,
//! run in a fixed order once per frame with an explicit time delta.

use vstd::prelude::*;

use crate::collision::{overlaps, rect_of, rects_overlap};
use crate::components::{
    BallBundle, GameState, HSide, PlayerBundle, Score, Side, Speed, Transform2, Velocity,
    Wall, WallBundle, WindowSize, start_transform, SPEED_MAX, WIN_THRESHOLD,
};
use crate::input::{Key, KeyState};
use crate::math::{
    cmul, cmul_x, cmul_y, lemma_cmul_in_band, lemma_norm_dir_unit,
    lemma_norm_unit_in_band, norm_dir, norm_unit, normalize, normalize_dir, Vec2,
    COORD_LIMIT, UNIT_HI, UNIT_LO,
};

verus! {

/// Longest frame delta the simulation accepts, in milliseconds.
pub const DT_MAX: u64 = 1_000_000;

/// A spec pair of coordinates as a vector.
pub open spec fn vec2_of(d: (int, int)) -> Vec2 {
    Vec2 { x: d.0 as i64, y: d.1 as i64 }
}

/// The whole game: mode, score and entities. There is exactly one ball;
/// the paddle count is fixed at creation; walls never move.
pub struct World {
    pub state: GameState,
    pub score: Score,
    pub ball: BallBundle,
    pub paddles: Vec<PlayerBundle>,
    pub walls: Vec<WallBundle>,
}

impl World {
    /// Every entity is well-formed, scores stay at or below the win
    /// threshold, and a game in play has not reached it yet.
    pub open spec fn wf(self) -> bool {
        &&& self.score.wf()
        &&& (self.state == GameState::InGame ==> self.score.left < WIN_THRESHOLD
            && self.score.right < WIN_THRESHOLD)
        &&& self.ball.wf()
        &&& forall|i: int|
            0 <= i < self.paddles@.len() ==> (#[trigger] self.paddles@[i]).wf()
        &&& forall|i: int| 0 <= i < self.walls@.len() ==> (#[trigger] self.walls@[i]).wf()
    }

    /// A fresh court fitted to `window`: menu mode, zero score, the ball
    /// at the start transform, one paddle per side, four walls.
    pub fn new(window: &WindowSize) -> (w: World)
        requires
            window.wf(),
        ensures
            w.state == GameState::Menu,
            w.score == (Score { left: 0, right: 0 }),
            w.ball == BallBundle::new_spec(start_transform()),
            w.paddles@.len() == 2,
            w.paddles@[0] == PlayerBundle::left_of(*window),
            w.paddles@[1] == PlayerBundle::right_of(*window),
            w.walls@ == WallBundle::walls_of(*window),
            w.wf(),
    {
        let ball = BallBundle::spawn();
        let walls = WallBundle::spawn(window);
        let mut paddles: Vec<PlayerBundle> = Vec::new();
        paddles.push(PlayerBundle::spawn_left(window));
        paddles.push(PlayerBundle::spawn_right(window));
        World {
            state: GameState::Menu,
            score: Score { left: 0, right: 0 },
            ball,
            paddles,
            walls,
        }
    }
}

// ---------------------------------------------------------------------
// Paddle input mapping
// ---------------------------------------------------------------------

/// The horizontal axis contribution of a paddle's held movement keys:
/// right counts one, left counts minus one.
pub open spec fn paddle_h(p: PlayerBundle, input: KeyState) -> int {
    (if input.spec_pressed(p.keys.right) {
        1int
    } else {
        0int
    }) - (if input.spec_pressed(p.keys.left) {
        1int
    } else {
        0int
    })
}

/// The vertical axis contribution: up counts one, down counts minus one.
pub open spec fn paddle_v(p: PlayerBundle, input: KeyState) -> int {
    (if input.spec_pressed(p.keys.up) {
        1int
    } else {
        0int
    }) - (if input.spec_pressed(p.keys.down) {
        1int
    } else {
        0int
    })
}

/// A paddle's movement direction from its facing and the axis
/// contributions: the held keys add the paddle's local axis directions
/// and the sum is re-normalized; no key (or keys cancelling) gives
/// exactly zero.
pub open spec fn move_dir(facing: Vec2, h: int, v: int) -> (int, int) {
    if h == 0 && v == 0 {
        (0int, 0int)
    } else {
        norm_unit(cmul_x(facing, vec2_of((h, v))), cmul_y(facing, vec2_of((h, v))))
    }
}

/// For any key combination the movement direction is exactly zero when
/// the axis contributions cancel, and otherwise a near-unit vector of
/// scale 1000.
pub proof fn lemma_move_dir_unit(facing: Vec2, h: int, v: int)
    requires
        facing.is_near_unit(),
        -1 <= h <= 1,
        -1 <= v <= 1,
    ensures
        h == 0 && v == 0 ==> move_dir(facing, h, v) == (0int, 0int),
        !(h == 0 && v == 0) ==> ({
            let (dx, dy) = move_dir(facing, h, v);
            UNIT_LO <= dx * dx + dy * dy <= UNIT_HI && -1000 <= dx <= 1000 && -1000 <= dy
                <= 1000
        }),
{
    if !(h == 0 && v == 0) {
        let c = vec2_of((h, v));
        lemma_cmul_in_band(facing, c);
        lemma_norm_unit_in_band(cmul_x(facing, c), cmul_y(facing, c));
    }
}

/// A paddle after input mapping: only its velocity changes.
pub open spec fn moved_paddle(p: PlayerBundle, input: KeyState) -> PlayerBundle {
    PlayerBundle {
        velocity: Velocity(vec2_of(move_dir(p.transform.facing, paddle_h(p, input), paddle_v(p, input)))),
        ..p
    }
}

/// Computes a movement direction from a facing and the two axis
/// contributions.
fn move_dir_exec(facing: Vec2, h: i64, v: i64) -> (r: Vec2)
    requires
        facing.is_near_unit(),
        facing.bounded(1001),
        -1 <= h <= 1,
        -1 <= v <= 1,
    ensures
        (r.x as int, r.y as int) == move_dir(facing, h as int, v as int),
        r == vec2_of(move_dir(facing, h as int, v as int)),
        r.bounded(1000),
        h == 0 && v == 0 ==> r == (Vec2 { x: 0, y: 0 }),
        !(h == 0 && v == 0) ==> r.is_near_unit(),
{
    if h == 0 && v == 0 {
        Vec2 { x: 0, y: 0 }
    } else {
        let c = Vec2 { x: h, y: v };
        let g = cmul(facing, c);
        proof {
            lemma_cmul_in_band(facing, c);
            lemma_norm_unit_in_band(g.x as int, g.y as int);
        }
        normalize(g)
    }
}

/// Maps the held keys of every paddle to its velocity for this frame.
#[verifier::loop_isolation(false)]
pub fn move_paddle(world: &mut World, input: &KeyState)
    requires
        old(world).wf(),
    ensures
        final(world).wf(),
        final(world).paddles@.len() == old(world).paddles@.len(),
        forall|i: int|
            0 <= i < old(world).paddles@.len() ==> final(world).paddles@[i]
                == moved_paddle(#[trigger] old(world).paddles@[i], *input),
        final(world).ball == old(world).ball,
        final(world).walls == old(world).walls,
        final(world).score == old(world).score,
        final(world).state == old(world).state,
{
    let n = world.paddles.len();
    let mut i: usize = 0;
    while i < n
        invariant
            i <= n,
            world.paddles@.len() == n,
            forall|j: int|
                0 <= j < i ==> world.paddles@[j] == moved_paddle(
                    #[trigger] old(world).paddles@[j],
                    *input,
                ),
            forall|j: int| 0 <= j < i ==> (#[trigger] world.paddles@[j]).wf(),
            forall|j: int| i <= j < n ==> world.paddles@[j] == old(world).paddles@[j],
            world.ball == old(world).ball,
            world.walls == old(world).walls,
            world.score == old(world).score,
            world.state == old(world).state,
        decreases n - i,
    {
        let p = world.paddles[i];
        let hr = input.pressed(p.keys.right);
        let hl = input.pressed(p.keys.left);
        let vu = input.pressed(p.keys.up);
        let vd = input.pressed(p.keys.down);
        let h: i64 = (if hr {
            1
        } else {
            0
        }) - (if hl {
            1
        } else {
            0
        });
        let v: i64 = (if vu {
            1
        } else {
            0
        }) - (if vd {
            1
        } else {
            0
        });
        let dir = move_dir_exec(p.transform.facing, h, v);
        world.paddles[i] = PlayerBundle { velocity: Velocity(dir), ..p };
        i = i + 1;
    }
}

// ---------------------------------------------------------------------
// Paddle rotation
// ---------------------------------------------------------------------

/// The rotor of a turn whose tangent is `s` at scale 1000: per frame a
/// rotation key contributes `s == 2 * dt`, the fixed-point rendering of
/// two radians per second.
pub open spec fn rotor(s: int) -> Vec2 {
    Vec2 { x: 1000, y: s as i64 }
}

/// A facing after one rotation step: the complex product with the rotor,
/// normalized back to scale 1000.
pub open spec fn rotated_facing(f: Vec2, s: int) -> (int, int) {
    norm_unit(cmul_x(f, rotor(s)), cmul_y(f, rotor(s)))
}

/// Applies one rotation step to a facing.
fn rotate_facing(f: Vec2, s: i64) -> (r: Vec2)
    requires
        f.is_near_unit(),
        f.bounded(1001),
        -2_000_000 <= s <= 2_000_000,
    ensures
        (r.x as int, r.y as int) == rotated_facing(f, s as int),
        r == vec2_of(rotated_facing(f, s as int)),
        r.is_near_unit(),
        r.bounded(1001),
{
    let c = Vec2 { x: 1000, y: s };
    let g = cmul(f, c);
    proof {
        lemma_cmul_in_band(f, c);
        lemma_norm_unit_in_band(g.x as int, g.y as int);
    }
    normalize(g)
}

/// A paddle after its rotation keys are applied: each held rotation key
/// turns the facing by one rotor step, the first key toward positive
/// orientation, the second toward negative.
pub open spec fn rotated_paddle(p: PlayerBundle, input: KeyState, dt: int) -> PlayerBundle {
    let f1 = if input.spec_pressed(p.keys.rot_1) {
        vec2_of(rotated_facing(p.transform.facing, 2 * dt))
    } else {
        p.transform.facing
    };
    let f2 = if input.spec_pressed(p.keys.rot_2) {
        vec2_of(rotated_facing(f1, -(2 * dt)))
    } else {
        f1
    };
    PlayerBundle {
        transform: Transform2 { translation: p.transform.translation, facing: f2 },
        changed: p.changed || input.spec_pressed(p.keys.rot_1) || input.spec_pressed(
            p.keys.rot_2,
        ),
        ..p
    }
}

/// Turns every paddle by its held rotation keys.
#[verifier::loop_isolation(false)]
pub fn rotate_paddle(world: &mut World, input: &KeyState, dt: u64)
    requires
        old(world).wf(),
        dt <= DT_MAX,
    ensures
        final(world).wf(),
        final(world).paddles@.len() == old(world).paddles@.len(),
        forall|i: int|
            0 <= i < old(world).paddles@.len() ==> final(world).paddles@[i]
                == rotated_paddle(#[trigger] old(world).paddles@[i], *input, dt as int),
        final(world).ball == old(world).ball,
        final(world).walls == old(world).walls,
        final(world).score == old(world).score,
        final(world).state == old(world).state,
{
    let n = world.paddles.len();
    let mut i: usize = 0;
    while i < n
        invariant
            i <= n,
            world.paddles@.len() == n,
            forall|j: int|
                0 <= j < i ==> world.paddles@[j] == rotated_paddle(
                    #[trigger] old(world).paddles@[j],
                    *input,
                    dt as int,
                ),
            forall|j: int| 0 <= j < i ==> (#[trigger] world.paddles@[j]).wf(),
            forall|j: int| i <= j < n ==> world.paddles@[j] == old(world).paddles@[j],
            world.ball == old(world).ball,
            world.walls == old(world).walls,
            world.score == old(world).score,
            world.state == old(world).state,
        decreases n - i,
    {
        let p = world.paddles[i];
        let r1 = input.pressed(p.keys.rot_1);
        let r2 = input.pressed(p.keys.rot_2);
        let mut facing = p.transform.facing;
        if r1 {
            facing = rotate_facing(facing, 2 * (dt as i64));
        }
        if r2 {
            facing = rotate_facing(facing, -(2 * (dt as i64)));
        }
        world.paddles[i] = PlayerBundle {
            transform: Transform2 { translation: p.transform.translation, facing },
            changed: p.changed || r1 || r2,
            ..p
        };
        i = i + 1;
    }
}

// ---------------------------------------------------------------------
// Movement integration
// ---------------------------------------------------------------------

/// Clamps a coordinate into the simulation's range.
pub open spec fn clamp_coord(x: int) -> int {
    if x < -(COORD_LIMIT as int) {
        -(COORD_LIMIT as int)
    } else if x > COORD_LIMIT as int {
        COORD_LIMIT as int
    } else {
        x
    }
}

/// The displacement one tick adds to a coordinate, in milli-units:
/// direction (scale 1000) times speed (units per second) times dt
/// (milliseconds), divided by 1000, truncating toward zero.
pub open spec fn disp_milli(d: int, speed: int, dt: int) -> int {
    if d >= 0 {
        d * speed * dt / 1000
    } else {
        -((-d) * speed * dt / 1000)
    }
}

/// A coordinate after one tick: moved by the displacement and clamped
/// into the coordinate range.
pub open spec fn stepped(p: int, d: int, speed: int, dt: int) -> int {
    clamp_coord(p + disp_milli(d, speed, dt))
}

/// One tick moves a coordinate by exactly `direction * speed * dt /
/// 1000` whenever the result stays inside the coordinate range.
pub proof fn lemma_step_exact(p: int, d: int, speed: int, dt: int)
    requires
        -(COORD_LIMIT as int) <= p + disp_milli(d, speed, dt) <= COORD_LIMIT as int,
    ensures
        stepped(p, d, speed, dt) == p + disp_milli(d, speed, dt),
{
}

/// Steps one coordinate of a transform.
fn step_coord(p: i64, d: i64, speed: i64, dt: u64) -> (r: i64)
    requires
        -1001 <= d <= 1001,
        0 <= speed <= SPEED_MAX,
        dt <= DT_MAX,
        -COORD_LIMIT <= p <= COORD_LIMIT,
    ensures
        r == stepped(p as int, d as int, speed as int, dt as int),
        -COORD_LIMIT <= r <= COORD_LIMIT,
{
    let dm: u64 = if d >= 0 {
        d as u64
    } else {
        (-d) as u64
    };
    proof {
        assert(dm * (speed as u64) <= 1001 * 1_000_000 && dm as int * (speed as int) * (
        dt as int) <= 1001 * 1_000_000 * 1_000_000) by (nonlinear_arith)
            requires
                0 <= dm <= 1001,
                0 <= speed <= 1_000_000,
                0 <= dt <= 1_000_000,
        ;
    }
    let scaled: u64 = dm * (speed as u64) * dt / 1000;
    let delta: i64 = if d >= 0 {
        scaled as i64
    } else {
        -(scaled as i64)
    };
    let q: i64 = p + delta;
    if q < -COORD_LIMIT {
        -COORD_LIMIT
    } else if q > COORD_LIMIT {
        COORD_LIMIT
    } else {
        q
    }
}

/// A transform after one tick of its velocity and speed.
pub open spec fn advanced(t: Transform2, v: Velocity, s: Speed, dt: int) -> Transform2 {
    Transform2 {
        translation: Vec2 {
            x: stepped(t.translation.x as int, v.0.x as int, s.0 as int, dt) as i64,
            y: stepped(t.translation.y as int, v.0.y as int, s.0 as int, dt) as i64,
        },
        facing: t.facing,
    }
}

/// The ball after one tick of movement.
pub open spec fn ball_advanced(b: BallBundle, dt: int) -> BallBundle {
    BallBundle { transform: advanced(b.transform, b.velocity, b.speed, dt), changed: true, ..b }
}

/// A paddle after one tick of movement.
pub open spec fn paddle_advanced(p: PlayerBundle, dt: int) -> PlayerBundle {
    PlayerBundle { transform: advanced(p.transform, p.velocity, p.speed, dt), changed: true, ..p }
}

/// Advances every moving entity by `velocity * speed * dt`: the ball and
/// the paddles; walls have no velocity.
#[verifier::loop_isolation(false)]
pub fn apply_velocity(world: &mut World, dt: u64)
    requires
        old(world).wf(),
        dt <= DT_MAX,
    ensures
        final(world).wf(),
        final(world).ball == ball_advanced(old(world).ball, dt as int),
        final(world).paddles@.len() == old(world).paddles@.len(),
        forall|i: int|
            0 <= i < old(world).paddles@.len() ==> final(world).paddles@[i]
                == paddle_advanced(#[trigger] old(world).paddles@[i], dt as int),
        final(world).walls == old(world).walls,
        final(world).score == old(world).score,
        final(world).state == old(world).state,
{
    let b = world.ball;
    let bx = step_coord(b.transform.translation.x, b.velocity.0.x, b.speed.0, dt);
    let by = step_coord(b.transform.translation.y, b.velocity.0.y, b.speed.0, dt);
    world.ball = BallBundle {
        transform: Transform2 {
            translation: Vec2 { x: bx, y: by },
            facing: b.transform.facing,
        },
        changed: true,
        ..b
    };
    let n = world.paddles.len();
    let mut i: usize = 0;
    while i < n
        invariant
            i <= n,
            world.paddles@.len() == n,
            forall|j: int|
                0 <= j < i ==> world.paddles@[j] == paddle_advanced(
                    #[trigger] old(world).paddles@[j],
                    dt as int,
                ),
            forall|j: int| 0 <= j < i ==> (#[trigger] world.paddles@[j]).wf(),
            forall|j: int| i <= j < n ==> world.paddles@[j] == old(world).paddles@[j],
            world.ball == ball_advanced(old(world).ball, dt as int),
            world.walls == old(world).walls,
            world.score == old(world).score,
            world.state == old(world).state,
        decreases n - i,
    {
        let p = world.paddles[i];
        let px = step_coord(p.transform.translation.x, p.velocity.0.x, p.speed.0, dt);
        let py = step_coord(p.transform.translation.y, p.velocity.0.y, p.speed.0, dt);
        world.paddles[i] = PlayerBundle {
            transform: Transform2 {
                translation: Vec2 { x: px, y: py },
                facing: p.transform.facing,
            },
            changed: true,
            ..p
        };
        i = i + 1;
    }
}

// ---------------------------------------------------------------------
// Shape synchronization
// ---------------------------------------------------------------------

/// The ball with its collision rectangle re-derived from the current
/// transform, but only when the transform changed since the last
/// synchronization.
pub open spec fn synced_ball(b: BallBundle) -> BallBundle {
    if b.changed {
        BallBundle { shape: rect_of(b.transform, b.size), changed: false, ..b }
    } else {
        b
    }
}

/// A paddle with its collision rectangle re-derived when needed.
pub open spec fn synced_paddle(p: PlayerBundle) -> PlayerBundle {
    if p.changed {
        PlayerBundle { shape: rect_of(p.transform, p.size), changed: false, ..p }
    } else {
        p
    }
}

/// A wall with its collision rectangle re-derived when needed; after the
/// first synchronization walls never change again.
pub open spec fn synced_wall(w: WallBundle) -> WallBundle {
    if w.changed {
        WallBundle { shape: rect_of(w.transform, w.size), changed: false, ..w }
    } else {
        w
    }
}

/// Re-derives the collision rectangle of every entity whose transform
/// changed since the previous frame, and marks it synchronized.
#[verifier::loop_isolation(false)]
pub fn update_shape_transforms(world: &mut World)
    requires
        old(world).wf(),
    ensures
        final(world).wf(),
        final(world).ball == synced_ball(old(world).ball),
        final(world).paddles@.len() == old(world).paddles@.len(),
        forall|i: int|
            0 <= i < old(world).paddles@.len() ==> final(world).paddles@[i]
                == synced_paddle(#[trigger] old(world).paddles@[i]),
        final(world).walls@.len() == old(world).walls@.len(),
        forall|i: int|
            0 <= i < old(world).walls@.len() ==> final(world).walls@[i] == synced_wall(
                #[trigger] old(world).walls@[i],
            ),
        final(world).score == old(world).score,
        final(world).state == old(world).state,
{
    if world.ball.changed {
        let b = world.ball;
        let shape = crate::collision::rect_from(&b.transform, &b.size);
        world.ball = BallBundle { shape, changed: false, ..b };
    }
    let n = world.paddles.len();
    let mut i: usize = 0;
    while i < n
        invariant
            i <= n,
            world.paddles@.len() == n,
            forall|j: int|
                0 <= j < i ==> world.paddles@[j] == synced_paddle(
                    #[trigger] old(world).paddles@[j],
                ),
            forall|j: int| 0 <= j < i ==> (#[trigger] world.paddles@[j]).wf(),
            forall|j: int| i <= j < n ==> world.paddles@[j] == old(world).paddles@[j],
            world.ball == synced_ball(old(world).ball),
            world.walls == old(world).walls,
            world.score == old(world).score,
            world.state == old(world).state,
        decreases n - i,
    {
        let p = world.paddles[i];
        if p.changed {
            let shape = crate::collision::rect_from(&p.transform, &p.size);
            world.paddles[i] = PlayerBundle { shape, changed: false, ..p };
        }
        i = i + 1;
    }
    let m = world.walls.len();
    let mut k: usize = 0;
    while k < m
        invariant
            k <= m,
            world.walls@.len() == m,
            forall|j: int|
                0 <= j < k ==> world.walls@[j] == synced_wall(
                    #[trigger] old(world).walls@[j],
                ),
            forall|j: int| 0 <= j < k ==> (#[trigger] world.walls@[j]).wf(),
            forall|j: int| k <= j < m ==> world.walls@[j] == old(world).walls@[j],
            world.ball == synced_ball(old(world).ball),
            world.paddles@.len() == old(world).paddles@.len(),
            forall|j: int|
                0 <= j < old(world).paddles@.len() ==> world.paddles@[j] == synced_paddle(
                    #[trigger] old(world).paddles@[j],
                ),
            forall|j: int|
                0 <= j < old(world).paddles@.len() ==> (#[trigger] world.paddles@[j]).wf(),
            world.score == old(world).score,
            world.state == old(world).state,
        decreases m - k,
    {
        let w = world.walls[k];
        if w.changed {
            let shape = crate::collision::rect_from(&w.transform, &w.size);
            world.walls[k] = WallBundle { shape, changed: false, ..w };
        }
        k = k + 1;
    }
}

// ---------------------------------------------------------------------
// Collision resolution
// ---------------------------------------------------------------------

/// The ball's velocity after touching a paddle: the unit direction from
/// the paddle's center to the ball's center; when the centers coincide
/// the contact leaves the velocity alone.
pub open spec fn paddle_bounce(b: BallBundle, p: PlayerBundle) -> BallBundle {
    let dx = b.transform.translation.x - p.transform.translation.x;
    let dy = b.transform.translation.y - p.transform.translation.y;
    if dx == 0 && dy == 0 {
        b
    } else {
        BallBundle { velocity: Velocity(vec2_of(norm_dir(dx, dy))), ..b }
    }
}

/// A paddle contact keeps the ball's velocity a unit direction: for any
/// distinct centers the new velocity lies in the unit band, however
/// close they are, and for coinciding centers the velocity is unchanged.
pub proof fn lemma_paddle_bounce_unit(b: BallBundle, p: PlayerBundle)
    ensures
        b.transform.translation == p.transform.translation ==> paddle_bounce(b, p) == b,
        b.transform.translation != p.transform.translation ==> paddle_bounce(
            b,
            p,
        ).velocity.0.is_near_unit(),
{
    let dx = b.transform.translation.x - p.transform.translation.x;
    let dy = b.transform.translation.y - p.transform.translation.y;
    if b.transform.translation != p.transform.translation {
        lemma_norm_dir_unit(dx, dy);
    }
}

/// One paddle's effect on the ball this frame: a bounce when their
/// collision rectangles overlap.
pub open spec fn after_paddle(b: BallBundle, p: PlayerBundle) -> BallBundle {
    if rects_overlap(b.shape, p.shape) {
        paddle_bounce(b, p)
    } else {
        b
    }
}

/// The ball after the first `n` paddles are tested, in order.
pub open spec fn after_paddles(b: BallBundle, ps: Seq<PlayerBundle>, n: int) -> BallBundle
    decreases n,
{
    if n <= 0 {
        b
    } else {
        after_paddle(after_paddles(b, ps, n - 1), ps[n - 1])
    }
}

/// A horizontal wall inverts the vertical velocity only when the ball
/// moves toward the wall, so contact lasting several frames does not
/// flip the ball back and forth.
pub open spec fn horizontal_bounce(b: BallBundle, h: HSide) -> BallBundle {
    let toward = match h {
        HSide::Top => b.velocity.0.y > 0,
        HSide::Bottom => b.velocity.0.y < 0,
    };
    if toward {
        BallBundle {
            velocity: Velocity(Vec2 { x: b.velocity.0.x, y: (-b.velocity.0.y) as i64 }),
            ..b
        }
    } else {
        b
    }
}

/// The ball after a score: back at the start transform with the fixed
/// diagonal heading; its collision rectangle waits for the next
/// synchronization.
pub open spec fn reset_ball(b: BallBundle) -> BallBundle {
    BallBundle {
        velocity: Velocity(Vec2 { x: 707, y: 707 }),
        transform: start_transform(),
        changed: true,
        ..b
    }
}

/// A wall contact's outcome. Horizontal walls bounce the ball. Vertical
/// walls score for the opposing side, reset the ball, and end the game
/// when the winner reaches the threshold; they score only while a game
/// is in play, so once the threshold sends the state back to the menu a
/// further contact in the same frame changes nothing.
pub open spec fn wall_contact(b: BallBundle, score: Score, state: GameState, w: Wall) -> (
    BallBundle,
    Score,
    GameState,
) {
    match w {
        Wall::Horizontal(h) => (horizontal_bounce(b, h), score, state),
        Wall::Vertical(side) => {
            if state == GameState::InGame {
                match side {
                    Side::Left => {
                        let s2 = Score {
                            left: score.left,
                            right: (score.right + 1) as usize,
                        };
                        (
                            reset_ball(b),
                            s2,
                            if s2.right >= WIN_THRESHOLD {
                                GameState::Menu
                            } else {
                                GameState::InGame
                            },
                        )
                    },
                    Side::Right => {
                        let s2 = Score {
                            left: (score.left + 1) as usize,
                            right: score.right,
                        };
                        (
                            reset_ball(b),
                            s2,
                            if s2.left >= WIN_THRESHOLD {
                                GameState::Menu
                            } else {
                                GameState::InGame
                            },
                        )
                    },
                }
            } else {
                (b, score, state)
            }
        },
    }
}

/// Ball, score and state after the first `n` walls are tested, in order.
pub open spec fn after_walls(
    b: BallBundle,
    score: Score,
    state: GameState,
    ws: Seq<WallBundle>,
    n: int,
) -> (BallBundle, Score, GameState)
    decreases n,
{
    if n <= 0 {
        (b, score, state)
    } else {
        let (b1, s1, st1) = after_walls(b, score, state, ws, n - 1);
        let w = ws[n - 1];
        if rects_overlap(w.shape, b1.shape) {
            wall_contact(b1, s1, st1, w.tag)
        } else {
            (b1, s1, st1)
        }
    }
}

/// Paddles whose rectangles do not meet the ball's leave it untouched.
pub proof fn lemma_after_paddles_no_contact(b: BallBundle, ps: Seq<PlayerBundle>, n: int)
    requires
        0 <= n <= ps.len(),
        forall|j: int| 0 <= j < n ==> !rects_overlap(b.shape, (#[trigger] ps[j]).shape),
    ensures
        after_paddles(b, ps, n) == b,
    decreases n,
{
    if 0 < n {
        lemma_after_paddles_no_contact(b, ps, n - 1);
    }
}

/// Paddles from `m` to `n` whose rectangles do not meet the ball's leave
/// the fold where it stands.
proof fn lemma_after_paddles_extend(b: BallBundle, ps: Seq<PlayerBundle>, m: int, n: int)
    requires
        0 <= m <= n <= ps.len(),
        forall|j: int|
            m <= j < n ==> !rects_overlap(
                after_paddles(b, ps, m).shape,
                (#[trigger] ps[j]).shape,
            ),
    ensures
        after_paddles(b, ps, n) == after_paddles(b, ps, m),
    decreases n - m,
{
    if m < n {
        lemma_after_paddles_extend(b, ps, m, n - 1);
    }
}

/// When exactly one paddle meets the ball's rectangle, resolving a
/// frame's paddle contacts is exactly that paddle's bounce: the ball's
/// velocity turns away from the paddle's center and nothing else of the
/// ball changes. A bounce never moves the ball's collision rectangle, so
/// the remaining paddles still miss it.
pub proof fn lemma_single_paddle_contact(b: BallBundle, ps: Seq<PlayerBundle>, hit: int)
    requires
        0 <= hit < ps.len(),
        rects_overlap(b.shape, ps[hit].shape),
        forall|j: int|
            0 <= j < ps.len() && j != hit ==> !rects_overlap(
                b.shape,
                (#[trigger] ps[j]).shape,
            ),
    ensures
        after_paddles(b, ps, ps.len() as int) == paddle_bounce(b, ps[hit]),
{
    assert(after_paddles(b, ps, 0) == b);
    lemma_after_paddles_extend(b, ps, 0, hit);
    assert(after_paddles(b, ps, hit + 1) == paddle_bounce(b, ps[hit]));
    assert(paddle_bounce(b, ps[hit]).shape == b.shape);
    lemma_after_paddles_extend(b, ps, hit + 1, ps.len() as int);
}

/// Walls from `m` to `n` that do not meet the ball's rectangle leave the
/// fold where it stands.
proof fn lemma_after_walls_extend(
    b: BallBundle,
    score: Score,
    state: GameState,
    ws: Seq<WallBundle>,
    m: int,
    n: int,
)
    requires
        0 <= m <= n <= ws.len(),
        forall|j: int|
            m <= j < n ==> !rects_overlap(
                (#[trigger] ws[j]).shape,
                after_walls(b, score, state, ws, m).0.shape,
            ),
    ensures
        after_walls(b, score, state, ws, n) == after_walls(b, score, state, ws, m),
    decreases n - m,
{
    if m < n {
        lemma_after_walls_extend(b, score, state, ws, m, n - 1);
    }
}

/// Walls whose rectangles do not meet the ball's leave ball, score and
/// state untouched.
pub proof fn lemma_after_walls_no_contact(
    b: BallBundle,
    score: Score,
    state: GameState,
    ws: Seq<WallBundle>,
    n: int,
)
    requires
        0 <= n <= ws.len(),
        forall|j: int| 0 <= j < n ==> !rects_overlap((#[trigger] ws[j]).shape, b.shape),
    ensures
        after_walls(b, score, state, ws, n) == (b, score, state),
{
    lemma_after_walls_extend(b, score, state, ws, 0, n);
}

/// When exactly one wall meets the ball's rectangle, resolving a frame's
/// wall contacts is exactly that wall's contact: a horizontal wall
/// bounces the ball (under the directional guard), a vertical wall
/// scores, resets the ball and applies the win threshold, and every
/// other wall changes nothing. A contact never moves the ball's
/// collision rectangle, so the remaining walls still miss it.
pub proof fn lemma_single_wall_contact(
    b: BallBundle,
    score: Score,
    state: GameState,
    ws: Seq<WallBundle>,
    hit: int,
)
    requires
        0 <= hit < ws.len(),
        rects_overlap(ws[hit].shape, b.shape),
        forall|j: int|
            0 <= j < ws.len() && j != hit ==> !rects_overlap(
                (#[trigger] ws[j]).shape,
                b.shape,
            ),
    ensures
        after_walls(b, score, state, ws, ws.len() as int) == wall_contact(
            b,
            score,
            state,
            ws[hit].tag,
        ),
{
    assert(after_walls(b, score, state, ws, 0) == (b, score, state));
    lemma_after_walls_extend(b, score, state, ws, 0, hit);
    assert(after_walls(b, score, state, ws, hit + 1) == wall_contact(
        b,
        score,
        state,
        ws[hit].tag,
    ));
    assert(wall_contact(b, score, state, ws[hit].tag).0.shape == b.shape);
    lemma_after_walls_extend(b, score, state, ws, hit + 1, ws.len() as int);
}

/// A left-wall contact during play: the right score rises by exactly
/// one, the ball returns to the start transform with the fixed diagonal
/// heading, and reaching the win threshold ends the game.
pub proof fn lemma_left_wall_scores(b: BallBundle, score: Score, state: GameState)
    requires
        state == GameState::InGame,
        score.right < WIN_THRESHOLD,
    ensures
        ({
            let (b2, s2, st2) = wall_contact(b, score, state, Wall::Vertical(Side::Left));
            &&& s2.right == score.right + 1
            &&& s2.left == score.left
            &&& b2.transform == start_transform()
            &&& b2.velocity == Velocity(Vec2 { x: 707, y: 707 })
            &&& st2 == (if score.right + 1 >= WIN_THRESHOLD {
                GameState::Menu
            } else {
                GameState::InGame
            })
        }),
{
}

/// A top-wall contact with upward motion flips the vertical velocity
/// and keeps the horizontal; a second contact test in the same overlap
/// leaves the velocity alone, because the ball then moves away from the
/// wall.
pub proof fn lemma_top_wall_bounce(b: BallBundle)
    requires
        b.velocity.0.y > 0,
    ensures
        ({
            let b1 = horizontal_bounce(b, HSide::Top);
            &&& b1.velocity.0.y == -b.velocity.0.y
            &&& b1.velocity.0.x == b.velocity.0.x
            &&& b1.transform == b.transform
            &&& horizontal_bounce(b1, HSide::Top) == b1
        }),
{
}

/// Resolves this frame's contacts: the ball against each paddle, then
/// the ball against each wall, in order; paddle contact redirects the
/// ball away from the paddle's center, wall contact bounces or scores.
#[verifier::loop_isolation(false)]
pub fn check_collisions(world: &mut World)
    requires
        old(world).wf(),
    ensures
        final(world).wf(),
        final(world).paddles == old(world).paddles,
        final(world).walls == old(world).walls,
        ({
            let mid = after_paddles(
                old(world).ball,
                old(world).paddles@,
                old(world).paddles@.len() as int,
            );
            let (b2, s2, st2) = after_walls(
                mid,
                old(world).score,
                old(world).state,
                old(world).walls@,
                old(world).walls@.len() as int,
            );
            final(world).ball == b2 && final(world).score == s2 && final(world).state
                == st2
        }),
{
    let n = world.paddles.len();
    let mut i: usize = 0;
    while i < n
        invariant
            i <= n,
            world.ball == after_paddles(old(world).ball, old(world).paddles@, i as int),
            world.ball.wf(),
            world.paddles == old(world).paddles,
            world.walls == old(world).walls,
            world.score == old(world).score,
            world.state == old(world).state,
        decreases n - i,
    {
        let p = world.paddles[i];
        let hit = overlaps(&world.ball.shape, &p.shape);
        if hit {
            let b = world.ball;
            let dx: i64 = b.transform.translation.x - p.transform.translation.x;
            let dy: i64 = b.transform.translation.y - p.transform.translation.y;
            if !(dx == 0 && dy == 0) {
                let dir = normalize_dir(Vec2 { x: dx, y: dy });
                world.ball = BallBundle { velocity: Velocity(dir), ..b };
            }
        }
        proof {
            assert(world.ball == after_paddles(
                old(world).ball,
                old(world).paddles@,
                i + 1 as int,
            ));
        }
        i = i + 1;
    }
    let ghost mid = world.ball;
    let m = world.walls.len();
    let mut k: usize = 0;
    while k < m
        invariant
            k <= m,
            (world.ball, world.score, world.state) == after_walls(
                mid,
                old(world).score,
                old(world).state,
                old(world).walls@,
                k as int,
            ),
            world.ball.wf(),
            world.score.wf(),
            world.state == GameState::InGame ==> world.score.left < WIN_THRESHOLD
                && world.score.right < WIN_THRESHOLD,
            world.paddles == old(world).paddles,
            world.walls == old(world).walls,
        decreases m - k,
    {
        let w = world.walls[k];
        let hit = overlaps(&w.shape, &world.ball.shape);
        if hit {
            match w.tag {
                Wall::Horizontal(h) => {
                    let b = world.ball;
                    let toward = match h {
                        HSide::Top => b.velocity.0.y > 0,
                        HSide::Bottom => b.velocity.0.y < 0,
                    };
                    if toward {
                        let flipped = Vec2 { x: b.velocity.0.x, y: -b.velocity.0.y };
                        proof {
                            assert(flipped.len_sq() == b.velocity.0.len_sq())
                                by (nonlinear_arith)
                                requires
                                    flipped.x == b.velocity.0.x,
                                    flipped.y == -(b.velocity.0.y as int),
                            ;
                        }
                        world.ball = BallBundle { velocity: Velocity(flipped), ..b };
                    }
                },
                Wall::Vertical(side) => {
                    match world.state {
                        GameState::InGame => {
                            match side {
                                Side::Left => {
                                    world.score = Score {
                                        left: world.score.left,
                                        right: world.score.right + 1,
                                    };
                                    if world.score.right >= WIN_THRESHOLD {
                                        world.state = GameState::Menu;
                                    }
                                },
                                Side::Right => {
                                    world.score = Score {
                                        left: world.score.left + 1,
                                        right: world.score.right,
                                    };
                                    if world.score.left >= WIN_THRESHOLD {
                                        world.state = GameState::Menu;
                                    }
                                },
                            }
                            let b = world.ball;
                            let diagonal = Vec2 { x: 707, y: 707 };
                            proof {
                                assert(diagonal.len_sq() == 999_698) by (nonlinear_arith)
                                    requires
                                        diagonal.x == 707,
                                        diagonal.y == 707,
                                ;
                            }
                            world.ball = BallBundle {
                                velocity: Velocity(diagonal),
                                transform: Transform2 {
                                    translation: Vec2 { x: 0, y: 0 },
                                    facing: diagonal,
                                },
                                changed: true,
                                ..b
                            };
                        },
                        GameState::Menu => {},
                    }
                },
            }
        }
        proof {
            assert((world.ball, world.score, world.state) == after_walls(
                mid,
                old(world).score,
                old(world).state,
                old(world).walls@,
                k + 1 as int,
            ));
        }
        k = k + 1;
    }
}

// ---------------------------------------------------------------------
// The tick
// ---------------------------------------------------------------------

/// Runs one frame. In the menu, the start key begins a game and zeroes
/// both score counters. In play, the systems run in their documented
/// order: input mapping, rotation, movement integration with the
/// explicit frame delta `dt` (milliseconds), shape synchronization, then
/// collision resolution with scoring and the threshold transition.
pub fn tick(world: &mut World, input: &KeyState, dt: u64)
    requires
        old(world).wf(),
        dt <= DT_MAX,
    ensures
        final(world).wf(),
        old(world).state == GameState::Menu && input.spec_pressed(Key::Return) ==> ({
            &&& final(world).state == GameState::InGame
            &&& final(world).score == (Score { left: 0, right: 0 })
            &&& final(world).ball == old(world).ball
            &&& final(world).paddles == old(world).paddles
            &&& final(world).walls == old(world).walls
        }),
        old(world).state == GameState::Menu && !input.spec_pressed(Key::Return)
            ==> *final(world) == *old(world),
        old(world).state == GameState::InGame ==> ({
            let len = old(world).paddles@.len() as int;
            let wlen = old(world).walls@.len() as int;
            &&& final(world).paddles@.len() == len
            &&& final(world).walls@.len() == wlen
            &&& (forall|i: int|
                0 <= i < len ==> final(world).paddles@[i] == synced_paddle(
                    paddle_advanced(
                        rotated_paddle(
                            moved_paddle(#[trigger] old(world).paddles@[i], *input),
                            *input,
                            dt as int,
                        ),
                        dt as int,
                    ),
                ))
            &&& (forall|i: int|
                0 <= i < wlen ==> final(world).walls@[i] == synced_wall(
                    #[trigger] old(world).walls@[i],
                ))
            &&& ({
                let b_mid = after_paddles(
                    synced_ball(ball_advanced(old(world).ball, dt as int)),
                    final(world).paddles@,
                    len,
                );
                let (b2, s2, st2) = after_walls(
                    b_mid,
                    old(world).score,
                    old(world).state,
                    final(world).walls@,
                    wlen,
                );
                final(world).ball == b2 && final(world).score == s2 && final(world).state
                    == st2
            })
        }),
{
    match world.state {
        GameState::Menu => {
            if input.pressed(Key::Return) {
                world.score = Score { left: 0, right: 0 };
                world.state = GameState::InGame;
            }
        },
        GameState::InGame => {
            move_paddle(world, input);
            rotate_paddle(world, input, dt);
            apply_velocity(world, dt);
            update_shape_transforms(world);
            check_collisions(world);
        },
    }
}

} // verus!
