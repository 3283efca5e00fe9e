//! The game's entities and resources: ball, paddles, walls, score and
//! game state, all in fixed-point milli-units.

use vstd::prelude::*;

use crate::collision::{rect_of, RectShape};
use crate::input::InputConfig;
use crate::math::{Vec2, COORD_LIMIT};

verus! {

/// Greatest speed (world units per second) the simulation accepts.
pub const SPEED_MAX: i64 = 1_000_000;

/// Round wins that end a game and send it back to the menu.
pub const WIN_THRESHOLD: usize = 5;

/// Where an entity stands and which way it faces. The facing is the
/// world direction of the entity's local x axis, a near-unit vector of
/// scale 1000; it plays the part of a rotation.
#[derive(Clone, Copy, Debug, PartialEq, Eq, Structural)]
pub struct Transform2 {
    pub translation: Vec2,
    pub facing: Vec2,
}

impl Transform2 {
    /// Coordinates within the simulation's range and a near-unit facing.
    pub open spec fn wf(self) -> bool {
        &&& self.translation.bounded(COORD_LIMIT as int)
        &&& self.facing.is_near_unit()
        &&& self.facing.bounded(1001)
    }
}

/// A velocity direction of scale 1000: a near-unit vector, or exactly
/// zero when the entity stands still.
#[derive(Clone, Copy, Debug, PartialEq, Eq, Structural)]
pub struct Velocity(pub Vec2);

impl Velocity {
    pub open spec fn wf(self) -> bool {
        ||| (self.0.x == 0 && self.0.y == 0)
        ||| (self.0.is_near_unit() && self.0.bounded(1001))
    }
}

/// A speed scalar in world units per second.
#[derive(Clone, Copy, Debug, PartialEq, Eq, Structural)]
pub struct Speed(pub i64);

impl Speed {
    pub open spec fn wf(self) -> bool {
        0 <= self.0 <= SPEED_MAX
    }
}

/// Which side a vertical (scoring) wall guards.
#[derive(Clone, Copy, Debug, PartialEq, Eq, Structural)]
pub enum Side {
    Left,
    Right,
}

/// Which rim a horizontal (bouncing) wall forms. The top wall lies
/// toward positive y.
#[derive(Clone, Copy, Debug, PartialEq, Eq, Structural)]
pub enum HSide {
    Top,
    Bottom,
}

/// A wall tag: horizontal walls bounce the ball, vertical walls are
/// scoring boundaries.
#[derive(Clone, Copy, Debug, PartialEq, Eq, Structural)]
pub enum Wall {
    Horizontal(HSide),
    Vertical(Side),
}

/// The window the court is fitted to, in whole world units.
#[derive(Clone, Copy, Debug, PartialEq, Eq, Structural)]
pub struct WindowSize {
    pub width: u32,
    pub height: u32,
}

impl WindowSize {
    /// Large enough for the walls to fit, small enough that every
    /// derived coordinate stays in range.
    pub open spec fn wf(self) -> bool {
        20 <= self.width <= 1_000_000 && 20 <= self.height <= 1_000_000
    }
}

/// The ball: velocity direction, speed, transform and collision
/// rectangle. `changed` records whether the transform moved since the
/// collision rectangle was last synchronized.
#[derive(Clone, Copy, Debug, PartialEq, Eq, Structural)]
pub struct BallBundle {
    pub velocity: Velocity,
    pub speed: Speed,
    pub transform: Transform2,
    pub size: Vec2,
    pub shape: RectShape,
    pub changed: bool,
}

impl BallBundle {
    pub open spec fn wf(self) -> bool {
        &&& self.velocity.wf()
        &&& self.speed.wf()
        &&& self.transform.wf()
        &&& 0 <= self.size.x <= COORD_LIMIT && 0 <= self.size.y <= COORD_LIMIT
        &&& self.shape.wf()
    }

    /// A ball at `transform`: heading along positive x, speed 500, a
    /// 10 by 10 unit square.
    pub fn new(transform: Transform2) -> (b: BallBundle)
        requires
            transform.wf(),
        ensures
            b == (BallBundle {
                velocity: Velocity(Vec2 { x: 1000, y: 0 }),
                speed: Speed(500),
                transform,
                size: Vec2 { x: 10_000, y: 10_000 },
                shape: rect_of(transform, Vec2 { x: 10_000, y: 10_000 }),
                changed: true,
            }),
            b.wf(),
    {
        let size = Vec2 { x: 10_000, y: 10_000 };
        let shape = crate::collision::rect_from(&transform, &size);
        let heading = Vec2 { x: 1000, y: 0 };
        proof {
            assert(heading.len_sq() == 1_000_000) by (nonlinear_arith)
                requires
                    heading.x == 1000,
                    heading.y == 0,
            ;
        }
        BallBundle {
            velocity: Velocity(heading),
            speed: Speed(500),
            transform,
            size,
            shape,
            changed: true,
        }
    }

    /// The ball of a fresh court: at the origin, facing the diagonal
    /// (an eighth of a turn).
    pub fn spawn() -> (b: BallBundle)
        ensures
            b == BallBundle::new_spec(start_transform()),
            b.wf(),
    {
        let facing = Vec2 { x: 707, y: 707 };
        proof {
            assert(facing.len_sq() == 999_698) by (nonlinear_arith)
                requires
                    facing.x == 707,
                    facing.y == 707,
            ;
        }
        BallBundle::new(Transform2 { translation: Vec2 { x: 0, y: 0 }, facing })
    }

    /// What `new` returns, as a spec value.
    pub open spec fn new_spec(transform: Transform2) -> BallBundle {
        BallBundle {
            velocity: Velocity(Vec2 { x: 1000, y: 0 }),
            speed: Speed(500),
            transform,
            size: Vec2 { x: 10_000, y: 10_000 },
            shape: rect_of(transform, Vec2 { x: 10_000, y: 10_000 }),
            changed: true,
        }
    }
}

/// The transform the ball starts a rally from: the origin, facing the
/// diagonal.
pub open spec fn start_transform() -> Transform2 {
    Transform2 { translation: Vec2 { x: 0, y: 0 }, facing: Vec2 { x: 707, y: 707 } }
}

/// A paddle: key bindings, velocity direction, speed, transform and
/// collision rectangle.
#[derive(Clone, Copy, Debug, PartialEq, Eq, Structural)]
pub struct PlayerBundle {
    pub keys: InputConfig,
    pub velocity: Velocity,
    pub speed: Speed,
    pub transform: Transform2,
    pub size: Vec2,
    pub shape: RectShape,
    pub changed: bool,
}

impl PlayerBundle {
    pub open spec fn wf(self) -> bool {
        &&& self.velocity.wf()
        &&& self.speed.wf()
        &&& self.transform.wf()
        &&& 0 <= self.size.x <= COORD_LIMIT && 0 <= self.size.y <= COORD_LIMIT
        &&& self.shape.wf()
    }

    /// A paddle with the given bindings at `transform`: standing still,
    /// speed 500, a 100 by 10 unit rectangle.
    pub fn new(keys: InputConfig, transform: Transform2) -> (p: PlayerBundle)
        requires
            transform.wf(),
        ensures
            p == PlayerBundle::new_spec(keys, transform),
            p.wf(),
    {
        let size = Vec2 { x: 100_000, y: 10_000 };
        let shape = crate::collision::rect_from(&transform, &size);
        PlayerBundle {
            keys,
            velocity: Velocity(Vec2 { x: 0, y: 0 }),
            speed: Speed(500),
            transform,
            size,
            shape,
            changed: true,
        }
    }

    /// What `new` returns, as a spec value.
    pub open spec fn new_spec(keys: InputConfig, transform: Transform2) -> PlayerBundle {
        PlayerBundle {
            keys,
            velocity: Velocity(Vec2 { x: 0, y: 0 }),
            speed: Speed(500),
            transform,
            size: Vec2 { x: 100_000, y: 10_000 },
            shape: rect_of(transform, Vec2 { x: 100_000, y: 10_000 }),
            changed: true,
        }
    }

    /// The left player's paddle of a court fitted to `window`, as a
    /// spec value.
    pub open spec fn left_of(window: WindowSize) -> PlayerBundle {
        PlayerBundle::new_spec(
            InputConfig::left_spec(),
            Transform2 {
                translation: Vec2 {
                    x: (-(window.width as int * 500) + 30_000) as i64,
                    y: 0,
                },
                facing: Vec2 { x: 0, y: (-1000) as i64 },
            },
        )
    }

    /// The right player's paddle of a court fitted to `window`, as a
    /// spec value.
    pub open spec fn right_of(window: WindowSize) -> PlayerBundle {
        PlayerBundle::new_spec(
            InputConfig::right_spec(),
            Transform2 {
                translation: Vec2 {
                    x: (window.width as int * 500 - 30_000) as i64,
                    y: 0,
                },
                facing: Vec2 { x: 0, y: 1000 },
            },
        )
    }

    /// The left player's paddle: 30 units in from the left edge, turned
    /// three quarters (facing straight down), bound to WASD, Q and E.
    pub fn spawn_left(window: &WindowSize) -> (p: PlayerBundle)
        requires
            window.wf(),
        ensures
            p == PlayerBundle::left_of(*window),
            p.wf(),
    {
        let x: i64 = -(window.width as i64 * 500) + 30_000;
        let facing = Vec2 { x: 0, y: -1000 };
        proof {
            assert(facing.len_sq() == 1_000_000) by (nonlinear_arith)
                requires
                    facing.x == 0,
                    facing.y == -1000,
            ;
        }
        PlayerBundle::new(
            crate::input::InputConfig::left(),
            Transform2 { translation: Vec2 { x, y: 0 }, facing },
        )
    }

    /// The right player's paddle: 30 units in from the right edge,
    /// turned a quarter (facing straight up), bound to the arrow keys,
    /// comma and period.
    pub fn spawn_right(window: &WindowSize) -> (p: PlayerBundle)
        requires
            window.wf(),
        ensures
            p == PlayerBundle::right_of(*window),
            p.wf(),
    {
        let x: i64 = window.width as i64 * 500 - 30_000;
        let facing = Vec2 { x: 0, y: 1000 };
        proof {
            assert(facing.len_sq() == 1_000_000) by (nonlinear_arith)
                requires
                    facing.x == 0,
                    facing.y == 1000,
            ;
        }
        PlayerBundle::new(
            crate::input::InputConfig::right(),
            Transform2 { translation: Vec2 { x, y: 0 }, facing },
        )
    }
}

/// A wall: its tag, transform and collision rectangle. Walls never move.
#[derive(Clone, Copy, Debug, PartialEq, Eq, Structural)]
pub struct WallBundle {
    pub tag: Wall,
    pub transform: Transform2,
    pub size: Vec2,
    pub shape: RectShape,
    pub changed: bool,
}

impl WallBundle {
    pub open spec fn wf(self) -> bool {
        &&& self.transform.wf()
        &&& 0 <= self.size.x <= COORD_LIMIT && 0 <= self.size.y <= COORD_LIMIT
        &&& self.shape.wf()
    }

    /// A wall of the given tag and full size at `transform`.
    pub fn new(tag: Wall, transform: Transform2, size: Vec2) -> (w: WallBundle)
        requires
            transform.wf(),
            0 <= size.x <= COORD_LIMIT,
            0 <= size.y <= COORD_LIMIT,
        ensures
            w == WallBundle::new_spec(tag, transform, size),
            w.wf(),
    {
        let shape = crate::collision::rect_from(&transform, &size);
        WallBundle { tag, transform, size, shape, changed: true }
    }

    /// What `new` returns, as a spec value.
    pub open spec fn new_spec(tag: Wall, transform: Transform2, size: Vec2) -> WallBundle {
        WallBundle { tag, transform, size, shape: rect_of(transform, size), changed: true }
    }

    /// The four walls of a court fitted to `window`, as a spec value:
    /// scoring walls 10 units in from the left and right edges, bouncing
    /// walls 10 units in from the top and bottom edges.
    pub open spec fn walls_of(window: WindowSize) -> Seq<WallBundle> {
        seq![
            WallBundle::new_spec(
                Wall::Vertical(Side::Left),
                Transform2 {
                    translation: Vec2 {
                        x: (-(window.width as int * 500) + 10_000) as i64,
                        y: 0,
                    },
                    facing: Vec2 { x: 1000, y: 0 },
                },
                Vec2 { x: 10_000, y: (window.height as int * 1000 - 10_000) as i64 },
            ),
            WallBundle::new_spec(
                Wall::Vertical(Side::Right),
                Transform2 {
                    translation: Vec2 {
                        x: (window.width as int * 500 - 10_000) as i64,
                        y: 0,
                    },
                    facing: Vec2 { x: 1000, y: 0 },
                },
                Vec2 { x: 10_000, y: (window.height as int * 1000 - 10_000) as i64 },
            ),
            WallBundle::new_spec(
                Wall::Horizontal(HSide::Top),
                Transform2 {
                    translation: Vec2 {
                        x: 0,
                        y: (window.height as int * 500 - 10_000) as i64,
                    },
                    facing: Vec2 { x: 1000, y: 0 },
                },
                Vec2 { x: (window.width as int * 1000 - 10_000) as i64, y: 10_000 },
            ),
            WallBundle::new_spec(
                Wall::Horizontal(HSide::Bottom),
                Transform2 {
                    translation: Vec2 {
                        x: 0,
                        y: (-(window.height as int * 500) + 10_000) as i64,
                    },
                    facing: Vec2 { x: 1000, y: 0 },
                },
                Vec2 { x: (window.width as int * 1000 - 10_000) as i64, y: 10_000 },
            ),
        ]
    }

    /// Builds the four walls of a court fitted to `window`.
    pub fn spawn(window: &WindowSize) -> (walls: Vec<WallBundle>)
        requires
            window.wf(),
        ensures
            walls@ == WallBundle::walls_of(*window),
            forall|i: int| 0 <= i < walls@.len() ==> #[trigger] walls@[i].wf(),
    {
        let axis = Vec2 { x: 1000, y: 0 };
        proof {
            assert(axis.len_sq() == 1_000_000) by (nonlinear_arith)
                requires
                    axis.x == 1000,
                    axis.y == 0,
            ;
        }
        let vertical_size = Vec2 { x: 10_000, y: window.height as i64 * 1000 - 10_000 };
        let horizontal_size = Vec2 { x: window.width as i64 * 1000 - 10_000, y: 10_000 };
        let mut walls: Vec<WallBundle> = Vec::new();
        walls.push(WallBundle::new(
            Wall::Vertical(Side::Left),
            Transform2 {
                translation: Vec2 { x: -(window.width as i64 * 500) + 10_000, y: 0 },
                facing: axis,
            },
            vertical_size,
        ));
        walls.push(WallBundle::new(
            Wall::Vertical(Side::Right),
            Transform2 {
                translation: Vec2 { x: window.width as i64 * 500 - 10_000, y: 0 },
                facing: axis,
            },
            vertical_size,
        ));
        walls.push(WallBundle::new(
            Wall::Horizontal(HSide::Top),
            Transform2 {
                translation: Vec2 { x: 0, y: window.height as i64 * 500 - 10_000 },
                facing: axis,
            },
            horizontal_size,
        ));
        walls.push(WallBundle::new(
            Wall::Horizontal(HSide::Bottom),
            Transform2 {
                translation: Vec2 { x: 0, y: -(window.height as i64 * 500) + 10_000 },
                facing: axis,
            },
            horizontal_size,
        ));
        proof {
            assert(walls@ =~= WallBundle::walls_of(*window));
        }
        walls
    }
}

/// Round wins per player.
#[derive(Clone, Copy, Debug, PartialEq, Eq, Structural)]
pub struct Score {
    pub left: usize,
    pub right: usize,
}

/// The decimal digits of `n`, as ASCII bytes.
pub open spec fn dec_digits(n: nat) -> Seq<u8>
    decreases n,
{
    if n < 10 {
        seq![(48 + n) as u8]
    } else {
        dec_digits(n / 10).push((48 + n % 10) as u8)
    }
}

/// Writes the decimal digits of `n` after `out`.
fn push_dec(out: &mut Vec<u8>, n: usize)
    ensures
        final(out)@ == old(out)@ + dec_digits(n as nat),
    decreases n,
{
    if n < 10 {
        out.push(48 + n as u8);
        proof {
            assert(out@ =~= old(out)@ + dec_digits(n as nat));
        }
    } else {
        push_dec(out, n / 10);
        out.push(48 + (n % 10) as u8);
        proof {
            assert(out@ =~= old(out)@ + dec_digits(n as nat));
        }
    }
}

impl Score {
    /// Scores stay at or below the win threshold.
    pub open spec fn wf(self) -> bool {
        self.left <= WIN_THRESHOLD && self.right <= WIN_THRESHOLD
    }

    /// The score as ASCII text, `left:right`.
    pub fn label(&self) -> (r: Vec<u8>)
        ensures
            r@ == dec_digits(self.left as nat) + seq![58u8] + dec_digits(
                self.right as nat,
            ),
    {
        let mut out: Vec<u8> = Vec::new();
        push_dec(&mut out, self.left);
        out.push(58);
        push_dec(&mut out, self.right);
        proof {
            assert(out@ =~= dec_digits(self.left as nat) + seq![58u8] + dec_digits(
                self.right as nat,
            ));
        }
        out
    }
}

/// The two-valued mode that gates which systems run.
#[derive(Clone, Copy, Debug, PartialEq, Eq, Structural)]
pub enum GameState {
    Menu,
    InGame,
}

} // verus!
