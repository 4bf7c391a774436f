//! Compass headings and the policies that keep coordinates on the grid.

use vstd::prelude::*;

verus! {

/// One of the eight compass directions. Rows grow southwards and columns
/// eastwards, so `South` is the direction of growing `y`.
#[derive(Clone, Copy, Debug, PartialEq, Eq, Structural)]
pub enum Heading {
    East,
    SouthEast,
    South,
    SouthWest,
    West,
    NorthWest,
    North,
    NorthEast,
}

/// A change of heading of at most one compass step.
#[derive(Clone, Copy, Debug, PartialEq, Eq, Structural)]
pub enum Turn {
    /// One step counter-clockwise.
    Left,
    /// No change.
    Straight,
    /// One step clockwise.
    Right,
}

impl Turn {
    /// The number of clockwise compass steps of this turn.
    pub open spec fn steps(self) -> int {
        match self {
            Turn::Left => -1,
            Turn::Straight => 0,
            Turn::Right => 1,
        }
    }

    /// The turn with the given number, counted modulo three:
    /// zero is `Left`, one is `Straight`, two is `Right`.
    pub open spec fn numbered(n: int) -> Turn {
        if n % 3 == 0 {
            Turn::Left
        } else if n % 3 == 1 {
            Turn::Straight
        } else {
            Turn::Right
        }
    }

    /// Returns the turn with the given number, counted modulo three.
    pub fn from_number(n: u32) -> (turn: Turn)
        ensures
            turn == Turn::numbered(n as int),
    {
        let k: u32 = n % 3;
        if k == 0 {
            Turn::Left
        } else if k == 1 {
            Turn::Straight
        } else {
            Turn::Right
        }
    }
}

impl Heading {
    /// Position on the compass, counted clockwise from `East`.
    pub open spec fn index(self) -> int {
        match self {
            Heading::East => 0,
            Heading::SouthEast => 1,
            Heading::South => 2,
            Heading::SouthWest => 3,
            Heading::West => 4,
            Heading::NorthWest => 5,
            Heading::North => 6,
            Heading::NorthEast => 7,
        }
    }

    /// The heading at compass position `i`, counted modulo eight.
    pub open spec fn at(i: int) -> Heading {
        let k = i % 8;
        if k == 0 {
            Heading::East
        } else if k == 1 {
            Heading::SouthEast
        } else if k == 2 {
            Heading::South
        } else if k == 3 {
            Heading::SouthWest
        } else if k == 4 {
            Heading::West
        } else if k == 5 {
            Heading::NorthWest
        } else if k == 6 {
            Heading::North
        } else {
            Heading::NorthEast
        }
    }

    /// Column change of one step along this heading.
    pub open spec fn dx(self) -> int {
        match self {
            Heading::East | Heading::SouthEast | Heading::NorthEast => 1,
            Heading::West | Heading::SouthWest | Heading::NorthWest => -1,
            Heading::South | Heading::North => 0,
        }
    }

    /// Row change of one step along this heading.
    pub open spec fn dy(self) -> int {
        match self {
            Heading::South | Heading::SouthEast | Heading::SouthWest => 1,
            Heading::North | Heading::NorthEast | Heading::NorthWest => -1,
            Heading::East | Heading::West => 0,
        }
    }

    /// This heading after `turn`.
    pub open spec fn turned(self, turn: Turn) -> Heading {
        Heading::at(self.index() + turn.steps())
    }

    /// This heading with its column change reversed if `flip_x` holds and its
    /// row change reversed if `flip_y` holds.
    pub open spec fn mirrored(self, flip_x: bool, flip_y: bool) -> Heading {
        let across = if flip_x {
            Heading::at(4 - self.index())
        } else {
            self
        };
        if flip_y {
            Heading::at(8 - across.index())
        } else {
            across
        }
    }

    /// Returns the position on the compass, counted clockwise from `East`.
    pub fn to_index(self) -> (i: u32)
        ensures
            i == self.index(),
            i < 8,
    {
        match self {
            Heading::East => 0,
            Heading::SouthEast => 1,
            Heading::South => 2,
            Heading::SouthWest => 3,
            Heading::West => 4,
            Heading::NorthWest => 5,
            Heading::North => 6,
            Heading::NorthEast => 7,
        }
    }

    /// Returns the heading at compass position `i`, counted modulo eight.
    pub fn from_index(i: u32) -> (heading: Heading)
        ensures
            heading == Heading::at(i as int),
            i < 8 ==> heading.index() == i,
    {
        let k: u32 = i % 8;
        if k == 0 {
            Heading::East
        } else if k == 1 {
            Heading::SouthEast
        } else if k == 2 {
            Heading::South
        } else if k == 3 {
            Heading::SouthWest
        } else if k == 4 {
            Heading::West
        } else if k == 5 {
            Heading::NorthWest
        } else if k == 6 {
            Heading::North
        } else {
            Heading::NorthEast
        }
    }

    /// Returns the column and row change of one step along this heading.
    pub fn offset(self) -> (d: (i64, i64))
        ensures
            d.0 == self.dx(),
            d.1 == self.dy(),
    {
        match self {
            Heading::East => (1, 0),
            Heading::SouthEast => (1, 1),
            Heading::South => (0, 1),
            Heading::SouthWest => (-1, 1),
            Heading::West => (-1, 0),
            Heading::NorthWest => (-1, -1),
            Heading::North => (0, -1),
            Heading::NorthEast => (1, -1),
        }
    }

    /// Returns this heading after `turn`.
    pub fn turn(self, turn: Turn) -> (heading: Heading)
        ensures
            heading == self.turned(turn),
    {
        let i: u32 = self.to_index();
        match turn {
            Turn::Left => Heading::from_index(i + 7),
            Turn::Straight => self,
            Turn::Right => Heading::from_index(i + 1),
        }
    }

    /// Returns this heading with the chosen components reversed.
    pub fn mirror(self, flip_x: bool, flip_y: bool) -> (heading: Heading)
        ensures
            heading == self.mirrored(flip_x, flip_y),
    {
        let across = if flip_x {
            Heading::from_index(12 - self.to_index())
        } else {
            self
        };
        if flip_y {
            Heading::from_index(8 - across.to_index())
        } else {
            across
        }
    }
}

/// Turning left and then right, or right and then left, restores a heading;
/// mirroring reverses exactly the chosen components and nothing else.
pub proof fn lemma_heading_algebra(heading: Heading, flip_x: bool, flip_y: bool)
    ensures
        heading.turned(Turn::Straight) == heading,
        heading.turned(Turn::Left).turned(Turn::Right) == heading,
        heading.turned(Turn::Right).turned(Turn::Left) == heading,
        heading.mirrored(flip_x, flip_y).dx() == (if flip_x {
            -heading.dx()
        } else {
            heading.dx()
        }),
        heading.mirrored(flip_x, flip_y).dy() == (if flip_y {
            -heading.dy()
        } else {
            heading.dy()
        }),
        Heading::at(heading.index()) == heading,
{
}

/// What happens to a coordinate that a move would carry off the grid.
#[derive(Clone, Copy, Debug, PartialEq, Eq, Structural)]
pub enum Boundary {
    /// The coordinate stops at the nearest edge.
    Clamp,
    /// The coordinate re-enters from the opposite edge.
    Wrap,
    /// The coordinate bounces off the edge and the motion is reversed.
    Reflect,
}

/// `p` moved to the nearest coordinate in `0..extent`.
pub open spec fn clamped(p: int, extent: int) -> int {
    if p < 0 {
        0
    } else if p >= extent {
        extent - 1
    } else {
        p
    }
}

/// `p` counted around a ring of `extent` coordinates.
pub open spec fn wrapped(p: int, extent: int) -> int {
    p % extent
}

/// Position of `p` on the back-and-forth path `0, 1, .., extent - 1, extent - 2, .., 1`
/// repeated in both directions. The path has a single point when `extent` is one.
pub open spec fn bounce_phase(p: int, extent: int) -> int {
    if extent <= 1 {
        0
    } else {
        p % (2 * (extent - 1))
    }
}

/// `p` folded back into `0..extent` by bouncing off both edges.
pub open spec fn reflected(p: int, extent: int) -> int {
    let phase = bounce_phase(p, extent);
    if phase < extent {
        phase
    } else {
        2 * (extent - 1) - phase
    }
}

impl Boundary {
    /// The coordinate in `0..extent` that stands for the unbounded coordinate `p`.
    pub open spec fn resolve(self, p: int, extent: int) -> int {
        match self {
            Boundary::Clamp => clamped(p, extent),
            Boundary::Wrap => wrapped(p, extent),
            Boundary::Reflect => reflected(p, extent),
        }
    }

    /// Whether motion towards the unbounded coordinate `p` ends up reversed.
    pub open spec fn reverses(self, p: int, extent: int) -> bool {
        self == Boundary::Reflect && bounce_phase(p, extent) >= extent
    }

    /// Carries the coordinate `from` by `delta` and brings the result back
    /// onto the grid. Returns the coordinate and whether the motion was reversed.
    pub fn land(self, from: usize, delta: i64, extent: usize) -> (landing: (usize, bool))
        requires
            from < extent,
        ensures
            landing.0 == self.resolve(from + delta, extent as int),
            landing.1 == self.reverses(from + delta, extent as int),
            landing.0 < extent,
    {
        let target: i128 = from as i128 + delta as i128;
        match self {
            Boundary::Clamp => {
                if target < 0 {
                    (0, false)
                } else if target >= extent as i128 {
                    (extent - 1, false)
                } else {
                    (target as usize, false)
                }
            },
            Boundary::Wrap => {
                let r: u128 = euclidean_remainder(target, extent as u128);
                (r as usize, false)
            },
            Boundary::Reflect => {
                if extent == 1 {
                    (0, false)
                } else {
                    let period: u128 = 2 * (extent as u128 - 1);
                    let phase: u128 = euclidean_remainder(target, period);
                    if phase < extent as u128 {
                        (phase as usize, false)
                    } else {
                        ((period - phase) as usize, true)
                    }
                }
            },
        }
    }
}

/// Computes the remainder of `value` by `modulus` that lies in `0..modulus`,
/// also for a negative `value`.
pub fn euclidean_remainder(value: i128, modulus: u128) -> (r: u128)
    requires
        modulus > 0,
        modulus <= 0x2_0000_0000_0000_0000,
        -0x2_0000_0000_0000_0000 <= value <= 0x2_0000_0000_0000_0000,
    ensures
        r == (value as int) % (modulus as int),
        r < modulus,
{
    if value >= 0 {
        (value as u128) % modulus
    } else {
        let magnitude: u128 = (-value) as u128;
        let back: u128 = magnitude % modulus;
        proof {
            let m = modulus as int;
            let n = magnitude as int;
            let q = n / m;
            vstd::arithmetic::div_mod::lemma_fundamental_div_mod(n, m);
            assert(m * q == q * m) by (nonlinear_arith);
            if back == 0 {
                assert((-q) * m == -(q * m)) by (nonlinear_arith);
                vstd::arithmetic::div_mod::lemma_fundamental_div_mod_converse(
                    value as int,
                    m,
                    -q,
                    0,
                );
            } else {
                assert((-q - 1) * m == -(q * m) - m) by (nonlinear_arith);
                vstd::arithmetic::div_mod::lemma_fundamental_div_mod_converse(
                    value as int,
                    m,
                    -q - 1,
                    m - back,
                );
            }
        }
        if back == 0 {
            0
        } else {
            modulus - back
        }
    }
}

/// Every policy yields a coordinate on the grid, and leaves a coordinate
/// that is already on the grid where it is, without reversing the motion.
pub proof fn lemma_resolve_on_grid(policy: Boundary, p: int, extent: int)
    requires
        extent > 0,
    ensures
        0 <= policy.resolve(p, extent) < extent,
        0 <= p < extent ==> policy.resolve(p, extent) == p && !policy.reverses(p, extent),
{
    match policy {
        Boundary::Clamp => {},
        Boundary::Wrap => {
            vstd::arithmetic::div_mod::lemma_mod_bound(p, extent);
            if 0 <= p < extent {
                vstd::arithmetic::div_mod::lemma_small_mod(p as nat, extent as nat);
            }
        },
        Boundary::Reflect => {
            if extent > 1 {
                let period = 2 * (extent - 1);
                vstd::arithmetic::div_mod::lemma_mod_bound(p, period);
                if 0 <= p < extent {
                    vstd::arithmetic::div_mod::lemma_small_mod(p as nat, period as nat);
                }
            }
        },
    }
}

} // verus!
