//! The random draws of the game: where a cloud appears and how fast it
//! drifts, how a taco spins, and from which side a passer-by walks in.
use rand::Rng;
use vstd::prelude::*;

verus! {

/// A whole number drawn at random with `rand::thread_rng().gen_range(low, high)`.
/// Claimed of it: the number lies in `low .. high` (rand documents the range
/// `[low, high)` and panics only when `low >= high`, which `requires` rules
/// out). Not claimed: how the numbers are spread, and that the call returns
/// at all when the first use in a thread cannot read the system's entropy
/// source (rand panics there).
#[verifier::external_body]
fn random_range(low: u32, high: u32) -> (r: u32)
    requires
        low < high,
    ensures
        low <= r < high,
{
    rand::thread_rng().gen_range(low, high)
}

/// Where a new cloud appears and how fast it drifts, in whole pixels and
/// pixels per second.
#[derive(Clone, Copy, Debug, PartialEq, Eq)]
pub struct CloudDraw {
    pub x: u32,
    pub y: u32,
    pub speed: u32,
}

/// Where a cloud comes back in at the left edge, and its new speed.
#[derive(Clone, Copy, Debug, PartialEq, Eq)]
pub struct CloudReturn {
    pub y: u32,
    pub speed: u32,
}

/// A passer-by walking in: from the left edge walking right, or from the
/// right edge walking left; `speed` is signed, positive to the right.
#[derive(Clone, Copy, Debug, PartialEq, Eq)]
pub struct Arrival {
    pub from_left: bool,
    pub speed: i32,
}

/// A new cloud somewhere across the screen's width (`0 .. 400`), at a height
/// in `40 .. 450`, drifting at `10 .. 40` pixels per second.
pub fn cloud_start() -> (c: CloudDraw)
    ensures
        c.x < 400,
        40 <= c.y < 450,
        10 <= c.speed < 40,
{
    let x = random_range(0, 400);
    let y = random_range(40, 450);
    let speed = random_range(10, 40);
    CloudDraw { x, y, speed }
}

/// A cloud that drifted off the right edge comes back at a height in
/// `40 .. 450`, drifting at `20 .. 50` pixels per second.
pub fn cloud_return() -> (c: CloudReturn)
    ensures
        40 <= c.y < 450,
        20 <= c.speed < 50,
{
    let y = random_range(40, 450);
    let speed = random_range(20, 50);
    CloudReturn { y, speed }
}

/// The spin of a taco from its two draws: `magnitude` turns per unit of time,
/// times minus one raised to the power `power`.
pub fn spin_from_draws(magnitude: u32, power: u32) -> (w: i32)
    requires
        magnitude <= i32::MAX,
    ensures
        w == if power % 2 == 1 {
            -magnitude
        } else {
            magnitude as int
        },
{
    let m = magnitude as i32;
    if power % 2 == 1 {
        -m
    } else {
        m
    }
}

/// The spin of a new taco: a magnitude drawn in `10 .. 15`, turned one way or
/// the other by a power of minus one drawn in `1 .. 3`.
pub fn taco_spin() -> (w: i32)
    ensures
        (10 <= w < 15) || (-15 < w <= -10),
{
    let magnitude = random_range(10, 15);
    let power = random_range(1, 3);
    spin_from_draws(magnitude, power)
}

/// A passer-by from its two draws: direction `1` walks in from the left at
/// `speed`, direction `2` from the right at `-speed`; no other direction
/// brings anyone.
pub fn arrival_from_draws(speed: u32, direction: u32) -> (a: Option<Arrival>)
    requires
        speed <= i32::MAX,
    ensures
        direction == 1 ==> a == Some(Arrival { from_left: true, speed: speed as i32 }),
        direction == 2 ==> a == Some(Arrival { from_left: false, speed: (-(speed as int)) as i32 }),
        direction != 1 && direction != 2 ==> a is None,
{
    let s = speed as i32;
    if direction == 1 {
        Some(Arrival { from_left: true, speed: s })
    } else if direction == 2 {
        Some(Arrival { from_left: false, speed: -s })
    } else {
        None
    }
}

/// The passer-by who would walk in now: a speed drawn in `30 .. 70` and a
/// side drawn in `1 .. 3`. The game draws both on every frame, and lets the
/// passer-by in only once enough time has passed since the last one.
pub fn draw_arrival() -> (a: Option<Arrival>)
    ensures
        a matches Some(arr) && (if arr.from_left {
            30 <= arr.speed < 70
        } else {
            -70 < arr.speed <= -30
        }),
{
    let speed = random_range(30, 70);
    let direction = random_range(1, 3);
    arrival_from_draws(speed, direction)
}

} // verus!
