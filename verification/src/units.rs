//! Units, tuning constants and the fixed-point arithmetic of the game.

use vstd::prelude::*;

verus! {

/// Nanoseconds in one second.
pub const NANOS_PER_SECOND: u64 = 1_000_000_000;

/// The factor one, in thousandths.
pub const UNIT_FACTOR: u32 = 1_000;

/// Vertical speed of the player while a movement key is held.
pub const PLAYER_SPEED: u64 = 300_000;

/// Road speed at the start of a session.
pub const BASE_ROAD_SPEED: u64 = 400_000;

/// The road speed stops growing here, which keeps every product of a speed
/// and a frame time inside 128 bits.
pub const MAX_ROAD_SPEED: u64 = 1_000_000_000_000_000_000;

/// Each firing of the difficulty timer multiplies the road speed by
/// `ACCELERATION_NUMERATOR / ACCELERATION_DENOMINATOR`.
pub const ACCELERATION_NUMERATOR: u64 = 11;

pub const ACCELERATION_DENOMINATOR: u64 = 10;

/// Speed multiplier while slow mode is active.
pub const SLOW_FACTOR: u32 = 500;

/// Category factor of road markers and obstacles.
pub const PLAIN_FACTOR: u32 = 1_000;

/// Category factor of collectibles and the buff, which scroll faster.
pub const FAST_FACTOR: u32 = 1_250;

/// Period of the difficulty timer.
pub const DIFFICULTY_PERIOD: u64 = 5_000_000_000;

/// How long invulnerability and slow mode last.
pub const EFFECT_DURATION: u64 = 10_000_000_000;

/// Health at the start of a session.
pub const FULL_HEALTH: u8 = 5;

/// The player loses at once beyond this distance from the middle of the track.
pub const TRACK_HALF_HEIGHT: i64 = 360_000;

/// No distance covered in one frame is longer than this.
pub const MAX_SHIFT: i128 = 0x10_0000_0000_0000_0000_0000_0000;

/// The distance covered at `speed` during `delta` nanoseconds, rounded down.
pub open spec fn distance(speed: int, delta: int) -> int {
    speed * delta / (NANOS_PER_SECOND as int)
}

/// The coordinate nearest to `value` that a position can hold.
pub open spec fn clamped(value: int) -> i64 {
    if value < i64::MIN {
        i64::MIN
    } else if value > i64::MAX {
        i64::MAX
    } else {
        value as i64
    }
}

/// The speed at which a category scrolls: the road speed times the category
/// factor times the speed multiplier, both factors in thousandths, rounded
/// down.
pub open spec fn effective_speed(road_speed: int, factor: int, multiplier: int) -> int {
    road_speed * factor * multiplier / 1_000_000
}

/// The road speed after one firing of the difficulty timer: eleven tenths of
/// what it was, rounded down, and at most the top speed.
pub open spec fn accelerated(speed: u64) -> u64 {
    let raised = speed * ACCELERATION_NUMERATOR / (ACCELERATION_DENOMINATOR as int);
    if raised >= MAX_ROAD_SPEED {
        MAX_ROAD_SPEED
    } else {
        raised as u64
    }
}

/// The road speed after `firings` firings of the difficulty timer.
pub open spec fn accelerated_by(speed: u64, firings: nat) -> u64
    decreases firings,
{
    if firings == 0 {
        speed
    } else {
        accelerated_by(accelerated(speed), (firings - 1) as nat)
    }
}

/// Computes [`distance`].
pub fn travel(speed: u64, delta: u64) -> (covered: u128)
    ensures
        covered == distance(speed as int, delta as int),
        covered <= MAX_SHIFT,
{
    assert(speed * delta <= 0xffff_ffff_ffff_ffff * 0xffff_ffff_ffff_ffff) by (nonlinear_arith)
        requires
            0 <= speed <= 0xffff_ffff_ffff_ffff,
            0 <= delta <= 0xffff_ffff_ffff_ffff,
    ;
    assert(0xffff_ffff_ffff_ffff * 0xffff_ffff_ffff_ffff
        == 0xffff_ffff_ffff_fffe_0000_0000_0000_0001);
    let product: u128 = (speed as u128) * (delta as u128);
    let covered: u128 = product / (NANOS_PER_SECOND as u128);
    assert(covered == product / 1_000_000_000);
    covered
}

/// Computes [`effective_speed`].
pub fn scroll_speed(road_speed: u64, factor: u32, multiplier: u32) -> (speed: u64)
    requires
        road_speed <= MAX_ROAD_SPEED,
        factor <= FAST_FACTOR,
        multiplier <= UNIT_FACTOR,
    ensures
        speed == effective_speed(road_speed as int, factor as int, multiplier as int),
{
    assert(road_speed * factor * multiplier <= 1_000_000_000_000_000_000 * 1_250 * 1_000)
        by (nonlinear_arith)
        requires
            0 <= road_speed <= 1_000_000_000_000_000_000,
            0 <= factor <= 1_250,
            0 <= multiplier <= 1_000,
    ;
    assert(road_speed * factor <= 1_000_000_000_000_000_000 * 1_250) by (nonlinear_arith)
        requires
            0 <= road_speed <= 1_000_000_000_000_000_000,
            0 <= factor <= 1_250,
    ;
    let product: u128 = (road_speed as u128) * (factor as u128) * (multiplier as u128);
    (product / 1_000_000) as u64
}

/// Moves a coordinate by `offset`, stopping at the ends of the coordinate
/// range.
pub fn shifted(coordinate: i64, offset: i128) -> (moved: i64)
    requires
        -MAX_SHIFT <= offset <= MAX_SHIFT,
    ensures
        moved == clamped(coordinate + offset),
{
    let target: i128 = (coordinate as i128) + offset;
    if target < (i64::MIN as i128) {
        i64::MIN
    } else if target > (i64::MAX as i128) {
        i64::MAX
    } else {
        target as i64
    }
}

/// Firing first some times and then some more raises the speed as firing
/// that often at once does.
pub proof fn lemma_accelerations_add_up(speed: u64, first: nat, second: nat)
    ensures
        accelerated_by(accelerated_by(speed, first), second) == accelerated_by(
            speed,
            first + second,
        ),
    decreases first,
{
    if first > 0 {
        lemma_accelerations_add_up(accelerated(speed), (first - 1) as nat, second);
    }
}

/// A firing never slows the road down, and never takes it beyond the top
/// speed.
pub proof fn lemma_acceleration_never_slows(speed: u64, firings: nat)
    requires
        speed <= MAX_ROAD_SPEED,
    ensures
        speed <= accelerated_by(speed, firings) <= MAX_ROAD_SPEED,
    decreases firings,
{
    if firings > 0 {
        lemma_acceleration_never_slows(accelerated(speed), (firings - 1) as nat);
    }
}

/// A road at top speed stays at top speed.
pub proof fn lemma_top_speed_stays(firings: nat)
    ensures
        accelerated_by(MAX_ROAD_SPEED, firings) == MAX_ROAD_SPEED,
    decreases firings,
{
    if firings > 0 {
        assert(accelerated(MAX_ROAD_SPEED) == MAX_ROAD_SPEED);
        lemma_top_speed_stays((firings - 1) as nat);
    }
}

} // verus!
