//! The entities of the world: the player, the road markers, the obstacles,
//! the collectibles and the buff, and how they move.

use vstd::prelude::*;
use crate::dice::{draw_spot, draw_spots, Draws, DrawsView};
use crate::units::{
    clamped, distance, effective_speed, scroll_speed, shifted, travel, BASE_ROAD_SPEED,
    FAST_FACTOR, FULL_HEALTH, MAX_ROAD_SPEED, MAX_SHIFT, PLAIN_FACTOR, PLAYER_SPEED,
    TRACK_HALF_HEIGHT, UNIT_FACTOR,
};

verus! {

/// Where the player stays horizontally.
pub const PLAYER_X: i64 = -500_000;

/// Scale of the player's car, in thousandths.
pub const NORMAL_SCALE: u32 = 800;

/// Scale of the player's car while it is invulnerable.
pub const LARGE_SCALE: u32 = 1_000;

/// Rotation of the car while it moves up, in thousandths of a radian; the
/// opposite while it moves down.
pub const TILT: i32 = 200;

pub const MARKER_COUNT: usize = 10;

/// Horizontal position of the first road marker at the start.
pub const MARKER_START: i64 = -600_000;

/// Distance between two road markers.
pub const MARKER_SPACING: i64 = 150_000;

/// A road marker left of this edge wraps around.
pub const MARKER_EDGE: i64 = -675_000;

/// How far a road marker is moved to the right when it wraps around.
pub const TRACK_LENGTH: i64 = 1_500_000;

/// An obstacle, a collectible or the buff left of this edge is recycled.
pub const RECYCLE_EDGE: i64 = -800_000;

pub const OBSTACLE_COUNT: usize = 3;

pub const COLLECTIBLE_COUNT: usize = 4;

/// Left end of both bands in which recycled entities reappear.
pub const BAND_LEFT: i64 = 800_000;

/// Right end of the near band, exclusive.
pub const NEAR_RIGHT: i64 = 1_600_000;

/// Right end of the far band, exclusive.
pub const FAR_RIGHT: i64 = 3_200_000;

/// Lower end of both bands.
pub const BAND_BOTTOM: i64 = -300_000;

/// Upper end of both bands, exclusive.
pub const BAND_TOP: i64 = 300_000;

/// A point of the world.
#[derive(Clone, Copy, Debug, PartialEq, Eq, Structural)]
pub struct Position {
    pub x: i64,
    pub y: i64,
}

/// The two areas ahead of the player in which recycled entities reappear.
#[derive(Clone, Copy, Debug, PartialEq, Eq, Structural)]
pub enum Band {
    /// Where obstacles reappear.
    Near,
    /// Where collectibles and the buff reappear: as high, and three times as
    /// deep.
    Far,
}

impl Band {
    /// The right end of the band, exclusive.
    pub open spec fn right(self) -> i64 {
        match self {
            Band::Near => NEAR_RIGHT,
            Band::Far => FAR_RIGHT,
        }
    }

    /// Whether `spot` lies in the band.
    pub open spec fn holds(self, spot: Position) -> bool {
        &&& BAND_LEFT <= spot.x < self.right()
        &&& BAND_BOTTOM <= spot.y < BAND_TOP
    }

    /// Whether every one of `spots` lies in the band.
    pub open spec fn holds_all(self, spots: Seq<Position>) -> bool {
        forall|i: int| 0 <= i < spots.len() ==> self.holds(#[trigger] spots[i])
    }

    /// Computes [`Band::holds`].
    pub fn contains(self, spot: Position) -> (inside: bool)
        ensures
            inside == self.holds(spot),
    {
        let right: i64 = match self {
            Band::Near => NEAR_RIGHT,
            Band::Far => FAR_RIGHT,
        };
        BAND_LEFT <= spot.x && spot.x < right && BAND_BOTTOM <= spot.y && spot.y < BAND_TOP
    }
}

/// The vertical direction that the held movement keys ask for: 1 for up, -1
/// for down, 0 for neither or both.
pub open spec fn direction(up: bool, down: bool) -> int {
    (if up { 1int } else { 0int }) - (if down { 1int } else { 0int })
}

/// The player's car.
#[derive(Clone, Copy, Debug, PartialEq, Eq, Structural)]
pub struct Player {
    pub position: Position,
    /// Size of the car, in thousandths.
    pub scale: u32,
    /// Rotation of the car, in thousandths of a radian.
    pub rotation: i32,
}

impl Player {
    /// The player after `delta` nanoseconds with the movement keys held as
    /// given: moved vertically at the player's speed, and tilted the way it
    /// moves.
    pub open spec fn steered(self, up: bool, down: bool, delta: u64) -> Player {
        let way = direction(up, down);
        Player {
            position: Position {
                x: self.position.x,
                y: clamped(self.position.y + way * distance(PLAYER_SPEED as int, delta as int)),
            },
            scale: self.scale,
            rotation: (way * TILT) as i32,
        }
    }

    /// Whether the player is beyond the edge of the track.
    pub open spec fn off_track(self) -> bool {
        self.position.y < -TRACK_HALF_HEIGHT || self.position.y > TRACK_HALF_HEIGHT
    }

    /// Moves the player for one frame and says whether it ended up beyond
    /// the edge of the track.
    pub fn steer(&mut self, up: bool, down: bool, delta: u64) -> (outside: bool)
        ensures
            *final(self) == old(self).steered(up, down, delta),
            outside == final(self).off_track(),
    {
        let covered: u128 = travel(PLAYER_SPEED, delta);
        if up && !down {
            self.position.y = shifted(self.position.y, covered as i128);
            self.rotation = TILT;
        } else if down && !up {
            self.position.y = shifted(self.position.y, -(covered as i128));
            self.rotation = -TILT;
        } else {
            self.rotation = 0;
        }
        self.position.y < -TRACK_HALF_HEIGHT || self.position.y > TRACK_HALF_HEIGHT
    }
}

/// A position after scrolling left by `covered`.
pub open spec fn drifted(position: Position, covered: int) -> Position {
    Position { x: clamped(position.x - covered), y: position.y }
}

/// A road marker after scrolling left by `covered`: once it is left of the
/// marker edge it is set one track length to the right.
pub open spec fn marker_scrolled(position: Position, covered: int) -> Position {
    let moved = drifted(position, covered);
    if moved.x < MARKER_EDGE {
        Position { x: (moved.x + TRACK_LENGTH) as i64, y: moved.y }
    } else {
        moved
    }
}

/// An obstacle, a collectible or the buff after scrolling left by `covered`:
/// once it is left of the recycle edge it reappears at `spot`.
pub open spec fn item_scrolled(position: Position, covered: int, spot: Position) -> Position {
    let moved = drifted(position, covered);
    if moved.x < RECYCLE_EDGE {
        spot
    } else {
        moved
    }
}

/// Every road marker scrolled by `covered`.
pub open spec fn markers_scrolled(markers: Seq<Position>, covered: int) -> Seq<Position> {
    Seq::new(markers.len(), |i: int| marker_scrolled(markers[i], covered))
}

/// Every item scrolled by `covered`, each with the spot of the same index to
/// reappear at.
pub open spec fn items_scrolled(items: Seq<Position>, covered: int, spots: Seq<Position>) -> Seq<
    Position,
> {
    Seq::new(items.len(), |i: int| item_scrolled(items[i], covered, spots[i]))
}

/// Computes [`marker_scrolled`].
pub fn scroll_marker(position: Position, covered: u128) -> (moved: Position)
    requires
        covered <= MAX_SHIFT,
    ensures
        moved == marker_scrolled(position, covered as int),
{
    let x: i64 = shifted(position.x, -(covered as i128));
    if x < MARKER_EDGE {
        Position { x: x + TRACK_LENGTH, y: position.y }
    } else {
        Position { x, y: position.y }
    }
}

/// Computes [`item_scrolled`].
pub fn scroll_item(position: Position, covered: u128, spot: Position) -> (moved: Position)
    requires
        covered <= MAX_SHIFT,
    ensures
        moved == item_scrolled(position, covered as int, spot),
{
    let x: i64 = shifted(position.x, -(covered as i128));
    if x < RECYCLE_EDGE {
        spot
    } else {
        Position { x, y: position.y }
    }
}

/// Scrolls every road marker by `covered`.
pub fn scroll_markers(markers: &mut Vec<Position>, covered: u128)
    requires
        covered <= MAX_SHIFT,
    ensures
        final(markers)@ == markers_scrolled(old(markers)@, covered as int),
{
    let mut done: usize = 0;
    while done < markers.len()
        invariant
            covered <= MAX_SHIFT,
            done <= markers.len(),
            markers.len() == old(markers).len(),
            forall|i: int|
                0 <= i < done ==> markers@[i] == marker_scrolled(old(markers)@[i], covered as int),
            forall|i: int| done <= i < markers.len() ==> markers@[i] == old(markers)@[i],
        decreases markers.len() - done,
    {
        let moved: Position = scroll_marker(markers[done], covered);
        markers.set(done, moved);
        done += 1;
    }
    assert(markers@ =~= markers_scrolled(old(markers)@, covered as int));
}

/// Scrolls every item by `covered`; an item that is recycled reappears at the
/// spot of the same index.
pub fn scroll_items(items: &mut Vec<Position>, covered: u128, spots: &Vec<Position>)
    requires
        covered <= MAX_SHIFT,
        spots.len() == old(items).len(),
    ensures
        final(items)@ == items_scrolled(old(items)@, covered as int, spots@),
{
    let mut done: usize = 0;
    while done < items.len()
        invariant
            covered <= MAX_SHIFT,
            done <= items.len(),
            items.len() == old(items).len(),
            spots.len() == items.len(),
            forall|i: int|
                0 <= i < done ==> items@[i] == item_scrolled(
                    old(items)@[i],
                    covered as int,
                    spots@[i],
                ),
            forall|i: int| done <= i < items.len() ==> items@[i] == old(items)@[i],
        decreases items.len() - done,
    {
        let moved: Position = scroll_item(items[done], covered, spots[done]);
        items.set(done, moved);
        done += 1;
    }
    assert(items@ =~= items_scrolled(old(items)@, covered as int, spots@));
}

/// The numbers that the three text readouts show.
#[derive(Clone, Copy, Debug, PartialEq, Eq, Structural)]
pub struct Readout {
    pub score: u32,
    pub health: u8,
    /// The road speed, in thousandths of a pixel per second.
    pub speed: u64,
}

/// Every entity of the world, and the readouts.
#[derive(Clone, Debug, PartialEq, Eq)]
pub struct World {
    pub player: Player,
    pub road_markers: Vec<Position>,
    pub obstacles: Vec<Position>,
    pub collectibles: Vec<Position>,
    pub buff: Position,
    pub readout: Readout,
}

/// The world as plain values.
pub struct WorldView {
    pub player: Player,
    pub road_markers: Seq<Position>,
    pub obstacles: Seq<Position>,
    pub collectibles: Seq<Position>,
    pub buff: Position,
    pub readout: Readout,
}

impl View for World {
    type V = WorldView;

    open spec fn view(&self) -> WorldView {
        WorldView {
            player: self.player,
            road_markers: self.road_markers@,
            obstacles: self.obstacles@,
            collectibles: self.collectibles@,
            buff: self.buff,
            readout: self.readout,
        }
    }
}

impl WorldView {
    /// The world at the start of a session: the player at rest in the middle
    /// of the track, ten road markers evenly spaced from the left, and the
    /// obstacles, the collectibles and the buff at the given spots.
    pub open spec fn arranged(
        obstacles: Seq<Position>,
        collectibles: Seq<Position>,
        buff: Position,
    ) -> WorldView {
        WorldView {
            player: Player {
                position: Position { x: PLAYER_X, y: 0 },
                scale: NORMAL_SCALE,
                rotation: 0,
            },
            road_markers: Seq::new(
                MARKER_COUNT as nat,
                |i: int| Position { x: (MARKER_START + MARKER_SPACING * i) as i64, y: 0 },
            ),
            obstacles,
            collectibles,
            buff,
            readout: Readout { score: 0, health: FULL_HEALTH, speed: BASE_ROAD_SPEED },
        }
    }

    /// Whether nothing is behind its edge: no road marker left of the marker
    /// edge, and no obstacle, no collectible and not the buff left of the
    /// recycle edge.
    pub open spec fn in_view(self) -> bool {
        &&& forall|i: int|
            0 <= i < self.road_markers.len() ==> (#[trigger] self.road_markers[i]).x
                >= MARKER_EDGE
        &&& forall|i: int|
            0 <= i < self.obstacles.len() ==> (#[trigger] self.obstacles[i]).x >= RECYCLE_EDGE
        &&& forall|i: int|
            0 <= i < self.collectibles.len() ==> (#[trigger] self.collectibles[i]).x
                >= RECYCLE_EDGE
        &&& self.buff.x >= RECYCLE_EDGE
    }

    /// The world after everything but the player has scrolled for `delta`
    /// nanoseconds: road markers and obstacles at the road speed times the
    /// multiplier, collectibles and the buff a quarter faster; what is
    /// recycled reappears at its spot among `draws`.
    pub open spec fn scrolled(
        self,
        road_speed: u64,
        multiplier: u32,
        delta: u64,
        draws: DrawsView,
    ) -> WorldView {
        let plain = distance(
            effective_speed(road_speed as int, PLAIN_FACTOR as int, multiplier as int),
            delta as int,
        );
        let fast = distance(
            effective_speed(road_speed as int, FAST_FACTOR as int, multiplier as int),
            delta as int,
        );
        WorldView {
            road_markers: markers_scrolled(self.road_markers, plain),
            obstacles: items_scrolled(self.obstacles, plain, draws.obstacles),
            collectibles: items_scrolled(self.collectibles, fast, draws.collectibles),
            buff: item_scrolled(self.buff, fast, draws.buff),
            ..self
        }
    }
}

impl World {
    /// Sets up the world with the obstacles, the collectibles and the buff at
    /// the given spots.
    pub fn arrange(obstacles: Vec<Position>, collectibles: Vec<Position>, buff: Position) -> (world:
        World)
        ensures
            world@ == WorldView::arranged(obstacles@, collectibles@, buff),
    {
        let mut road_markers: Vec<Position> = Vec::new();
        let mut x: i64 = MARKER_START;
        while road_markers.len() < MARKER_COUNT
            invariant
                road_markers.len() <= MARKER_COUNT,
                x == MARKER_START + MARKER_SPACING * road_markers.len(),
                forall|i: int|
                    0 <= i < road_markers.len() ==> road_markers@[i] == (Position {
                        x: (MARKER_START + MARKER_SPACING * i) as i64,
                        y: 0,
                    }),
            decreases MARKER_COUNT - road_markers.len(),
        {
            road_markers.push(Position { x, y: 0 });
            x += MARKER_SPACING;
        }
        let world = World {
            player: Player {
                position: Position { x: PLAYER_X, y: 0 },
                scale: NORMAL_SCALE,
                rotation: 0,
            },
            road_markers,
            obstacles,
            collectibles,
            buff,
            readout: Readout { score: 0, health: FULL_HEALTH, speed: BASE_ROAD_SPEED },
        };
        assert(world@.road_markers =~= WorldView::arranged(
            obstacles@,
            collectibles@,
            buff,
        ).road_markers);
        world
    }

    /// Sets up the world with three obstacles at random spots of the near
    /// band, and four collectibles and the buff at random spots of the far
    /// band.
    pub fn spawn() -> (world: World)
        ensures
            exists|obstacles: Seq<Position>, collectibles: Seq<Position>, buff: Position|
                {
                    &&& obstacles.len() == OBSTACLE_COUNT
                    &&& collectibles.len() == COLLECTIBLE_COUNT
                    &&& Band::Near.holds_all(obstacles)
                    &&& Band::Far.holds_all(collectibles)
                    &&& Band::Far.holds(buff)
                    &&& world@ == WorldView::arranged(obstacles, collectibles, buff)
                },
    {
        let obstacles: Vec<Position> = draw_spots(Band::Near, OBSTACLE_COUNT);
        let collectibles: Vec<Position> = draw_spots(Band::Far, COLLECTIBLE_COUNT);
        let buff: Position = draw_spot(Band::Far);
        let ghost near = obstacles@;
        let ghost far = collectibles@;
        let world = World::arrange(obstacles, collectibles, buff);
        assert(near.len() == OBSTACLE_COUNT && far.len() == COLLECTIBLE_COUNT
            && Band::Near.holds_all(near) && Band::Far.holds_all(far) && Band::Far.holds(buff)
            && world@ == WorldView::arranged(near, far, buff));
        world
    }

    /// Scrolls everything but the player for one frame.
    pub fn scroll(&mut self, road_speed: u64, multiplier: u32, delta: u64, draws: &Draws)
        requires
            road_speed <= MAX_ROAD_SPEED,
            multiplier <= UNIT_FACTOR,
            draws.obstacles.len() == old(self).obstacles.len(),
            draws.collectibles.len() == old(self).collectibles.len(),
        ensures
            final(self)@ == old(self)@.scrolled(road_speed, multiplier, delta, draws@),
    {
        let plain: u128 = travel(scroll_speed(road_speed, PLAIN_FACTOR, multiplier), delta);
        let fast: u128 = travel(scroll_speed(road_speed, FAST_FACTOR, multiplier), delta);
        scroll_markers(&mut self.road_markers, plain);
        scroll_items(&mut self.obstacles, plain, &draws.obstacles);
        scroll_items(&mut self.collectibles, fast, &draws.collectibles);
        self.buff = scroll_item(self.buff, fast, draws.buff);
    }
}

} // verus!
