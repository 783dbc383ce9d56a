//! The random draws of the game: where a recycled entity reappears and what
//! the buff does.

use vstd::prelude::*;
use rand::Rng;
use crate::world::{Band, Position, BAND_BOTTOM, BAND_LEFT, BAND_TOP, FAR_RIGHT, NEAR_RIGHT};

verus! {

/// The buff roll is drawn from zero up to this, exclusive: two, in
/// thousandths.
pub const ROLL_SPAN: u32 = 2_000;

/// A buff roll above this gives invulnerability, any other slow mode: one, in
/// thousandths.
pub const ROLL_EDGE: u32 = 1_000;

/// What is drawn for one collision: a roll that decides what the buff does,
/// and a spot in the far band for the entity that was touched.
#[derive(Clone, Copy, Debug, PartialEq, Eq, Structural)]
pub struct ContactDraw {
    pub roll: u32,
    pub spot: Position,
}

/// Everything that is drawn for one frame: a spot for each obstacle, for each
/// collectible and for the buff, used if the entity is recycled, and a draw
/// for each collision.
#[derive(Clone, Debug, PartialEq, Eq)]
pub struct Draws {
    pub obstacles: Vec<Position>,
    pub collectibles: Vec<Position>,
    pub buff: Position,
    pub contacts: Vec<ContactDraw>,
}

/// The draws of one frame as plain values.
pub struct DrawsView {
    pub obstacles: Seq<Position>,
    pub collectibles: Seq<Position>,
    pub buff: Position,
    pub contacts: Seq<ContactDraw>,
}

impl View for Draws {
    type V = DrawsView;

    open spec fn view(&self) -> DrawsView {
        DrawsView {
            obstacles: self.obstacles@,
            collectibles: self.collectibles@,
            buff: self.buff,
            contacts: self.contacts@,
        }
    }
}

impl DrawsView {
    /// Whether the draws could have come from the dice: obstacle spots in the
    /// near band, every other spot in the far band, every roll below the
    /// span.
    pub open spec fn fair(self) -> bool {
        &&& Band::Near.holds_all(self.obstacles)
        &&& Band::Far.holds_all(self.collectibles)
        &&& Band::Far.holds(self.buff)
        &&& forall|i: int|
            0 <= i < self.contacts.len() ==> {
                &&& (#[trigger] self.contacts[i]).roll < ROLL_SPAN
                &&& Band::Far.holds(self.contacts[i].spot)
            }
    }

    /// Whether there is a spot for each of `obstacles` obstacles and
    /// `collectibles` collectibles and a draw for each of `contacts`
    /// collisions.
    pub open spec fn fits(self, obstacles: nat, collectibles: nat, contacts: nat) -> bool {
        &&& self.obstacles.len() == obstacles
        &&& self.collectibles.len() == collectibles
        &&& self.contacts.len() == contacts
    }
}

/// Calls `rand::thread_rng().gen_range(low..high)`, which draws an integer
/// uniformly from `low` up to `high`, exclusive, and panics on an empty range.
/// Nothing is claimed of the draw but that it lies in the range.
#[verifier::external_body]
fn uniform(low: i64, high: i64) -> (drawn: i64)
    requires
        low < high,
    ensures
        low <= drawn < high,
{
    rand::thread_rng().gen_range(low..high)
}

/// Draws a spot in `band`.
pub fn draw_spot(band: Band) -> (spot: Position)
    ensures
        band.holds(spot),
{
    let right: i64 = match band {
        Band::Near => NEAR_RIGHT,
        Band::Far => FAR_RIGHT,
    };
    let x: i64 = uniform(BAND_LEFT, right);
    let y: i64 = uniform(BAND_BOTTOM, BAND_TOP);
    Position { x, y }
}

/// Draws `count` spots in `band`.
pub fn draw_spots(band: Band, count: usize) -> (spots: Vec<Position>)
    ensures
        spots.len() == count,
        band.holds_all(spots@),
{
    let mut spots: Vec<Position> = Vec::new();
    while spots.len() < count
        invariant
            spots.len() <= count,
            band.holds_all(spots@),
        decreases count - spots.len(),
    {
        let spot: Position = draw_spot(band);
        spots.push(spot);
    }
    spots
}

/// Draws what one collision may need.
pub fn draw_contact() -> (draw: ContactDraw)
    ensures
        draw.roll < ROLL_SPAN,
        Band::Far.holds(draw.spot),
{
    let roll: i64 = uniform(0, ROLL_SPAN as i64);
    let spot: Position = draw_spot(Band::Far);
    ContactDraw { roll: roll as u32, spot }
}

/// The draws of a frame that needs none: no spots for obstacles and
/// collectibles, no draws for collisions, and for the buff the corner of the
/// far band.
pub fn draw_nothing() -> (draws: Draws)
    ensures
        draws@.fair(),
        draws@.fits(0, 0, 0),
        draws.buff == (Position { x: BAND_LEFT, y: BAND_BOTTOM }),
{
    Draws {
        obstacles: Vec::new(),
        collectibles: Vec::new(),
        buff: Position { x: BAND_LEFT, y: BAND_BOTTOM },
        contacts: Vec::new(),
    }
}

/// Draws everything that a frame with `obstacles` obstacles, `collectibles`
/// collectibles and `contacts` collisions may need.
pub fn draw_frame(obstacles: usize, collectibles: usize, contacts: usize) -> (draws: Draws)
    ensures
        draws@.fair(),
        draws@.fits(obstacles as nat, collectibles as nat, contacts as nat),
{
    let near: Vec<Position> = draw_spots(Band::Near, obstacles);
    let far: Vec<Position> = draw_spots(Band::Far, collectibles);
    let buff: Position = draw_spot(Band::Far);
    let mut drawn: Vec<ContactDraw> = Vec::new();
    while drawn.len() < contacts
        invariant
            drawn.len() <= contacts,
            forall|i: int|
                0 <= i < drawn.len() ==> {
                    &&& (#[trigger] drawn@[i]).roll < ROLL_SPAN
                    &&& Band::Far.holds(drawn@[i].spot)
                },
        decreases contacts - drawn.len(),
    {
        let draw: ContactDraw = draw_contact();
        drawn.push(draw);
    }
    Draws { obstacles: near, collectibles: far, buff, contacts: drawn }
}

} // verus!
