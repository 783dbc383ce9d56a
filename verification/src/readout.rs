//! The lines of text that show score, health and speed.

use vstd::prelude::*;
use vstd::string::StringExecFns;
use crate::decimal::{decimal, push_decimal};
use crate::world::Readout;

verus! {

/// A speed in tenths of a pixel per second, rounded to the nearest, halves
/// up.
pub open spec fn tenths(speed: u64) -> nat {
    ((speed + 50) / 100) as nat
}

/// The line that shows the score.
pub open spec fn score_line(score: u32) -> Seq<char> {
    "Score: "@ + decimal(score as nat)
}

/// The line that shows the health.
pub open spec fn health_line(health: u8) -> Seq<char> {
    "Health: "@ + decimal(health as nat)
}

/// The line that shows the road speed in pixels per second, with one decimal
/// place.
pub open spec fn speed_line(speed: u64) -> Seq<char> {
    "Speed: "@ + decimal(tenths(speed) / 10) + "."@ + decimal(tenths(speed) % 10)
}

impl Readout {
    /// The line that shows the score.
    pub fn score_text(&self) -> (text: String)
        ensures
            text@ == score_line(self.score),
    {
        let mut text: String = String::from_str("Score: ");
        push_decimal(&mut text, self.score as u128);
        text
    }

    /// The line that shows the health.
    pub fn health_text(&self) -> (text: String)
        ensures
            text@ == health_line(self.health),
    {
        let mut text: String = String::from_str("Health: ");
        push_decimal(&mut text, self.health as u128);
        text
    }

    /// The line that shows the road speed.
    pub fn speed_text(&self) -> (text: String)
        ensures
            text@ == speed_line(self.speed),
    {
        let rounded: u128 = (self.speed as u128 + 50) / 100;
        let mut text: String = String::from_str("Speed: ");
        push_decimal(&mut text, rounded / 10);
        text.append(".");
        push_decimal(&mut text, rounded % 10);
        text
    }
}

} // verus!
