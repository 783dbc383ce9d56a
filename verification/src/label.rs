//! The names under which the entities are known outside the game.
//!
//! The player is `player1`, the buff is `buff`, the road markers are
//! `roadline0`, `roadline1` and so on, the obstacles `obstacle0` and so on,
//! and the collectibles `score1`, `score2` and so on, counted from one.

use vstd::prelude::*;
use vstd::string::{StrSliceExecFns, StringExecFns};
use crate::contact::Entity;
use crate::decimal::{
    decimal, digit_value, lemma_decimal_reads_back, lemma_numeral_is_decimal,
    lemma_too_large_stays, number_within, numeral, push_decimal, read_digit,
};

verus! {

/// The name of an entity. Anything else has no name.
pub open spec fn label_of(entity: Entity) -> Seq<char> {
    match entity {
        Entity::Player => "player1"@,
        Entity::RoadMarker(index) => "roadline"@ + decimal(index as nat),
        Entity::Obstacle(index) => "obstacle"@ + decimal(index as nat),
        Entity::Collectible(index) => "score"@ + decimal((index + 1) as nat),
        Entity::Buff => "buff"@,
        Entity::Other => Seq::empty(),
    }
}

/// The index that a numeral stands for, if it is one that an index can hold.
pub open spec fn numbered(digits: Seq<char>) -> Option<usize> {
    if numeral(digits) {
        match number_within(digits, usize::MAX as nat) {
            Some(value) => Some(value as usize),
            None => None,
        }
    } else {
        None
    }
}

/// The index behind `tag` in `label`, if the label is the tag followed by a
/// numeral.
pub open spec fn indexed(label: Seq<char>, tag: Seq<char>) -> Option<usize> {
    if tag.is_prefix_of(label) {
        numbered(label.skip(tag.len() as int))
    } else {
        None
    }
}

/// The entity that a label names; anything else for a label that names none.
pub open spec fn entity_of(label: Seq<char>) -> Entity {
    if label == "player1"@ {
        Entity::Player
    } else if label == "buff"@ {
        Entity::Buff
    } else if let Some(index) = indexed(label, "roadline"@) {
        Entity::RoadMarker(index)
    } else if let Some(index) = indexed(label, "obstacle"@) {
        Entity::Obstacle(index)
    } else if let Some(count) = indexed(label, "score"@) {
        if count > 0 {
            Entity::Collectible((count - 1) as usize)
        } else {
            Entity::Other
        }
    } else {
        Entity::Other
    }
}

/// Whether `label` begins with `tag`.
fn begins_with(label: &str, tag: &str) -> (yes: bool)
    ensures
        yes == tag@.is_prefix_of(label@),
{
    let length: usize = tag.unicode_len();
    if label.unicode_len() < length {
        return false;
    }
    let mut at: usize = 0;
    while at < length
        invariant
            at <= length,
            length == tag@.len(),
            length <= label@.len(),
            forall|i: int| 0 <= i < at ==> label@[i] == tag@[i],
        decreases length - at,
    {
        if label.get_char(at) != tag.get_char(at) {
            assert(label@.subrange(0, length as int)[at as int] != tag@[at as int]);
            return false;
        }
        at += 1;
    }
    assert(tag@ =~= label@.subrange(0, length as int));
    true
}

/// Whether `label` is `name`.
fn is_named(label: &str, name: &str) -> (yes: bool)
    ensures
        yes == (label@ == name@),
{
    let yes: bool = label.unicode_len() == name.unicode_len() && begins_with(label, name);
    proof {
        if yes {
            assert(label@ =~= label@.subrange(0, name@.len() as int));
        }
        if label@ == name@ {
            assert(name@ =~= label@.subrange(0, name@.len() as int));
        }
    }
    yes
}

/// Reads the index behind the tag of a label.
fn read_index(label: &str, tag: &str) -> (index: Option<usize>)
    requires
        tag@.is_prefix_of(label@),
    ensures
        index == indexed(label@, tag@),
{
    let start: usize = tag.unicode_len();
    let end: usize = label.unicode_len();
    let ghost digits = label@.skip(start as int);
    if start == end {
        return None;
    }
    if end - start > 1 && label.get_char(start) == '0' {
        assert(digits[0] == '0');
        return None;
    }
    let mut value: usize = 0;
    let mut at: usize = start;
    while at < end
        invariant
            start <= at <= end,
            end == label@.len(),
            start == tag@.len(),
            tag@.is_prefix_of(label@),
            digits == label@.skip(start as int),
            number_within(digits.take(at - start), usize::MAX as nat) == Some(value as nat),
            forall|i: int| 0 <= i < at - start ==> digit_value(#[trigger] digits[i]).is_some(),
        decreases end - at,
    {
        let ghost seen = digits.take(at - start + 1);
        assert(seen.drop_last() =~= digits.take(at - start));
        assert(seen.last() == label@[at as int]);
        match read_digit(label.get_char(at)) {
            None => {
                assert(digits[at - start] == label@[at as int]);
                return None;
            },
            Some(unit) => {
                if value > (usize::MAX - unit) / 10 {
                    proof {
                        assert(number_within(seen, usize::MAX as nat).is_none());
                        lemma_too_large_stays(digits, at - start + 1, usize::MAX as nat);
                    }
                    return None;
                }
                value = value * 10 + unit;
            },
        }
        assert(digits[at - start] == label@[at as int]);
        at += 1;
    }
    assert(digits.take(at - start) =~= digits);
    Some(value)
}

/// The index behind `tag` in `label`, if the label is the tag followed by a
/// numeral.
fn index_behind(label: &str, tag: &str) -> (index: Option<usize>)
    ensures
        index == indexed(label@, tag@),
{
    if begins_with(label, tag) {
        read_index(label, tag)
    } else {
        None
    }
}

impl Entity {
    /// Finds the entity that a label names.
    pub fn named(label: &str) -> (entity: Entity)
        ensures
            entity == entity_of(label@),
    {
        if is_named(label, "player1") {
            Entity::Player
        } else if is_named(label, "buff") {
            Entity::Buff
        } else if let Some(index) = index_behind(label, "roadline") {
            Entity::RoadMarker(index)
        } else if let Some(index) = index_behind(label, "obstacle") {
            Entity::Obstacle(index)
        } else if let Some(count) = index_behind(label, "score") {
            if count > 0 {
                Entity::Collectible(count - 1)
            } else {
                Entity::Other
            }
        } else {
            Entity::Other
        }
    }

    /// The name of the entity.
    pub fn label(&self) -> (text: String)
        ensures
            text@ == label_of(*self),
    {
        match self {
            Entity::Player => String::from_str("player1"),
            Entity::RoadMarker(index) => {
                let mut text: String = String::from_str("roadline");
                push_decimal(&mut text, *index as u128);
                text
            },
            Entity::Obstacle(index) => {
                let mut text: String = String::from_str("obstacle");
                push_decimal(&mut text, *index as u128);
                text
            },
            Entity::Collectible(index) => {
                let mut text: String = String::from_str("score");
                push_decimal(&mut text, *index as u128 + 1);
                text
            },
            Entity::Buff => String::from_str("buff"),
            Entity::Other => String::new(),
        }
    }
}

/// A tag followed by a number in decimal digits is read as that number.
proof fn lemma_tagged_number_reads_back(tag: Seq<char>, value: nat)
    requires
        value <= usize::MAX,
    ensures
        indexed(tag + decimal(value), tag) == Some(value as usize),
{
    let label = tag + decimal(value);
    assert(tag =~= label.subrange(0, tag.len() as int));
    assert(label.skip(tag.len() as int) =~= decimal(value));
    lemma_decimal_reads_back(value, usize::MAX as nat);
}

/// A label from which an index is read is the tag followed by that index in
/// decimal digits.
proof fn lemma_read_index_was_written(label: Seq<char>, tag: Seq<char>)
    requires
        indexed(label, tag).is_some(),
    ensures
        label == tag + decimal(indexed(label, tag).unwrap() as nat),
{
    let digits = label.skip(tag.len() as int);
    lemma_numeral_is_decimal(digits, usize::MAX as nat);
    assert(label =~= label.subrange(0, tag.len() as int) + digits);
}

/// Every entity is found again under its name.
pub proof fn law_names_read_back(entity: Entity)
    requires
        entity != Entity::Collectible(usize::MAX),
    ensures
        entity_of(label_of(entity)) == entity,
{
    reveal_strlit("player1");
    reveal_strlit("buff");
    reveal_strlit("roadline");
    reveal_strlit("obstacle");
    reveal_strlit("score");
    let label = label_of(entity);
    match entity {
        Entity::Player => {},
        Entity::Buff => {
            assert(label[0] == 'b');
        },
        Entity::RoadMarker(index) => {
            assert(label[0] == 'r');
            lemma_tagged_number_reads_back("roadline"@, index as nat);
        },
        Entity::Obstacle(index) => {
            assert(label[0] == 'o');
            assert(label.subrange(0, 8)[0] == 'o');
            lemma_tagged_number_reads_back("obstacle"@, index as nat);
        },
        Entity::Collectible(index) => {
            assert(label[0] == 's');
            if label.len() >= 8 {
                assert(label.subrange(0, 8)[0] == 's');
            }
            lemma_tagged_number_reads_back("score"@, (index + 1) as nat);
        },
        Entity::Other => {
            assert(label.len() == 0);
        },
    }
}

/// A label that names an entity is the name of that entity, so no two
/// labels name the same one.
pub proof fn law_named_entity_has_that_name(label: Seq<char>)
    requires
        entity_of(label) != Entity::Other,
    ensures
        label_of(entity_of(label)) == label,
{
    if label == "player1"@ || label == "buff"@ {
    } else if indexed(label, "roadline"@).is_some() {
        lemma_read_index_was_written(label, "roadline"@);
    } else if indexed(label, "obstacle"@).is_some() {
        lemma_read_index_was_written(label, "obstacle"@);
    } else {
        lemma_read_index_was_written(label, "score"@);
    }
}

} // verus!
