use road_rush::contact::{Collision, Contact, Entity};

#[test]
fn fixed_names_are_recognised() {
    assert_eq!(Entity::named("player1"), Entity::Player);
    assert_eq!(Entity::named("buff"), Entity::Buff);
}

#[test]
fn numbered_names_are_recognised() {
    for index in 0..10 {
        assert_eq!(Entity::named(&format!("roadline{}", index)), Entity::RoadMarker(index));
    }
    for index in 0..3 {
        assert_eq!(Entity::named(&format!("obstacle{}", index)), Entity::Obstacle(index));
    }
    assert_eq!(Entity::named("obstacle120"), Entity::Obstacle(120));
    assert_eq!(Entity::named("roadline4096"), Entity::RoadMarker(4096));
}

#[test]
fn collectibles_are_counted_from_one() {
    assert_eq!(Entity::named("score1"), Entity::Collectible(0));
    assert_eq!(Entity::named("score2"), Entity::Collectible(1));
    assert_eq!(Entity::named("score4"), Entity::Collectible(3));
    assert_eq!(Entity::named("score10"), Entity::Collectible(9));
    assert_eq!(Entity::named("score0"), Entity::Other);
}

#[test]
fn other_labels_name_nothing() {
    for label in [
        "",
        "player",
        "player2",
        "player12",
        "Player1",
        "buffer",
        "buf",
        "score",
        "score01",
        "score1 ",
        "score-1",
        "score1a",
        "roadline",
        "roadline00",
        "roadline+3",
        "obstacle",
        "obstacle 1",
        "obstacles1",
        "1",
        "game over",
        "scor\u{e9}1",
        "obstacle\u{663}",
    ] {
        assert_eq!(Entity::named(label), Entity::Other, "{:?}", label);
    }
}

#[test]
fn largest_index_is_read_and_anything_larger_is_not() {
    let largest = format!("obstacle{}", usize::MAX);
    assert_eq!(Entity::named(&largest), Entity::Obstacle(usize::MAX));
    let next = format!("obstacle{}", usize::MAX as u128 + 1);
    assert_eq!(Entity::named(&next), Entity::Other);
    assert_eq!(Entity::named(&format!("obstacle{}0", usize::MAX)), Entity::Other);
    assert_eq!(Entity::named("roadline99999999999999999999999999999999999999"), Entity::Other);
    let largest = format!("score{}", usize::MAX);
    assert_eq!(Entity::named(&largest), Entity::Collectible(usize::MAX - 1));
}

#[test]
fn entities_are_written_under_their_names() {
    assert_eq!(Entity::Player.label(), "player1");
    assert_eq!(Entity::Buff.label(), "buff");
    assert_eq!(Entity::RoadMarker(0).label(), "roadline0");
    assert_eq!(Entity::RoadMarker(9).label(), "roadline9");
    assert_eq!(Entity::Obstacle(2).label(), "obstacle2");
    assert_eq!(Entity::Obstacle(1_234).label(), "obstacle1234");
    assert_eq!(Entity::Collectible(0).label(), "score1");
    assert_eq!(Entity::Collectible(3).label(), "score4");
    assert_eq!(Entity::Collectible(usize::MAX).label(), format!("score{}", usize::MAX as u128 + 1));
    assert_eq!(Entity::Other.label(), "");
}

#[test]
fn every_entity_is_found_again_under_its_name() {
    let mut entities = vec![Entity::Player, Entity::Buff, Entity::Other];
    for index in [0, 1, 9, 10, 99, 100, 65_535, usize::MAX - 1] {
        entities.push(Entity::RoadMarker(index));
        entities.push(Entity::Obstacle(index));
        entities.push(Entity::Collectible(index));
    }
    entities.push(Entity::RoadMarker(usize::MAX));
    entities.push(Entity::Obstacle(usize::MAX));
    for entity in entities {
        assert_eq!(Entity::named(&entity.label()), entity);
    }
}

#[test]
fn unnamed_collidable_counts_as_a_hit() {
    let collision = Collision {
        first: Entity::named("player1"),
        second: Entity::named("boulder"),
        begins: true,
    };
    assert_eq!(collision.classify(), Contact::Hit);
    let collision = Collision {
        first: Entity::named("score3"),
        second: Entity::named("player1"),
        begins: true,
    };
    assert_eq!(collision.classify(), Contact::Collectible(2));
}
