use road_rush::decimal::push_decimal;
use road_rush::world::Readout;

fn shown(score: u32, health: u8, speed: u64) -> Readout {
    Readout { score, health, speed }
}

#[test]
fn numbers_are_written_in_decimal() {
    for (value, text) in [
        (0, "0"),
        (7, "7"),
        (10, "10"),
        (909, "909"),
        (1_234_567_890, "1234567890"),
        (u64::MAX as u128, "18446744073709551615"),
        (u128::MAX, "340282366920938463463374607431768211455"),
    ] {
        let mut line = String::from("n=");
        push_decimal(&mut line, value);
        assert_eq!(line, format!("n={}", text));
    }
}

#[test]
fn score_line_shows_the_score() {
    assert_eq!(shown(0, 5, 400_000).score_text(), "Score: 0");
    assert_eq!(shown(58, 5, 400_000).score_text(), "Score: 58");
    assert_eq!(shown(u32::MAX, 5, 400_000).score_text(), "Score: 4294967295");
}

#[test]
fn health_line_shows_the_health() {
    assert_eq!(shown(0, 5, 400_000).health_text(), "Health: 5");
    assert_eq!(shown(0, 0, 400_000).health_text(), "Health: 0");
    assert_eq!(shown(0, 255, 400_000).health_text(), "Health: 255");
}

#[test]
fn speed_line_shows_one_decimal_place() {
    assert_eq!(shown(0, 5, 400_000).speed_text(), "Speed: 400.0");
    assert_eq!(shown(0, 5, 440_000).speed_text(), "Speed: 440.0");
    assert_eq!(shown(0, 5, 532_400).speed_text(), "Speed: 532.4");
    assert_eq!(shown(0, 5, 585_640).speed_text(), "Speed: 585.6");
    assert_eq!(shown(0, 5, 708_624).speed_text(), "Speed: 708.6");
}

#[test]
fn speed_line_rounds_halves_up() {
    assert_eq!(shown(0, 5, 585_649).speed_text(), "Speed: 585.6");
    assert_eq!(shown(0, 5, 585_650).speed_text(), "Speed: 585.7");
    assert_eq!(shown(0, 5, 999_950).speed_text(), "Speed: 1000.0");
    assert_eq!(shown(0, 5, 49).speed_text(), "Speed: 0.0");
    assert_eq!(shown(0, 5, 50).speed_text(), "Speed: 0.1");
    assert_eq!(shown(0, 5, u64::MAX).speed_text(), "Speed: 18446744073709551.6");
}
