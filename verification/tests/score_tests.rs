use target_range::classic_game_scene::Score as ClassicScore;
use target_range::hit_and_dodge_scene::Score as ArenaScore;
use target_range::hit_and_dodge_score_scene::HitAndDodgeGameScoreDisplay;
use target_range::message::{Message, MessageValue};

#[test]
fn classic_score_message_averages_the_reaction_time() {
    let score = ClassicScore { hit: 2, miss: 1, score: 1500, total_shoot_time: 3000 };
    let mut msg = Message::new();
    score.write_message(&mut msg);
    assert!(matches!(msg.get("hit"), Some(MessageValue::I32(2))));
    assert!(matches!(msg.get("miss"), Some(MessageValue::I32(1))));
    assert!(matches!(msg.get("score"), Some(MessageValue::I32(1500))));
    // Three seconds over two hits: fifteen hundred milliseconds each.
    assert!(matches!(msg.get("avg_hit_time"), Some(MessageValue::I64(1500))));
}

#[test]
fn score_message_with_no_hits_divides_by_one() {
    let score = ArenaScore { hit: 0, miss: 4, score: -400, total_shoot_time: 0 };
    let mut msg = Message::new();
    score.write_message(&mut msg);
    assert!(matches!(msg.get("hit"), Some(MessageValue::I64(0))));
    assert!(matches!(msg.get("score"), Some(MessageValue::I64(-400))));
    assert!(matches!(msg.get("avg_hit_time"), Some(MessageValue::I64(0))));
}

#[test]
fn report_recomputes_accuracy_from_the_counts() {
    let mut msg = Message::new();
    msg.insert("hit", MessageValue::I64(3));
    msg.insert("miss", MessageValue::I64(1));
    msg.insert("score", MessageValue::I64(250));
    msg.insert("accuracy", MessageValue::F64(0f64.to_bits()));
    msg.insert("created_at", MessageValue::Timestamp(12345));
    msg.insert("avg_hit_time", MessageValue::I64(900));
    let mut display = HitAndDodgeGameScoreDisplay::new();
    display.read_message(&Some(msg)).unwrap();
    // Three hits out of four shots: seventy-five percent.
    assert_eq!(display.accuracy, 75);
    assert_eq!(display.avg_hit_time, 900);
    assert_eq!(display.score, 250);
}

#[test]
fn report_without_a_message_keeps_its_zeros() {
    let mut display = HitAndDodgeGameScoreDisplay::new();
    display.read_message(&None).unwrap();
    assert_eq!(display.hit, 0);
    assert_eq!(display.accuracy, 0);
}
