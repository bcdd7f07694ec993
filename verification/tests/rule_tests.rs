use langton::direction::{ConfigError, Direction};
use langton::rule::Rule;

#[test]
fn rule_rl_palette_endpoints_exact() {
    let rule = Rule::new("RL", (0x000000, 0xFFFFFF)).unwrap_or_else(|_| panic!());
    assert_eq!(rule.len(), 2);
    assert_eq!(rule.colors.len(), 2);
    assert_eq!(rule.get_rule_color(0), 0x000000);
    assert_eq!(rule.get_rule_color(1), 0xFFFFFF);
}

#[test]
fn rule_rl_turn_sequence() {
    let rule = Rule::new("RL", (0x000000, 0xFFFFFF)).unwrap_or_else(|_| panic!());
    assert_eq!(rule.get_rule_direction(0), Direction::Right);
    assert_eq!(rule.get_rule_direction(1), Direction::Left);
}

#[test]
fn rule_rejects_invalid_character() {
    match Rule::new("RXL", (0x000000, 0xFFFFFF)) {
        Err(e) => assert_eq!(e, ConfigError::InvalidTurnToken),
        Ok(_) => panic!("a turn string with an invalid character was accepted"),
    }
}

#[test]
fn rule_single_state_takes_start_color() {
    let rule = Rule::new("R", (0x123456, 0xABCDEF)).unwrap_or_else(|_| panic!());
    assert_eq!(rule.len(), 1);
    assert_eq!(rule.get_rule_color(0), 0x123456);
}

#[test]
fn rule_gradient_midpoint_truncates() {
    // Three states from 0x000000 to 0xFF00FF: the middle entry interpolates
    // each channel at t = 1/2, truncated to whole units (255 / 2 = 127).
    let rule = Rule::new("RLR", (0x000000, 0xFF00FF)).unwrap_or_else(|_| panic!());
    assert_eq!(rule.len(), 3);
    assert_eq!(rule.get_rule_color(0), 0x000000);
    assert_eq!(rule.get_rule_color(1), 0x7F007F);
    assert_eq!(rule.get_rule_color(2), 0xFF00FF);
}

#[test]
fn rule_gradient_descends_toward_darker_end() {
    let rule = Rule::new("LR", (0xFFFFFF, 0x000000)).unwrap_or_else(|_| panic!());
    assert_eq!(rule.get_rule_color(0), 0xFFFFFF);
    assert_eq!(rule.get_rule_color(1), 0x000000);
    assert_eq!(rule.get_rule_direction(0), Direction::Left);
    assert_eq!(rule.get_rule_direction(1), Direction::Right);
}

#[test]
fn rule_gradient_quarters() {
    // Five states from 0x000000 to 0x0000FF: blue rises by whole quarters
    // 0, 63, 127, 191, 255 (each truncated from 255 * i / 4).
    let rule = Rule::new("RRRRR", (0x000000, 0x0000FF)).unwrap_or_else(|_| panic!());
    assert_eq!(rule.get_rule_color(0), 0x000000);
    assert_eq!(rule.get_rule_color(1), 0x00003F);
    assert_eq!(rule.get_rule_color(2), 0x00007F);
    assert_eq!(rule.get_rule_color(3), 0x0000BF);
    assert_eq!(rule.get_rule_color(4), 0x0000FF);
}

#[test]
fn rule_clone_preserves_contents() {
    let rule = Rule::new("RLLR", (0x112233, 0x445566)).unwrap_or_else(|_| panic!());
    let copy = rule.clone();
    assert_eq!(copy.len(), rule.len());
    for i in 0..rule.len() {
        assert_eq!(copy.get_rule_direction(i), rule.get_rule_direction(i));
        assert_eq!(copy.get_rule_color(i), rule.get_rule_color(i));
    }
}
