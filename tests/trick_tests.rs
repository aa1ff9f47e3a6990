use skate::chance::{resolve, CHANCE_SCALE};
use skate::trick::{
    Angle, CatchType, Category, Direction, FlipType, ParseError, Shuv, Stance, Trick, Turn,
};

fn parsed(input: &str) -> Trick {
    match Trick::parse(input) {
        Ok(t) => t,
        Err(e) => panic!("{} did not parse: {}", input, e.message()),
    }
}

fn as_fraction(chance: u64) -> f64 {
    chance as f64 / CHANCE_SCALE as f64
}

#[test]
fn ollie_alone() {
    let t = parsed("ollie");
    assert_eq!(t.stance, Stance::Ollie);
    assert_eq!(t.turn, None);
    assert_eq!(t.shuv, None);
    assert_eq!(t.flip, None);
    assert_eq!(t.catch, None);
    assert!(!t.revert);
    assert_eq!(t.calculate_chance(), 9_500_000_000_000_000);
    assert!((as_fraction(t.calculate_chance()) - 0.95).abs() < 1e-12);
}

#[test]
fn turn_and_flip_without_stance() {
    assert_eq!(Trick::parse("fs 360 kickflip"), Err(ParseError::MissingStance));
}

#[test]
fn turn_flip_and_stance() {
    let t = parsed("fs 360 kickflip ollie");
    assert_eq!(t.turn, Some(Turn { direction: Direction::Fs, angle: Angle::A360 }));
    assert_eq!(t.flip, Some(FlipType::Kickflip));
    assert_eq!(t.stance, Stance::Ollie);
    assert_eq!(t.shuv, None);
    assert_eq!(t.calculate_chance(), 4_788_000_000_000_000);
    assert!((as_fraction(t.calculate_chance()) - 0.4788).abs() < 1e-12);
}

#[test]
fn shuv_and_stance() {
    let t = parsed("fs 180 shuv ollie");
    assert_eq!(t.shuv, Some(Shuv { direction: Direction::Fs, angle: Angle::A180 }));
    assert_eq!(t.turn, None);
    assert_eq!(t.stance, Stance::Ollie);
    assert_eq!(t.calculate_chance(), 8_550_000_000_000_000);
}

#[test]
fn two_ollies() {
    assert_eq!(
        Trick::parse("ollie ollie"),
        Err(ParseError::DuplicateModifier(Category::Stance))
    );
}

#[test]
fn switch_and_ollie() {
    assert_eq!(
        Trick::parse("switch revert north ollie"),
        Err(ParseError::DuplicateModifier(Category::Stance))
    );
}

#[test]
fn duplicates_of_each_kind() {
    assert_eq!(
        Trick::parse("fs 180 ollie bs 360"),
        Err(ParseError::DuplicateModifier(Category::Turn))
    );
    assert_eq!(
        Trick::parse("fs 180 shuv ollie bs 180 shuv"),
        Err(ParseError::DuplicateModifier(Category::Shuv))
    );
    assert_eq!(
        Trick::parse("kickflip ollie heelflip"),
        Err(ParseError::DuplicateModifier(Category::Flip))
    );
    assert_eq!(
        Trick::parse("south ollie north"),
        Err(ParseError::DuplicateModifier(Category::Catch))
    );
    assert_eq!(
        Trick::parse("revert ollie revert"),
        Err(ParseError::DuplicateModifier(Category::Revert))
    );
    assert_eq!(
        Trick::parse("nollie fakie"),
        Err(ParseError::DuplicateModifier(Category::Stance))
    );
}

#[test]
fn empty_and_blank_input() {
    assert_eq!(Trick::parse(""), Err(ParseError::MissingStance));
    assert_eq!(Trick::parse("   \t "), Err(ParseError::MissingStance));
}

#[test]
fn direction_without_angle() {
    assert_eq!(Trick::parse("ollie fs"), Err(ParseError::MissingAngleOrDirection));
    assert_eq!(Trick::parse("bs 90 ollie"), Err(ParseError::MissingAngleOrDirection));
}

#[test]
fn unknown_word() {
    assert_eq!(
        Trick::parse("ollie impossible"),
        Err(ParseError::UnknownToken("impossible".to_string()))
    );
    assert_eq!(Trick::parse("180 ollie"), Err(ParseError::UnknownToken("180".to_string())));
}

#[test]
fn case_and_spacing_are_ignored() {
    let t = parsed("  BS   360  Shuv\tSWITCH Heelflip SOUTH Revert ");
    assert_eq!(t.shuv, Some(Shuv { direction: Direction::Bs, angle: Angle::A360 }));
    assert_eq!(t.stance, Stance::Switch);
    assert_eq!(t.flip, Some(FlipType::Heelflip));
    assert_eq!(t.catch, Some(CatchType::South));
    assert!(t.revert);
}

#[test]
fn shuv_at_the_end_of_the_phrase() {
    let t = parsed("ollie bs 360 shuv");
    assert_eq!(t.shuv, Some(Shuv { direction: Direction::Bs, angle: Angle::A360 }));
    assert_eq!(t.turn, None);
    let u = parsed("ollie bs 360");
    assert_eq!(u.turn, Some(Turn { direction: Direction::Bs, angle: Angle::A360 }));
    assert_eq!(u.shuv, None);
}

#[test]
fn turn_and_shuv_together() {
    let t = parsed("fs 360 nollie bs 360 shuv");
    assert_eq!(t.turn, Some(Turn { direction: Direction::Fs, angle: Angle::A360 }));
    assert_eq!(t.shuv, Some(Shuv { direction: Direction::Bs, angle: Angle::A360 }));
    // 0.90 stance, 0.9 turn, 0.9 shuv, 0.8 and 0.8 for the two 360s
    assert_eq!(t.calculate_chance(), 4_665_600_000_000_000);
}

#[test]
fn hardest_trick() {
    let t = parsed("bs 360 switch fs 360 shuv kickflip north revert");
    // 0.7 * 0.9 * 0.9 * 0.7 * 0.8 * 0.85 * 0.8 * 0.8
    assert_eq!(t.calculate_chance(), 1_727_308_800_000_000);
    assert!(t.calculate_chance() > 0);
}

#[test]
fn chance_falls_as_modifiers_are_added() {
    let steps = [
        "fakie",
        "fakie heelflip",
        "fakie heelflip north",
        "fakie heelflip north revert",
        "fs 180 fakie heelflip north revert",
        "fs 360 fakie heelflip north revert",
        "fs 360 fakie bs 360 shuv heelflip north revert",
    ];
    let mut last = CHANCE_SCALE;
    for s in steps.iter() {
        let c = parsed(s).calculate_chance();
        assert!(0 < c && c <= last, "{}", s);
        last = c;
    }
}

#[test]
fn every_stance_factor() {
    assert_eq!(parsed("nollie").calculate_chance(), 9_000_000_000_000_000);
    assert_eq!(parsed("fakie").calculate_chance(), 9_000_000_000_000_000);
    assert_eq!(parsed("switch").calculate_chance(), 7_000_000_000_000_000);
}

#[test]
fn resolve_at_the_boundary() {
    let p = 9_500_000_000_000_000;
    assert!(resolve(p - 1, p));
    assert!(!resolve(p, p));
    assert!(!resolve(p + 1, p));
    assert!(!resolve(0, 0));
    assert!(resolve(CHANCE_SCALE - 1, CHANCE_SCALE));
}

#[test]
fn land_trick_at_the_extremes() {
    let t = parsed("ollie");
    for _ in 0..50 {
        assert!(t.land_trick(CHANCE_SCALE));
        assert!(!t.land_trick(0));
    }
}

#[test]
fn messages() {
    assert_eq!(
        ParseError::DuplicateModifier(Category::Stance).message(),
        "Only one stance modifier allowed"
    );
    assert_eq!(
        ParseError::UnknownToken("grab".to_string()).message(),
        "Unknown component: grab"
    );
    assert_eq!(
        ParseError::MissingStance.message(),
        "A stance (ollie, nollie, fakie, or switch) is required"
    );
    assert_eq!(
        ParseError::MissingAngleOrDirection.message(),
        "Turn or shuv must have both direction and angle"
    );
}

#[test]
fn display_in_canonical_order() {
    let t = parsed("revert north kickflip fs 180 shuv ollie bs 360");
    assert_eq!(t.display(), "Backward 360 Ollie Forward 180 shuv Kickflip North revert");
    assert_eq!(parsed("nollie").display(), "Nollie");
}

#[test]
fn display_round_trip_without_rotations() {
    for s in ["ollie", "switch heelflip", "north fakie revert", "kickflip south nollie revert"] {
        let t = parsed(s);
        assert_eq!(Trick::parse(&t.display()), Ok(t));
    }
}

#[test]
fn parse_tokens_reads_lower_case_words() {
    let words = vec!["bs".to_string(), "180".to_string(), "fakie".to_string()];
    let t = Trick::parse_tokens(&words).unwrap();
    assert_eq!(t.turn, Some(Turn { direction: Direction::Bs, angle: Angle::A180 }));
    let upper = vec!["OLLIE".to_string()];
    assert_eq!(
        Trick::parse_tokens(&upper),
        Err(ParseError::UnknownToken("OLLIE".to_string()))
    );
}

#[test]
fn canonical_phrase_round_trip() {
    let t = parsed("revert south heelflip bs 180 shuv fs 360 nollie");
    let again = parsed("fs 360 nollie bs 180 shuv heelflip south revert");
    assert_eq!(t, again);
    assert_eq!(t.turn, Some(Turn { direction: Direction::Fs, angle: Angle::A360 }));
    assert_eq!(t.shuv, Some(Shuv { direction: Direction::Bs, angle: Angle::A180 }));
    assert_eq!(t.stance, Stance::Nollie);
}

#[test]
fn repeated_modifier_in_any_position() {
    for s in ["ollie kickflip kickflip", "kickflip ollie kickflip", "kickflip kickflip ollie"] {
        assert_eq!(Trick::parse(s), Err(ParseError::DuplicateModifier(Category::Flip)), "{}", s);
    }
    assert_eq!(
        Trick::parse("fs 180 ollie fs 180"),
        Err(ParseError::DuplicateModifier(Category::Turn))
    );
}
