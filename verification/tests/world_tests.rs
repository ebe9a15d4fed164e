use fujimura_silence::world::{
    employee_placement, expression_of, parse_locale, Expression, Locale, Motive,
};

#[test]
fn motive_index_round_trips() {
    for m in Motive::ALL {
        assert_eq!(Motive::ALL[m.index()], m);
    }
}

#[test]
fn parse_locale_variants() {
    assert_eq!(parse_locale("ja-JP").unwrap(), Locale::JaJp);
    assert_eq!(parse_locale("EN").unwrap(), Locale::EnUs);
    assert!(parse_locale("xx").is_err());
}

#[test]
fn locale_hierarchy_defaults_and_labels() {
    assert_eq!(Locale::JaJp.default_hierarchy_strength(), 4);
    assert_eq!(Locale::EnUs.default_hierarchy_strength(), 3);
    assert_eq!(Locale::JaJp.label(), "ja-JP");
    assert_eq!(Locale::EnUs.label(), "en-US");
    for l in [Locale::JaJp, Locale::EnUs] {
        assert_eq!(parse_locale(l.label()).unwrap(), l);
    }
}

#[test]
fn locale_aliases_and_error() {
    for w in ["ja", "JP", " Japan ", "japanese"] {
        assert_eq!(parse_locale(w).unwrap(), Locale::JaJp);
    }
    for w in ["en-us", "US", "English"] {
        assert_eq!(parse_locale(w).unwrap(), Locale::EnUs);
    }
    assert_eq!(
        parse_locale("xx").unwrap_err(),
        "invalid locale: \"xx\" (ja-JP / en-US)"
    );
}

#[test]
fn motive_and_expression_labels() {
    let labels: Vec<&str> = Motive::ALL.iter().map(|m| m.label()).collect();
    assert_eq!(labels, vec!["acquiescent", "quiescent", "prosocial", "opportunistic"]);
    assert_eq!(Motive::Prosocial.index(), 2);
    assert_eq!(Expression::Voice.label(), "voice");
    assert_eq!(Expression::Silence.label(), "silence");
    assert_eq!(Expression::Neutral.label(), "neutral");
}

#[test]
fn voicers_are_never_flipped() {
    assert_eq!(expression_of(true, true), Expression::Voice);
    assert_eq!(expression_of(true, false), Expression::Voice);
    assert_eq!(expression_of(false, true), Expression::Silence);
    assert_eq!(expression_of(false, false), Expression::Neutral);
}

#[test]
fn placement_assigns_teams_and_pyramid_levels() {
    assert_eq!(employee_placement(0, 10, 4), (0, 1));
    assert_eq!(employee_placement(9, 10, 4), (0, 2));
    assert_eq!(employee_placement(10, 10, 4), (1, 3));
    assert_eq!(employee_placement(23, 10, 4), (2, 4));
    // A team size or hierarchy of 0 counts as 1.
    assert_eq!(employee_placement(7, 0, 0), (7, 1));
    // Every employee of a 3 x 12 organisation lands in a valid team and level.
    for i in 0..36 {
        let (team, level) = employee_placement(i, 12, 4);
        assert!(team < 3);
        assert!((1..=4).contains(&level));
    }
}
