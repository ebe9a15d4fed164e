use fujimura_silence::metrics::{panel_motive_label, record_parse_outcome, tally, StepRecord};
use fujimura_silence::world::Motive;

fn rec(voiced: bool, silenced: bool, m: Option<Motive>, resigned: bool) -> StepRecord {
    StepRecord { voiced, silenced, silence_motive: m, resigned }
}

#[test]
fn tally_counts_each_behaviour() {
    let rs = vec![
        rec(false, true, Some(Motive::Acquiescent), true),
        rec(false, true, Some(Motive::Quiescent), false),
        rec(true, false, None, true),
        rec(true, true, Some(Motive::Acquiescent), true),
        rec(false, false, None, false),
        rec(false, true, None, true),
    ];
    let t = tally(&rs);
    assert_eq!(t.employees, 6);
    assert_eq!(t.voiced, 2);
    assert_eq!(t.silenced, 4);
    assert_eq!(t.resigned_silent, 3);
    assert_eq!(t.acquiescent, 2);
    assert_eq!(t.quiescent, 1);
    assert_eq!(t.prosocial, 0);
    assert_eq!(t.opportunistic, 0);
    assert_eq!(t.with_motive, 3);
}

#[test]
fn tally_of_nobody_is_zero() {
    let t = tally(&vec![]);
    assert_eq!(
        (t.employees, t.voiced, t.silenced, t.with_motive),
        (0, 0, 0, 0)
    );
}

#[test]
fn motive_counts_sum_to_silent_with_motive() {
    let rs = vec![
        rec(false, true, Some(Motive::Prosocial), false),
        rec(false, true, Some(Motive::Opportunistic), false),
        rec(false, false, Some(Motive::Quiescent), false),
    ];
    let t = tally(&rs);
    assert_eq!(t.acquiescent + t.quiescent + t.prosocial + t.opportunistic, t.with_motive);
    assert_eq!(t.with_motive, 2);
}

#[test]
fn panel_motive_labels() {
    assert_eq!(panel_motive_label(None), "-");
    assert_eq!(panel_motive_label(Some(Motive::Quiescent)), "quiescent");
}

#[test]
fn parse_outcomes_are_counted() {
    let mut c = (0usize, 0usize);
    record_parse_outcome(&mut c, false);
    record_parse_outcome(&mut c, true);
    record_parse_outcome(&mut c, false);
    assert_eq!(c, (1, 3));
}
