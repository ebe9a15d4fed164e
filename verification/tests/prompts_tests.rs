use fujimura_silence::config::PromptVariant;
use fujimura_silence::prompts::{
    extract_json_object, finalise_verdict, issue_description, level_name_en, level_name_ja,
    parse_voice_decision, read_reply_object, retaliation_phrase, retaliation_recent, supervisor_relation,
    team_member_count, RawDecision,
};
use fujimura_silence::world::{Expression, Locale, Motive};

#[test]
fn parses_canonical_voice() {
    let v = parse_voice_decision(r#"{"decision":"VOICE","motive":null,"rationale":"ok"}"#, None);
    assert_eq!(v.expression, Expression::Voice);
    assert_eq!(v.motive, None);
    assert!(!v.parse_failed);
}

#[test]
fn parses_silence_with_motive() {
    let v = parse_voice_decision(
        r#"{"decision":"SILENCE","motive":"acquiescent","rationale":"何も変わらない"}"#,
        None,
    );
    assert_eq!(v.expression, Expression::Silence);
    assert_eq!(v.motive, Some(Motive::Acquiescent));
    assert!(!v.parse_failed);
}

#[test]
fn parses_japanese_motive_label() {
    let v = parse_voice_decision(r#"{"decision":"SILENCE","motive":"怖れ","rationale":"x"}"#, None);
    assert_eq!(v.motive, Some(Motive::Quiescent));
}

#[test]
fn tolerates_surrounding_text() {
    let v = parse_voice_decision(
        r#"はい: {"decision":"silence","motive":"quiescent","rationale":"fear"} 以上"#,
        None,
    );
    assert_eq!(v.expression, Expression::Silence);
    assert_eq!(v.motive, Some(Motive::Quiescent));
}

#[test]
fn no_json_falls_back_to_neutral() {
    let v = parse_voice_decision("no json here", None);
    assert!(v.parse_failed);
    assert_eq!(v.expression, Expression::Neutral);
}

#[test]
fn rationale_is_carried_through() {
    let v = parse_voice_decision(r#"{"decision":"speak","rationale":"改善したい"}"#, None);
    assert_eq!(v.expression, Expression::Voice);
    assert_eq!(v.rationale, "改善したい");
    assert!(!v.parse_failed);
}

#[test]
fn invalid_json_object_falls_back() {
    let v = parse_voice_decision(r#"{decision: VOICE}"#, None);
    assert!(v.parse_failed);
    assert_eq!(v.expression, Expression::Neutral);
    assert_eq!(v.rationale, "");
}

#[test]
fn unknown_decision_is_neutral_failure_keeping_rationale() {
    let v = parse_voice_decision(r#"{"decision":"maybe","rationale":"unsure"}"#, None);
    assert_eq!(v.expression, Expression::Neutral);
    assert_eq!(v.motive, None);
    assert_eq!(v.rationale, "unsure");
    assert!(v.parse_failed);
}

#[test]
fn silence_without_known_motive_falls_back_to_neutral() {
    let v = parse_voice_decision(r#"{"decision":"withhold","motive":"tired","rationale":"r"}"#, None);
    assert_eq!(v.expression, Expression::Neutral);
    assert_eq!(v.motive, None);
    assert_eq!(v.rationale, "r");
    assert!(v.parse_failed);
    let w = parse_voice_decision(r#"{"decision":"silent","motive":5}"#, None);
    assert_eq!(w.expression, Expression::Neutral);
    assert_eq!(w.motive, None);
    assert!(w.parse_failed);
}

#[test]
fn record_reading_is_used_first() {
    let raw = RawDecision {
        decision: Some("VOICE".to_string()),
        motive: None,
        rationale: Some("ok".to_string()),
    };
    let text = r#"{"decision":"VOICE","x":1e400,"rationale":"ok"}"#;
    let v = parse_voice_decision(text, Some(raw));
    assert_eq!(v.expression, Expression::Voice);
    assert!(!v.parse_failed);
    assert_eq!(v.rationale, "ok");
    // Read through its JSON members alone, the same object is refused.
    let w = parse_voice_decision(text, None);
    assert_eq!(w.expression, Expression::Neutral);
    assert!(w.parse_failed);
    // Without an object the record is not consulted.
    let raw2 = RawDecision { decision: Some("VOICE".to_string()), motive: None, rationale: None };
    let u = parse_voice_decision("no object", Some(raw2));
    assert_eq!(u.expression, Expression::Neutral);
    assert!(u.parse_failed);
}

#[test]
fn reading_object_members() {
    let v = read_reply_object(r#"{"decision":"silence","motive":"Quiescent"}"#);
    assert_eq!((v.expression, v.motive, v.parse_failed), (Expression::Silence, Some(Motive::Quiescent), false));
    let w = read_reply_object("{not json}");
    assert_eq!((w.expression, w.motive, w.parse_failed), (Expression::Neutral, None, true));
}

#[test]
fn voice_ignores_motive() {
    let v = parse_voice_decision(r#"{"decision":" Speak_Up ","motive":"quiescent"}"#, None);
    assert_eq!(v.expression, Expression::Voice);
    assert_eq!(v.motive, None);
    assert!(!v.parse_failed);
}

#[test]
fn non_string_decision_is_neutral_failure() {
    let v = parse_voice_decision(r#"{"decision":1,"rationale":"r"}"#, None);
    assert_eq!(v.expression, Expression::Neutral);
    assert_eq!(v.rationale, "r");
    assert!(v.parse_failed);
}

#[test]
fn extract_first_balanced_object() {
    assert_eq!(
        extract_json_object(r#"x {"a":{"b":1}} {"c":2}"#),
        Some(r#"{"a":{"b":1}}"#.to_string())
    );
    assert_eq!(
        extract_json_object(r#"{"a":"}{\"}"} tail"#),
        Some(r#"{"a":"}{\"}"}"#.to_string())
    );
    assert_eq!(extract_json_object("no braces"), None);
    assert_eq!(extract_json_object("{ never closed"), None);
    assert_eq!(extract_json_object("}{}"), Some("{}".to_string()));
    assert_eq!(extract_json_object("前{\"k\":\"値\"}後"), Some("{\"k\":\"値\"}".to_string()));
}

#[test]
fn finalise_each_outcome() {
    let r = |d: Option<&str>, m: Option<&str>, x: Option<&str>| RawDecision {
        decision: d.map(|s| s.to_string()),
        motive: m.map(|s| s.to_string()),
        rationale: x.map(|s| s.to_string()),
    };
    let v = finalise_verdict(r(Some("VOICE"), None, Some("ok")));
    assert_eq!((v.expression, v.motive, v.parse_failed), (Expression::Voice, None, false));
    assert_eq!(v.rationale, "ok");
    let v = finalise_verdict(r(Some("silence"), Some(" Prosocial "), None));
    assert_eq!(
        (v.expression, v.motive, v.parse_failed),
        (Expression::Silence, Some(Motive::Prosocial), false)
    );
    assert_eq!(v.rationale, "");
    let v = finalise_verdict(r(Some("silence"), Some("自己都合"), None));
    assert_eq!(v.motive, Some(Motive::Opportunistic));
    let v = finalise_verdict(r(Some("silence"), Some("配慮"), None));
    assert_eq!(v.motive, Some(Motive::Prosocial));
    let v = finalise_verdict(r(Some("silence"), Some("黙従"), None));
    assert_eq!(v.motive, Some(Motive::Acquiescent));
    let v = finalise_verdict(r(Some("silence"), None, None));
    assert_eq!((v.expression, v.motive, v.parse_failed), (Expression::Neutral, None, true));
    let v = finalise_verdict(r(Some("silence"), Some("bored"), Some("y")));
    assert_eq!((v.expression, v.motive, v.parse_failed), (Expression::Neutral, None, true));
    assert_eq!(v.rationale, "y");
    let v = finalise_verdict(r(None, Some("quiescent"), Some("z")));
    assert_eq!((v.expression, v.motive, v.parse_failed), (Expression::Neutral, None, true));
    assert_eq!(v.rationale, "z");
}

#[test]
fn level_names_by_level() {
    assert_eq!(level_name_ja(1, 4), "一般社員");
    assert_eq!(level_name_ja(2, 4), "主任");
    assert_eq!(level_name_ja(3, 4), "課長");
    assert_eq!(level_name_ja(4, 4), "部長");
    assert_eq!(level_name_ja(4, 5), "中堅社員");
    assert_eq!(level_name_en(1, 3), "staff member");
    assert_eq!(level_name_en(2, 3), "team lead");
    assert_eq!(level_name_en(3, 3), "department head");
    assert_eq!(level_name_en(3, 5), "manager");
}

#[test]
fn prompt_phrases_by_locale() {
    assert_eq!(supervisor_relation(Locale::JaJp, true), "比較的相談しやすい");
    assert_eq!(supervisor_relation(Locale::EnUs, false), "a manager who is hard to approach");
    assert_eq!(retaliation_phrase(Locale::JaJp, false), "ありませんでした");
    assert_eq!(retaliation_phrase(Locale::EnUs, true), "there was");
    assert_eq!(issue_description(Locale::JaJp, PromptVariant::B), "コンプライアンス上の懸念");
    assert_eq!(
        issue_description(Locale::EnUs, PromptVariant::C),
        "a practice that could harm customers"
    );
}

#[test]
fn retaliation_recent_self_or_neighbour() {
    let hit = vec![3u64, 7];
    assert!(retaliation_recent(&hit, 3, &vec![]));
    assert!(retaliation_recent(&hit, 1, &vec![2, 7]));
    assert!(!retaliation_recent(&hit, 1, &vec![2, 4]));
    assert!(!retaliation_recent(&vec![], 1, &vec![1]));
}

#[test]
fn team_member_count_counts_team() {
    let teams = vec![0usize, 0, 1, 2, 1, 0];
    assert_eq!(team_member_count(&teams, 0), 3);
    assert_eq!(team_member_count(&teams, 1), 2);
    assert_eq!(team_member_count(&teams, 5), 0);
}
