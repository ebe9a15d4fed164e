use fujimura_silence::config::{
    decision_mechanism, employee_count, parse_decision_mode, parse_prompt_variant, DecisionMode, PromptVariant,
};

#[test]
fn parse_decision_mode_variants() {
    assert_eq!(parse_decision_mode("rule").unwrap(), DecisionMode::Rule);
    assert_eq!(parse_decision_mode("LLM").unwrap(), DecisionMode::Llm);
    assert!(parse_decision_mode("bogus").is_err());
}

#[test]
fn parse_prompt_variant_variants() {
    assert_eq!(parse_prompt_variant("a").unwrap(), PromptVariant::A);
    assert_eq!(parse_prompt_variant("C").unwrap(), PromptVariant::C);
    assert!(parse_prompt_variant("Z").is_err());
}

#[test]
fn decision_mode_aliases_and_whitespace() {
    assert_eq!(parse_decision_mode("  Rules\t").unwrap(), DecisionMode::Rule);
    assert_eq!(parse_decision_mode("logistic").unwrap(), DecisionMode::Rule);
    assert_eq!(parse_decision_mode("Ollama").unwrap(), DecisionMode::Llm);
    assert_eq!(parse_decision_mode("openai\n").unwrap(), DecisionMode::Llm);
    assert_eq!(parse_decision_mode("\u{3000}llm\u{3000}").unwrap(), DecisionMode::Llm);
    assert!(parse_decision_mode("ru le").is_err());
}

#[test]
fn decision_mode_error_message() {
    assert_eq!(
        parse_decision_mode("bogus").unwrap_err(),
        "invalid decision-mode: \"bogus\" (rule / llm)"
    );
    assert_eq!(
        parse_decision_mode(" x ").unwrap_err(),
        "invalid decision-mode: \" x \" (rule / llm)"
    );
}

#[test]
fn prompt_variant_error_message_and_b() {
    assert_eq!(parse_prompt_variant(" b ").unwrap(), PromptVariant::B);
    assert_eq!(
        parse_prompt_variant("Z").unwrap_err(),
        "invalid prompt-variant: \"Z\" (A / B / C)"
    );
    assert!(parse_prompt_variant("AB").is_err());
    assert!(parse_prompt_variant("").is_err());
}

#[test]
fn decision_mode_labels_and_llm_flag() {
    assert_eq!(DecisionMode::Rule.label(), "rule");
    assert_eq!(DecisionMode::Llm.label(), "llm");
    assert!(DecisionMode::Llm.is_llm());
    assert!(!DecisionMode::Rule.is_llm());
    for m in [DecisionMode::Rule, DecisionMode::Llm] {
        assert_eq!(parse_decision_mode(m.label()).unwrap(), m);
    }
}

#[test]
fn prompt_variant_labels_round_trip() {
    for v in [PromptVariant::A, PromptVariant::B, PromptVariant::C] {
        assert_eq!(parse_prompt_variant(v.label()).unwrap(), v);
    }
    assert_eq!(PromptVariant::B.label(), "B");
}

#[test]
fn employee_count_multiplies_and_saturates() {
    assert_eq!(employee_count(5, 80), 400);
    assert_eq!(employee_count(3, 10), 30);
    assert_eq!(employee_count(0, 10), 0);
    assert_eq!(employee_count(usize::MAX, 2), usize::MAX);
}

#[test]
fn decision_mechanism_needs_a_client_in_llm_mode() {
    assert_eq!(decision_mechanism(DecisionMode::Rule, false).unwrap(), DecisionMode::Rule);
    assert_eq!(decision_mechanism(DecisionMode::Rule, true).unwrap(), DecisionMode::Rule);
    assert_eq!(decision_mechanism(DecisionMode::Llm, true).unwrap(), DecisionMode::Llm);
    assert_eq!(
        decision_mechanism(DecisionMode::Llm, false).unwrap_err(),
        "LLM decision mode selected but no client supplied"
    );
}
