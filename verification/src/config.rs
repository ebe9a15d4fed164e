//! Run-configuration vocabulary: the decision-mechanism selector, the
//! prompt-wording variant, and the size of the simulated organisation.
use vstd::prelude::*;

use crate::text::{
    ascii_lowercase, ascii_uppercase, chars_eq_str, concat3, lemma_trim_plain, lower_key, lower_key_of,
    upper_key, upper_key_of,
};

verus! {

// ------------------------------------------------------------------------- //
// DecisionMode
// ------------------------------------------------------------------------- //

/// Decision-mechanism selector. A run wires exactly one of the rule-based
/// (logistic, model-free) decision and the language-model decision.
#[derive(Debug, Clone, Copy, PartialEq, Eq, Structural)]
pub enum DecisionMode {
    /// Logistic ablation: no language-model calls, bit-deterministic.
    Rule,
    /// Language-model driven decision.
    Llm,
}

impl DecisionMode {
    pub open spec fn label_spec(&self) -> Seq<char> {
        match self {
            DecisionMode::Rule => "rule"@,
            DecisionMode::Llm => "llm"@,
        }
    }

    pub fn label(&self) -> (r: &'static str)
        ensures
            r@ == self.label_spec(),
    {
        match self {
            DecisionMode::Rule => "rule",
            DecisionMode::Llm => "llm",
        }
    }

    pub fn is_llm(&self) -> (r: bool)
        ensures
            r == (*self == DecisionMode::Llm),
    {
        match self {
            DecisionMode::Llm => true,
            DecisionMode::Rule => false,
        }
    }
}

/// The decision mode that the command-line word `s` names, if any.
pub open spec fn decision_mode_named(s: Seq<char>) -> Option<DecisionMode> {
    let k = lower_key(s);
    if k == "rule"@ || k == "rules"@ || k == "logistic"@ {
        Some(DecisionMode::Rule)
    } else if k == "llm"@ || k == "ollama"@ || k == "openai"@ {
        Some(DecisionMode::Llm)
    } else {
        None
    }
}

/// The label of every decision mode reads back as that mode.
pub proof fn lemma_decision_mode_label_round_trip(m: DecisionMode)
    ensures
        decision_mode_named(m.label_spec()) == Some(m),
{
    reveal_strlit("rule");
    reveal_strlit("rules");
    reveal_strlit("logistic");
    reveal_strlit("llm");
    let s = m.label_spec();
    lemma_trim_plain(s);
    assert(ascii_lowercase(s) =~= s);
    assert(lower_key(s) == s);
}

/// Parse a [`DecisionMode`] from a command-line word, case-insensitively and
/// ignoring surrounding white space.
pub fn parse_decision_mode(s: &str) -> (r: Result<DecisionMode, String>)
    ensures
        match r {
            Ok(m) => decision_mode_named(s@) == Some(m),
            Err(e) => decision_mode_named(s@) is None && e@ == "invalid decision-mode: \""@ + s@
                + "\" (rule / llm)"@,
        },
{
    let k = lower_key_of(s);
    if chars_eq_str(&k, "rule") || chars_eq_str(&k, "rules") || chars_eq_str(&k, "logistic") {
        Ok(DecisionMode::Rule)
    } else if chars_eq_str(&k, "llm") || chars_eq_str(&k, "ollama") || chars_eq_str(&k, "openai") {
        Ok(DecisionMode::Llm)
    } else {
        Err(concat3("invalid decision-mode: \"", s, "\" (rule / llm)"))
    }
}

/// The decision mechanism a run wires, given whether a language-model client
/// was supplied: rule mode needs none; language-model mode without a client
/// is refused.
pub fn decision_mechanism(mode: DecisionMode, client_supplied: bool) -> (r: Result<DecisionMode, String>)
    ensures
        match r {
            Ok(m) => m == mode && (mode == DecisionMode::Llm ==> client_supplied),
            Err(e) => mode == DecisionMode::Llm && !client_supplied
                && e@ == "LLM decision mode selected but no client supplied"@,
        },
{
    match mode {
        DecisionMode::Rule => Ok(DecisionMode::Rule),
        DecisionMode::Llm => {
            if client_supplied {
                Ok(DecisionMode::Llm)
            } else {
                Err("LLM decision mode selected but no client supplied".to_owned())
            }
        },
    }
}

// ------------------------------------------------------------------------- //
// PromptVariant
// ------------------------------------------------------------------------- //

/// Prompt-wording variant for the prompt-sensitivity ablation: which kind of
/// issue the employee is told they noticed.
#[derive(Debug, Clone, Copy, PartialEq, Eq, Structural)]
pub enum PromptVariant {
    A,
    B,
    C,
}

impl PromptVariant {
    pub open spec fn label_spec(&self) -> Seq<char> {
        match self {
            PromptVariant::A => "A"@,
            PromptVariant::B => "B"@,
            PromptVariant::C => "C"@,
        }
    }

    pub fn label(&self) -> (r: &'static str)
        ensures
            r@ == self.label_spec(),
    {
        match self {
            PromptVariant::A => "A",
            PromptVariant::B => "B",
            PromptVariant::C => "C",
        }
    }
}

/// The prompt variant that the command-line word `s` names, if any.
pub open spec fn prompt_variant_named(s: Seq<char>) -> Option<PromptVariant> {
    let k = upper_key(s);
    if k == "A"@ {
        Some(PromptVariant::A)
    } else if k == "B"@ {
        Some(PromptVariant::B)
    } else if k == "C"@ {
        Some(PromptVariant::C)
    } else {
        None
    }
}

/// The label of every prompt variant reads back as that variant.
pub proof fn lemma_prompt_variant_label_round_trip(v: PromptVariant)
    ensures
        prompt_variant_named(v.label_spec()) == Some(v),
{
    reveal_strlit("A");
    reveal_strlit("B");
    reveal_strlit("C");
    let s = v.label_spec();
    lemma_trim_plain(s);
    assert(ascii_uppercase(s) =~= s);
}

/// Parse a [`PromptVariant`] from a command-line word, case-insensitively and
/// ignoring surrounding white space.
pub fn parse_prompt_variant(s: &str) -> (r: Result<PromptVariant, String>)
    ensures
        match r {
            Ok(v) => prompt_variant_named(s@) == Some(v),
            Err(e) => prompt_variant_named(s@) is None && e@ == "invalid prompt-variant: \""@ + s@
                + "\" (A / B / C)"@,
        },
{
    let k = upper_key_of(s);
    if chars_eq_str(&k, "A") {
        Ok(PromptVariant::A)
    } else if chars_eq_str(&k, "B") {
        Ok(PromptVariant::B)
    } else if chars_eq_str(&k, "C") {
        Ok(PromptVariant::C)
    } else {
        Err(concat3("invalid prompt-variant: \"", s, "\" (A / B / C)"))
    }
}

// ------------------------------------------------------------------------- //
// Organisation size
// ------------------------------------------------------------------------- //

/// `n_teams * team_size`, saturating at `usize::MAX`.
pub open spec fn employee_count_spec(n_teams: usize, team_size: usize) -> usize {
    if n_teams * team_size <= usize::MAX {
        (n_teams * team_size) as usize
    } else {
        usize::MAX
    }
}

/// Total number of employees of an organisation of `n_teams` teams of
/// `team_size` employees each (saturating multiplication).
pub fn employee_count(n_teams: usize, team_size: usize) -> (r: usize)
    ensures
        r == employee_count_spec(n_teams, team_size),
{
    match n_teams.checked_mul(team_size) {
        Some(p) => p,
        None => usize::MAX,
    }
}

} // verus!
