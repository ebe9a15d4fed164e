//! Reading the model's reply to the voice-decision prompt, and the
//! locale-dependent wording that goes into the prompt.
//!
//! The model is asked for one JSON object of the form
//! `{"decision": "VOICE" | "SILENCE", "motive": <motive> | null, "rationale": "..."}`.
//! The reply is read leniently: the first balanced `{...}` object is taken out
//! of the surrounding text, labels are compared case-insensitively, and any
//! failure falls back to `Neutral` with no motive and `parse_failed` set.
use vstd::prelude::*;

use crate::text::{
    ascii_lowercase, chars_eq_str, chars_of, lemma_trim_plain, lower_key, lower_key_of, slice_chars,
    string_of,
};
use crate::config::PromptVariant;
use crate::world::{Expression, Locale, Motive};

verus! {

// ------------------------------------------------------------------------- //
// Prompt wording
// ------------------------------------------------------------------------- //

/// Japanese job title of hierarchical level `level` in a hierarchy of `l`
/// levels: 1 一般社員, 2 主任, 3 課長, otherwise 部長 at or above the top
/// level and 中堅社員 below it.
pub open spec fn level_name_ja_spec(level: u8, l: u8) -> Seq<char> {
    if level == 1 {
        "一般社員"@
    } else if level == 2 {
        "主任"@
    } else if level == 3 {
        "課長"@
    } else if level >= l {
        "部長"@
    } else {
        "中堅社員"@
    }
}

/// English job title of hierarchical level `level` in a hierarchy of `l`
/// levels: 1 staff member, 2 team lead, otherwise department head at or above
/// the top level and manager below it.
pub open spec fn level_name_en_spec(level: u8, l: u8) -> Seq<char> {
    if level == 1 {
        "staff member"@
    } else if level == 2 {
        "team lead"@
    } else if level >= l {
        "department head"@
    } else {
        "manager"@
    }
}

pub fn level_name_ja(level: u8, l: u8) -> (r: String)
    ensures
        r@ == level_name_ja_spec(level, l),
{
    let name = if level == 1 {
        "一般社員"
    } else if level == 2 {
        "主任"
    } else if level == 3 {
        "課長"
    } else if level >= l {
        "部長"
    } else {
        "中堅社員"
    };
    name.to_owned()
}

pub fn level_name_en(level: u8, l: u8) -> (r: String)
    ensures
        r@ == level_name_en_spec(level, l),
{
    let name = if level == 1 {
        "staff member"
    } else if level == 2 {
        "team lead"
    } else if level >= l {
        "department head"
    } else {
        "manager"
    };
    name.to_owned()
}

pub open spec fn supervisor_relation_spec(locale: Locale, open: bool) -> Seq<char> {
    match (locale, open) {
        (Locale::JaJp, true) => "比較的相談しやすい"@,
        (Locale::JaJp, false) => "気軽に意見を言いにくい"@,
        (Locale::EnUs, true) => "an approachable, open-door manager"@,
        (Locale::EnUs, false) => "a manager who is hard to approach"@,
    }
}

/// How the prompt describes the employee's relation to the direct supervisor,
/// given whether the supervisor is open (positive openness).
pub fn supervisor_relation(locale: Locale, open: bool) -> (r: &'static str)
    ensures
        r@ == supervisor_relation_spec(locale, open),
{
    match (locale, open) {
        (Locale::JaJp, true) => "比較的相談しやすい",
        (Locale::JaJp, false) => "気軽に意見を言いにくい",
        (Locale::EnUs, true) => "an approachable, open-door manager",
        (Locale::EnUs, false) => "a manager who is hard to approach",
    }
}

pub open spec fn retaliation_phrase_spec(locale: Locale, recent: bool) -> Seq<char> {
    match (locale, recent) {
        (Locale::JaJp, true) => "ありました"@,
        (Locale::JaJp, false) => "ありませんでした"@,
        (Locale::EnUs, true) => "there was"@,
        (Locale::EnUs, false) => "there was no"@,
    }
}

/// How the prompt says whether a retaliation event happened recently.
pub fn retaliation_phrase(locale: Locale, recent: bool) -> (r: &'static str)
    ensures
        r@ == retaliation_phrase_spec(locale, recent),
{
    match (locale, recent) {
        (Locale::JaJp, true) => "ありました",
        (Locale::JaJp, false) => "ありませんでした",
        (Locale::EnUs, true) => "there was",
        (Locale::EnUs, false) => "there was no",
    }
}

pub open spec fn issue_description_spec(locale: Locale, variant: PromptVariant) -> Seq<char> {
    match (locale, variant) {
        (Locale::JaJp, PromptVariant::A) => "業務プロセスの非効率"@,
        (Locale::JaJp, PromptVariant::B) => "コンプライアンス上の懸念"@,
        (Locale::JaJp, PromptVariant::C) => "顧客に不利益を与えかねない慣行"@,
        (Locale::EnUs, PromptVariant::A) => "an inefficiency in a work process"@,
        (Locale::EnUs, PromptVariant::B) => "a compliance concern"@,
        (Locale::EnUs, PromptVariant::C) => "a practice that could harm customers"@,
    }
}

/// The issue the employee has noticed, by prompt variant.
pub fn issue_description(locale: Locale, variant: PromptVariant) -> (r: &'static str)
    ensures
        r@ == issue_description_spec(locale, variant),
{
    match (locale, variant) {
        (Locale::JaJp, PromptVariant::A) => "業務プロセスの非効率",
        (Locale::JaJp, PromptVariant::B) => "コンプライアンス上の懸念",
        (Locale::JaJp, PromptVariant::C) => "顧客に不利益を与えかねない慣行",
        (Locale::EnUs, PromptVariant::A) => "an inefficiency in a work process",
        (Locale::EnUs, PromptVariant::B) => "a compliance concern",
        (Locale::EnUs, PromptVariant::C) => "a practice that could harm customers",
    }
}

/// `t` occurs in `s`.
pub open spec fn occurs_in(t: Seq<char>, s: Seq<char>) -> bool {
    exists|i: int| 0 <= i && i + t.len() <= s.len() && #[trigger] s.subrange(i, i + t.len()) == t
}

/// The phrase about retaliation says whether it happened: in each locale the
/// two phrases differ; the English negative is the affirmative followed by
/// " no"; the Japanese negative carries the negation ません and the
/// affirmative does not.
pub proof fn lemma_retaliation_phrase_says_whether(l: Locale)
    ensures
        retaliation_phrase_spec(l, true) != retaliation_phrase_spec(l, false),
        retaliation_phrase_spec(Locale::EnUs, false) == retaliation_phrase_spec(Locale::EnUs, true)
            + " no"@,
        occurs_in("ません"@, retaliation_phrase_spec(Locale::JaJp, false)),
        !occurs_in("ません"@, retaliation_phrase_spec(Locale::JaJp, true)),
{
    reveal_strlit("ありました");
    reveal_strlit("ありませんでした");
    reveal_strlit("there was");
    reveal_strlit("there was no");
    reveal_strlit(" no");
    reveal_strlit("ません");
    let neg = retaliation_phrase_spec(Locale::JaJp, false);
    let aff = retaliation_phrase_spec(Locale::JaJp, true);
    let t = "ません"@;
    assert(neg.subrange(2int, 2int + t.len()) =~= t);
    assert(occurs_in(t, neg));
    assert forall|i: int| 0 <= i && i + t.len() <= aff.len() implies #[trigger] aff.subrange(
        i,
        i + t.len(),
    ) != t by {
        assert(aff.subrange(i, i + t.len())[1] != t[1]);
    }
    assert(retaliation_phrase_spec(Locale::EnUs, true).len() != retaliation_phrase_spec(
        Locale::EnUs,
        false,
    ).len());
    assert(aff.len() != neg.len());
    assert("there was no"@ =~= "there was"@ + " no"@);
}

/// The relation to the supervisor depends on whether the supervisor is open:
/// in each locale the open and the closed wording differ.
pub proof fn lemma_supervisor_relation_says_whether(l: Locale)
    ensures
        supervisor_relation_spec(l, true) != supervisor_relation_spec(l, false),
{
    reveal_strlit("比較的相談しやすい");
    reveal_strlit("気軽に意見を言いにくい");
    reveal_strlit("an approachable, open-door manager");
    reveal_strlit("a manager who is hard to approach");
    assert(supervisor_relation_spec(l, true).len() != supervisor_relation_spec(l, false).len());
}

/// Within a locale, the three prompt variants describe three different issues.
pub proof fn lemma_issue_descriptions_distinct(l: Locale, a: PromptVariant, b: PromptVariant)
    ensures
        a != b ==> issue_description_spec(l, a) != issue_description_spec(l, b),
{
    reveal_strlit("業務プロセスの非効率");
    reveal_strlit("コンプライアンス上の懸念");
    reveal_strlit("顧客に不利益を与えかねない慣行");
    reveal_strlit("an inefficiency in a work process");
    reveal_strlit("a compliance concern");
    reveal_strlit("a practice that could harm customers");
    if a != b {
        assert(issue_description_spec(l, a).len() != issue_description_spec(l, b).len());
    }
}

/// Whether `id` or one of its `neighbours` was retaliated against this step.
pub fn retaliation_recent(retaliated: &Vec<u64>, id: u64, neighbours: &Vec<u64>) -> (r: bool)
    ensures
        r == (retaliated@.contains(id) || exists|k: int|
            0 <= k < neighbours@.len() && retaliated@.contains(#[trigger] neighbours@[k])),
{
    if contains_id(retaliated, id) {
        return true;
    }
    let n = neighbours.len();
    for k in 0..n
        invariant
            n == neighbours@.len(),
            forall|j: int| 0 <= j < k ==> !retaliated@.contains(#[trigger] neighbours@[j]),
    {
        if contains_id(retaliated, neighbours[k]) {
            return true;
        }
    }
    false
}

fn contains_id(v: &Vec<u64>, id: u64) -> (r: bool)
    ensures
        r == v@.contains(id),
{
    let n = v.len();
    for k in 0..n
        invariant
            n == v@.len(),
            forall|j: int| 0 <= j < k ==> v@[j] != id,
    {
        if v[k] == id {
            return true;
        }
    }
    false
}

/// Number of employees whose team is `team`, given each employee's team.
pub fn team_member_count(teams: &Vec<usize>, team: usize) -> (r: usize)
    ensures
        r == teams@.filter(|t: usize| t == team).len(),
{
    let n = teams.len();
    let mut c: usize = 0;
    for k in 0..n
        invariant
            n == teams@.len(),
            c == teams@.take(k as int).filter(|t: usize| t == team).len(),
            c <= k,
    {
        proof {
            reveal_with_fuel(Seq::filter, 1);
            assert(teams@.take(k + 1).drop_last() == teams@.take(k as int));
        }
        if teams[k] == team {
            c = c + 1;
        }
    }
    assert(teams@.take(n as int) == teams@);
    c
}

// ------------------------------------------------------------------------- //
// The first balanced JSON object in a text
// ------------------------------------------------------------------------- //

/// One step of the object scanner. The state is (brace depth, inside a string
/// literal, just after a backslash inside a string literal).
pub open spec fn scan_step(st: (int, bool, bool), c: char) -> (int, bool, bool) {
    let (d, in_str, esc) = st;
    if in_str {
        if esc {
            (d, true, false)
        } else if c == '\\' {
            (d, true, true)
        } else if c == '"' {
            (d, false, false)
        } else {
            (d, true, false)
        }
    } else if c == '"' {
        (d, true, false)
    } else if c == '{' {
        (d + 1, false, false)
    } else if c == '}' {
        (d - 1, false, false)
    } else {
        (d, false, false)
    }
}

/// The scanner state after reading `s[start..i]`.
pub open spec fn scan_state(s: Seq<char>, start: int, i: int) -> (int, bool, bool)
    decreases i - start,
{
    if i <= start {
        (0, false, false)
    } else {
        scan_step(scan_state(s, start, i - 1), s[i - 1])
    }
}

/// `s[i]` is a `}` outside any string literal that brings the depth of the
/// object opened at `start` back to zero.
pub open spec fn closes_at(s: Seq<char>, start: int, i: int) -> bool {
    &&& s[i] == '}'
    &&& !scan_state(s, start, i).1
    &&& scan_state(s, start, i).0 == 1
}

/// `k` is the position of the first `{` in `s`.
pub open spec fn is_first_open(s: Seq<char>, k: int) -> bool {
    &&& 0 <= k < s.len()
    &&& s[k] == '{'
    &&& forall|j: int| 0 <= j < k ==> s[j] != '{'
}

/// `e` is the first position at which the object opened at `start` closes.
pub open spec fn is_first_close(s: Seq<char>, start: int, e: int) -> bool {
    &&& start <= e < s.len()
    &&& closes_at(s, start, e)
    &&& forall|j: int| start <= j < e ==> !closes_at(s, start, j)
}

/// The first balanced `{...}` object of `s`: from the first `{` up to and
/// including the `}` that closes it, braces inside string literals (with
/// backslash escapes) not counted. `None` when there is no `{` or the object
/// never closes.
pub open spec fn json_object_span(s: Seq<char>) -> Option<Seq<char>> {
    if exists|k: int| is_first_open(s, k) {
        let k = choose|k: int| is_first_open(s, k);
        if exists|e: int| is_first_close(s, k, e) {
            let e = choose|e: int| is_first_close(s, k, e);
            Some(s.subrange(k, e + 1))
        } else {
            None
        }
    } else {
        None
    }
}

/// What the extraction gives back is a piece of the text that starts with `{`
/// and ends with `}`, and whose braces balance outside string literals.
pub proof fn lemma_json_object_span_shape(s: Seq<char>)
    ensures
        json_object_span(s) matches Some(o) ==> {
            &&& o.len() >= 2
            &&& o[0] == '{'
            &&& o.last() == '}'
            &&& exists|k: int| 0 <= k && k + o.len() <= s.len() && o == #[trigger] s.subrange(k, k + o.len())
        },
{
    if exists|k: int| is_first_open(s, k) {
        let k = choose|k: int| is_first_open(s, k);
        if exists|e: int| is_first_close(s, k, e) {
            let e = choose|e: int| is_first_close(s, k, e);
            let o = s.subrange(k, e + 1);
            if e == k {
                assert(scan_state(s, k, k) == (0int, false, false));
                assert(!closes_at(s, k, e));
            }
            assert(o[0] == '{');
            assert(o.last() == s[e]);
            assert(o == s.subrange(k, k + o.len()));
        }
    }
}

/// Extract the first balanced `{...}` substring from `text`.
pub fn extract_json_object(text: &str) -> (r: Option<String>)
    ensures
        r.deep_view() == json_object_span(text@),
{
    let v = chars_of(text);
    let n = v.len();
    let mut start: usize = 0;
    while start < n && v[start] != '{'
        invariant
            n == v@.len(),
            0 <= start <= n,
            forall|j: int| 0 <= j < start ==> v@[j] != '{',
        decreases n - start,
    {
        start = start + 1;
    }
    if start == n {
        assert(!exists|k: int| is_first_open(v@, k)) by {
            if exists|k: int| is_first_open(v@, k) {
                let k = choose|k: int| is_first_open(v@, k);
                assert(v@[k] == '{');
            }
        }
        return None;
    }
    assert(is_first_open(v@, start as int));
    assert forall|k: int| is_first_open(v@, k) implies k == start by {
        if k < start {
            assert(v@[k] != '{');
        } else if k > start {
            assert(v@[start as int] != '{');
        }
    }
    let mut depth: usize = 0;
    let mut in_str = false;
    let mut esc = false;
    let mut i: usize = start;
    while i < n
        invariant
            n == v@.len(),
            v@ == text@,
            start < n,
            v@[start as int] == '{',
            is_first_open(v@, start as int),
            forall|k: int| is_first_open(v@, k) ==> k == start,
            start <= i <= n,
            depth <= i - start,
            i > start ==> depth >= 1,
            scan_state(v@, start as int, i as int) == (depth as int, in_str, esc),
            forall|j: int| start <= j < i ==> !closes_at(v@, start as int, j),
        decreases n - i,
    {
        let c = v[i];
        proof {
            reveal_with_fuel(scan_state, 2);
        }
        if in_str {
            if esc {
                esc = false;
            } else if c == '\\' {
                esc = true;
            } else if c == '"' {
                in_str = false;
            }
        } else if c == '"' {
            in_str = true;
        } else if c == '{' {
            depth = depth + 1;
        } else if c == '}' {
            if depth == 1 {
                assert(closes_at(v@, start as int, i as int));
                assert(is_first_close(v@, start as int, i as int));
                assert forall|e: int| is_first_close(v@, start as int, e) implies e == i by {
                    if e < i {
                        assert(!closes_at(v@, start as int, e));
                    } else if e > i {
                        assert(!closes_at(v@, start as int, i as int));
                    }
                }
                let obj = slice_chars(&v, start, i + 1);
                let found = string_of(&obj);
                proof {
                    let k = choose|k: int| is_first_open(v@, k);
                    assert(k == start);
                    let e = choose|e: int| is_first_close(v@, start as int, e);
                    assert(e == i);
                    assert(json_object_span(v@) == Some(v@.subrange(start as int, i + 1)));
                    assert(Some(found).deep_view() == Some(found@));
                }
                return Some(found);
            }
            depth = depth - 1;
        }
        i = i + 1;
    }
    assert(!exists|e: int| is_first_close(v@, start as int, e));
    None
}

// ------------------------------------------------------------------------- //
// Reading the reply
// ------------------------------------------------------------------------- //

/// What a JSON text says of one of its members, as the JSON reader reports it:
/// `None` when the text is not JSON, `Some(None)` when the member is absent or
/// not a string, `Some(Some(v))` when it is the string `v`.
pub uninterp spec fn json_string_member(text: Seq<char>, key: Seq<char>) -> Option<Option<Seq<char>>>;

/// Reads `text` with `serde_json::from_str::<serde_json::Value>` and looks up
/// `key` with `Value::get` and `Value::as_str`. The contract claims only that the
/// result is a function of `text` and `key`, named `json_string_member`; what
/// the JSON grammar accepts is left to serde_json and not stated here.
#[verifier::external_body]
fn json_string_member_of(text: &str, key: &str) -> (r: Option<Option<String>>)
    ensures
        r.deep_view() == json_string_member(text@, key@),
{
    match serde_json::from_str::<serde_json::Value>(text) {
        Ok(v) => Some(v.get(key).and_then(|f| f.as_str()).map(|s| s.to_string())),
        Err(_) => None,
    }
}

/// The three members of a reply, each the string it holds, if any.
pub struct RawDecision {
    pub decision: Option<String>,
    pub motive: Option<String>,
    pub rationale: Option<String>,
}

impl View for RawDecision {
    type V = (Option<Seq<char>>, Option<Seq<char>>, Option<Seq<char>>);

    open spec fn view(&self) -> (Option<Seq<char>>, Option<Seq<char>>, Option<Seq<char>>) {
        (self.decision.deep_view(), self.motive.deep_view(), self.rationale.deep_view())
    }
}

/// Parsed voice-decision verdict.
#[derive(Debug, PartialEq)]
pub struct VoiceDecisionVerdict {
    pub expression: Expression,
    pub motive: Option<Motive>,
    pub rationale: String,
    /// True when parsing failed and the verdict fell back.
    pub parse_failed: bool,
}

impl Clone for VoiceDecisionVerdict {
    fn clone(&self) -> (r: Self)
        ensures
            r@ == self@,
    {
        VoiceDecisionVerdict {
            expression: self.expression,
            motive: self.motive,
            rationale: self.rationale.clone(),
            parse_failed: self.parse_failed,
        }
    }
}

impl View for VoiceDecisionVerdict {
    type V = (Expression, Option<Motive>, Seq<char>, bool);

    open spec fn view(&self) -> (Expression, Option<Motive>, Seq<char>, bool) {
        (self.expression, self.motive, self.rationale@, self.parse_failed)
    }
}

/// The verdict given when no decision can be read.
pub open spec fn fallback_verdict() -> (Expression, Option<Motive>, Seq<char>, bool) {
    (Expression::Neutral, None, Seq::empty(), true)
}

/// The expression that a decision word names.
pub open spec fn expression_named(k: Seq<char>) -> Option<Expression> {
    if k == "voice"@ || k == "speak"@ || k == "speak_up"@ {
        Some(Expression::Voice)
    } else if k == "silence"@ || k == "silent"@ || k == "withhold"@ {
        Some(Expression::Silence)
    } else {
        None
    }
}

/// The motive that a motive word names, in English or Japanese.
pub open spec fn motive_named(k: Seq<char>) -> Option<Motive> {
    if k == "acquiescent"@ || k == "黙従"@ {
        Some(Motive::Acquiescent)
    } else if k == "quiescent"@ || k == "怖れ"@ {
        Some(Motive::Quiescent)
    } else if k == "prosocial"@ || k == "配慮"@ {
        Some(Motive::Prosocial)
    } else if k == "opportunistic"@ || k == "自己都合"@ {
        Some(Motive::Opportunistic)
    } else {
        None
    }
}

pub open spec fn text_or_empty(s: Option<Seq<char>>) -> Seq<char> {
    match s {
        Some(t) => t,
        None => Seq::empty(),
    }
}

/// The verdict for a reply whose members are `decision`, `motive`, `rationale`:
/// `Voice` carries no motive; `Silence` carries the motive it names; anything
/// else (a decision that names no expression, or a silence without a
/// recognised motive) falls back to `Neutral` with no motive and a failure.
/// The rationale is carried through in every case.
pub open spec fn verdict_of(
    decision: Option<Seq<char>>,
    motive: Option<Seq<char>>,
    rationale: Option<Seq<char>>,
) -> (Expression, Option<Motive>, Seq<char>, bool) {
    let rat = text_or_empty(rationale);
    let key = match decision {
        Some(d) => lower_key(d),
        None => Seq::empty(),
    };
    match expression_named(key) {
        None => (Expression::Neutral, None, rat, true),
        Some(Expression::Voice) => (Expression::Voice, None, rat, false),
        Some(e) => match motive {
            None => (Expression::Neutral, None, rat, true),
            Some(m) => match motive_named(lower_key(m)) {
                None => (Expression::Neutral, None, rat, true),
                Some(mo) => (e, Some(mo), rat, false),
            },
        },
    }
}

/// The verdict read from the extracted object `obj` through its JSON members.
pub open spec fn object_verdict(obj: Seq<char>) -> (Expression, Option<Motive>, Seq<char>, bool) {
    match json_string_member(obj, "decision"@) {
        None => fallback_verdict(),
        Some(d) => verdict_of(
            d,
            flatten(json_string_member(obj, "motive"@)),
            flatten(json_string_member(obj, "rationale"@)),
        ),
    }
}

/// The verdict for the model's reply `text`, given what reading the extracted
/// object into the three-member record gave (`typed`; `None` when that
/// reading failed): no object gives the fallback; a record read gives its
/// verdict; otherwise the object is read through its JSON members.
pub open spec fn voice_decision_of(
    text: Seq<char>,
    typed: Option<(Option<Seq<char>>, Option<Seq<char>>, Option<Seq<char>>)>,
) -> (Expression, Option<Motive>, Seq<char>, bool) {
    match json_object_span(text) {
        None => fallback_verdict(),
        Some(obj) => match typed {
            Some(raw) => verdict_of(raw.0, raw.1, raw.2),
            None => object_verdict(obj),
        },
    }
}

/// A verdict failed exactly when it is `Neutral`; a failed verdict carries no
/// motive, a read `Voice` carries none, and a read `Silence` carries one.
pub open spec fn well_shaped(v: (Expression, Option<Motive>, Seq<char>, bool)) -> bool {
    ||| (v.0 == Expression::Voice && v.1 is None && !v.3)
    ||| (v.0 == Expression::Silence && v.1 is Some && !v.3)
    ||| (v.0 == Expression::Neutral && v.1 is None && v.3)
}

/// Every verdict has one of three shapes: a read `Voice` without motive, a
/// read `Silence` with its motive, or the `Neutral` fallback without motive.
pub proof fn lemma_verdict_shape(
    decision: Option<Seq<char>>,
    motive: Option<Seq<char>>,
    rationale: Option<Seq<char>>,
)
    ensures
        well_shaped(verdict_of(decision, motive, rationale)),
{
}

/// The same three shapes hold of the verdict for any reply text, whatever the
/// record reading gave.
pub proof fn lemma_reply_verdict_shape(
    text: Seq<char>,
    typed: Option<(Option<Seq<char>>, Option<Seq<char>>, Option<Seq<char>>)>,
)
    ensures
        well_shaped(voice_decision_of(text, typed)),
{
    match json_object_span(text) {
        None => {},
        Some(obj) => match typed {
            Some(raw) => lemma_verdict_shape(raw.0, raw.1, raw.2),
            None => match json_string_member(obj, "decision"@) {
                None => {},
                Some(d) => lemma_verdict_shape(
                    d,
                    flatten(json_string_member(obj, "motive"@)),
                    flatten(json_string_member(obj, "rationale"@)),
                ),
            },
        },
    }
}

/// A motive word is its own lower-case key: the English labels and the
/// Japanese names have no white space at either end and no upper-case letter.
proof fn lemma_motive_words_are_keys(m: Motive)
    ensures
        lower_key(m.label_spec()) == m.label_spec(),
        lower_key(m.japanese_label_spec()) == m.japanese_label_spec(),
{
    reveal_strlit("acquiescent");
    reveal_strlit("quiescent");
    reveal_strlit("prosocial");
    reveal_strlit("opportunistic");
    reveal_strlit("黙従");
    reveal_strlit("怖れ");
    reveal_strlit("配慮");
    reveal_strlit("自己都合");
    let e = m.label_spec();
    let j = m.japanese_label_spec();
    lemma_trim_plain(e);
    lemma_trim_plain(j);
    assert(ascii_lowercase(e) =~= e);
    assert(ascii_lowercase(j) =~= j);
}

/// The four motive words are pairwise different, in English and in Japanese,
/// and no English label is a Japanese name.
proof fn lemma_motive_words_distinct(m: Motive, n: Motive)
    ensures
        m != n ==> m.label_spec() != n.label_spec(),
        m != n ==> m.japanese_label_spec() != n.japanese_label_spec(),
        m.label_spec() != n.japanese_label_spec(),
{
    reveal_strlit("acquiescent");
    reveal_strlit("quiescent");
    reveal_strlit("prosocial");
    reveal_strlit("opportunistic");
    reveal_strlit("黙従");
    reveal_strlit("怖れ");
    reveal_strlit("配慮");
    reveal_strlit("自己都合");
    let a = m.label_spec();
    let b = n.label_spec();
    let c = n.japanese_label_spec();
    assert(a[0] != c[0]);
    if m != n {
        assert(a.len() != b.len() || a[0] != b[0]);
        let d = m.japanese_label_spec();
        assert(d[0] != c[0]);
    }
}

/// A motive word is read as the motive it labels, and only as that motive:
/// each motive's English label (`Motive::label`) and its Japanese name read as
/// that motive, and a word that reads as a motive is one of those two.
pub proof fn lemma_motive_words_read_back(m: Motive, k: Seq<char>)
    ensures
        motive_named(m.label_spec()) == Some(m),
        motive_named(m.japanese_label_spec()) == Some(m),
        motive_named(k) == Some(m) ==> (k == m.label_spec() || k == m.japanese_label_spec()),
{
    lemma_motive_words_distinct(m, Motive::Acquiescent);
    lemma_motive_words_distinct(m, Motive::Quiescent);
    lemma_motive_words_distinct(m, Motive::Prosocial);
    lemma_motive_words_distinct(m, Motive::Opportunistic);
    lemma_motive_words_distinct(Motive::Acquiescent, m);
    lemma_motive_words_distinct(Motive::Quiescent, m);
    lemma_motive_words_distinct(Motive::Prosocial, m);
    lemma_motive_words_distinct(Motive::Opportunistic, m);
}

/// A reply that decides for silence and names a motive by its label (in any
/// ASCII case, with surrounding white space, in English or Japanese) is read
/// as silence for exactly that motive, with the rationale carried through.
pub proof fn lemma_silence_reads_its_motive(
    m: Motive,
    decision: Seq<char>,
    rationale: Option<Seq<char>>,
    word: Seq<char>,
)
    requires
        expression_named(lower_key(decision)) == Some(Expression::Silence),
        lower_key(word) == m.label_spec() || lower_key(word) == m.japanese_label_spec(),
    ensures
        verdict_of(Some(decision), Some(word), rationale) == (
            Expression::Silence,
            Some(m),
            text_or_empty(rationale),
            false,
        ),
{
    lemma_motive_words_read_back(m, lower_key(word));
}

/// A reply whose decision word is the label of `Voice` (`Expression::label`)
/// reads as voice, and one whose decision word is the label of `Silence`
/// reads as silence.
pub proof fn lemma_expression_labels_read_back()
    ensures
        expression_named(lower_key(Expression::Voice.label_spec())) == Some(Expression::Voice),
        expression_named(lower_key(Expression::Silence.label_spec())) == Some(Expression::Silence),
{
    reveal_strlit("voice");
    reveal_strlit("silence");
    reveal_strlit("speak");
    reveal_strlit("speak_up");
    let v = Expression::Voice.label_spec();
    let s = Expression::Silence.label_spec();
    lemma_trim_plain(v);
    lemma_trim_plain(s);
    assert(ascii_lowercase(v) =~= v);
    assert(ascii_lowercase(s) =~= s);
    assert(lower_key(s) == s);
    assert(s.len() != v.len());
    assert(s[1] != "speak"@[1]);
}

pub open spec fn flatten(x: Option<Option<Seq<char>>>) -> Option<Seq<char>> {
    match x {
        Some(Some(v)) => Some(v),
        _ => None,
    }
}

fn string_or_empty(s: Option<String>) -> (r: String)
    ensures
        r@ == text_or_empty(s.deep_view()),
{
    match s {
        Some(t) => t,
        None => String::new(),
    }
}

/// Turn the members of a reply into a verdict.
pub fn finalise_verdict(raw: RawDecision) -> (v: VoiceDecisionVerdict)
    ensures
        v@ == verdict_of(raw@.0, raw@.1, raw@.2),
{
    let ghost dv = raw.decision.deep_view();
    let ghost mv = raw.motive.deep_view();
    let ghost rv = raw.rationale.deep_view();
    let key: Vec<char> = match &raw.decision {
        Some(d) => lower_key_of(d.as_str()),
        None => Vec::new(),
    };
    assert(key@ == match dv {
        Some(d) => lower_key(d),
        None => Seq::<char>::empty(),
    });
    let expression = if chars_eq_str(&key, "voice") || chars_eq_str(&key, "speak") || chars_eq_str(
        &key,
        "speak_up",
    ) {
        Expression::Voice
    } else if chars_eq_str(&key, "silence") || chars_eq_str(&key, "silent") || chars_eq_str(
        &key,
        "withhold",
    ) {
        Expression::Silence
    } else {
        return VoiceDecisionVerdict {
            expression: Expression::Neutral,
            motive: None,
            rationale: string_or_empty(raw.rationale),
            parse_failed: true,
        };
    };
    let motive = if expression == Expression::Voice {
        None
    } else {
        let mkey: Option<Vec<char>> = match &raw.motive {
            Some(m) => Some(lower_key_of(m.as_str())),
            None => None,
        };
        let named = match mkey {
            None => None,
            Some(k) => {
                if chars_eq_str(&k, "acquiescent") || chars_eq_str(&k, "黙従") {
                    Some(Motive::Acquiescent)
                } else if chars_eq_str(&k, "quiescent") || chars_eq_str(&k, "怖れ") {
                    Some(Motive::Quiescent)
                } else if chars_eq_str(&k, "prosocial") || chars_eq_str(&k, "配慮") {
                    Some(Motive::Prosocial)
                } else if chars_eq_str(&k, "opportunistic") || chars_eq_str(&k, "自己都合") {
                    Some(Motive::Opportunistic)
                } else {
                    None
                }
            },
        };
        match named {
            Some(m) => Some(m),
            None => {
                return VoiceDecisionVerdict {
                    expression: Expression::Neutral,
                    motive: None,
                    rationale: string_or_empty(raw.rationale),
                    parse_failed: true,
                };
            },
        }
    };
    VoiceDecisionVerdict {
        expression,
        motive,
        rationale: string_or_empty(raw.rationale),
        parse_failed: false,
    }
}

fn flatten_member(x: Option<Option<String>>) -> (r: Option<String>)
    ensures
        r.deep_view() == flatten(x.deep_view()),
{
    match x {
        Some(Some(v)) => Some(v),
        _ => None,
    }
}

/// Read the extracted object `obj` through its JSON members `decision`,
/// `motive` and `rationale`.
pub fn read_reply_object(obj: &str) -> (v: VoiceDecisionVerdict)
    ensures
        v@ == object_verdict(obj@),
{
    let decision = match json_string_member_of(obj, "decision") {
        Some(d) => d,
        None => {
            return VoiceDecisionVerdict {
                expression: Expression::Neutral,
                motive: None,
                rationale: String::new(),
                parse_failed: true,
            };
        },
    };
    let motive = flatten_member(json_string_member_of(obj, "motive"));
    let rationale = flatten_member(json_string_member_of(obj, "rationale"));
    finalise_verdict(RawDecision { decision, motive, rationale })
}

/// Parse a model reply into a verdict. Lenient: takes the first balanced
/// `{...}` object, accepts mixed-case labels, and on any failure falls back to
/// `Neutral` with no motive and `parse_failed` set.
///
/// `typed` is what reading that object into the three-member record gave
/// (`None` when the reading failed or was not tried); it is used first, and
/// only when it is `None` is the object read through its JSON members.
pub fn parse_voice_decision(text: &str, typed: Option<RawDecision>) -> (v: VoiceDecisionVerdict)
    ensures
        v@ == voice_decision_of(
            text@,
            match typed {
                Some(raw) => Some(raw@),
                None => None,
            },
        ),
{
    let obj = match extract_json_object(text) {
        Some(o) => o,
        None => {
            return VoiceDecisionVerdict {
                expression: Expression::Neutral,
                motive: None,
                rationale: String::new(),
                parse_failed: true,
            };
        },
    };
    match typed {
        Some(raw) => finalise_verdict(raw),
        None => read_reply_object(obj.as_str()),
    }
}

} // verus!
