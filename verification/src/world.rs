//! The discrete vocabulary of the silence-and-voice model: cultural locale,
//! the four silence motives, an employee's public expression, and the
//! placement of employees into teams and hierarchical levels.
//!
//! Following the paper body and its path diagram: `Quiescent` is the
//! fear-based motive (怖れ) and `Acquiescent` the resigned one (黙従).
use vstd::prelude::*;

use crate::text::{ascii_lowercase, chars_eq_str, concat3, lemma_trim_plain, lower_key, lower_key_of};

verus! {

// ------------------------------------------------------------------------- //
// Locale
// ------------------------------------------------------------------------- //

/// Cultural locale governing prompt language and structural defaults.
#[derive(Clone, Copy, PartialEq, Eq, Debug, Structural)]
pub enum Locale {
    /// Japanese workplace (hierarchy strength 4).
    JaJp,
    /// English-speaking workplace (hierarchy strength 3).
    EnUs,
}

impl Locale {
    pub open spec fn label_spec(&self) -> Seq<char> {
        match self {
            Locale::JaJp => "ja-JP"@,
            Locale::EnUs => "en-US"@,
        }
    }

    /// Stable label used in CSV / JSON / directory names.
    pub fn label(&self) -> (r: &'static str)
        ensures
            r@ == self.label_spec(),
    {
        match self {
            Locale::JaJp => "ja-JP",
            Locale::EnUs => "en-US",
        }
    }

    pub open spec fn hierarchy_strength_spec(&self) -> u8 {
        match self {
            Locale::JaJp => 4,
            Locale::EnUs => 3,
        }
    }

    /// Default hierarchy strength `L` for this locale.
    pub fn default_hierarchy_strength(&self) -> (r: u8)
        ensures
            r == self.hierarchy_strength_spec(),
    {
        match self {
            Locale::JaJp => 4,
            Locale::EnUs => 3,
        }
    }
}

/// The locale that the command-line word `s` names, if any.
pub open spec fn locale_named(s: Seq<char>) -> Option<Locale> {
    let k = lower_key(s);
    if k == "ja-jp"@ || k == "ja"@ || k == "jp"@ || k == "japan"@ || k == "japanese"@ {
        Some(Locale::JaJp)
    } else if k == "en-us"@ || k == "en"@ || k == "us"@ || k == "english"@ {
        Some(Locale::EnUs)
    } else {
        None
    }
}

/// The label of every locale reads back as that locale.
pub proof fn lemma_locale_label_round_trip(l: Locale)
    ensures
        locale_named(l.label_spec()) == Some(l),
{
    reveal_strlit("ja-JP");
    reveal_strlit("en-US");
    reveal_strlit("ja-jp");
    reveal_strlit("ja");
    reveal_strlit("jp");
    reveal_strlit("japan");
    reveal_strlit("japanese");
    reveal_strlit("en-us");
    let s = l.label_spec();
    lemma_trim_plain(s);
    match l {
        Locale::JaJp => {
            assert(ascii_lowercase(s) =~= "ja-jp"@);
            assert(lower_key(s) == "ja-jp"@);
            assert(locale_named(s) == Some(Locale::JaJp));
        },
        Locale::EnUs => {
            assert(ascii_lowercase(s) =~= "en-us"@);
            assert(lower_key(s) == "en-us"@);
            assert(lower_key(s)[0] != "ja-jp"@[0]);
            assert(lower_key(s)[0] != "japan"@[0]);
            assert(locale_named(s) == Some(Locale::EnUs));
        },
    }
}

/// Parse a [`Locale`] from a command-line word, case-insensitively and
/// ignoring surrounding white space.
pub fn parse_locale(s: &str) -> (r: Result<Locale, String>)
    ensures
        match r {
            Ok(l) => locale_named(s@) == Some(l),
            Err(e) => locale_named(s@) is None && e@ == "invalid locale: \""@ + s@
                + "\" (ja-JP / en-US)"@,
        },
{
    let k = lower_key_of(s);
    if chars_eq_str(&k, "ja-jp") || chars_eq_str(&k, "ja") || chars_eq_str(&k, "jp")
        || chars_eq_str(&k, "japan") || chars_eq_str(&k, "japanese") {
        Ok(Locale::JaJp)
    } else if chars_eq_str(&k, "en-us") || chars_eq_str(&k, "en") || chars_eq_str(&k, "us")
        || chars_eq_str(&k, "english") {
        Ok(Locale::EnUs)
    } else {
        Err(concat3("invalid locale: \"", s, "\" (ja-JP / en-US)"))
    }
}

// ------------------------------------------------------------------------- //
// Motive / Expression
// ------------------------------------------------------------------------- //

/// The four silence motives.
///
/// - `Acquiescent` (黙従): resigned "nothing will change" withholding.
/// - `Quiescent` (怖れ): fear-based self-protective withholding.
/// - `Prosocial` (配慮): protective, other-oriented silence.
/// - `Opportunistic` (自己都合): self-interested strategic withholding.
#[derive(Clone, Copy, PartialEq, Eq, Debug, Hash, Structural)]
pub enum Motive {
    Acquiescent,
    Quiescent,
    Prosocial,
    Opportunistic,
}

impl Motive {
    /// All four motives in canonical order.
    pub const ALL: [Motive; 4] = [
        Motive::Acquiescent,
        Motive::Quiescent,
        Motive::Prosocial,
        Motive::Opportunistic,
    ];

    pub open spec fn label_spec(&self) -> Seq<char> {
        match self {
            Motive::Acquiescent => "acquiescent"@,
            Motive::Quiescent => "quiescent"@,
            Motive::Prosocial => "prosocial"@,
            Motive::Opportunistic => "opportunistic"@,
        }
    }

    /// Stable lowercase label (CSV / JSON friendly).
    pub fn label(&self) -> (r: &'static str)
        ensures
            r@ == self.label_spec(),
    {
        match self {
            Motive::Acquiescent => "acquiescent",
            Motive::Quiescent => "quiescent",
            Motive::Prosocial => "prosocial",
            Motive::Opportunistic => "opportunistic",
        }
    }

    /// The paper's Japanese name of the motive.
    pub open spec fn japanese_label_spec(&self) -> Seq<char> {
        match self {
            Motive::Acquiescent => "黙従"@,
            Motive::Quiescent => "怖れ"@,
            Motive::Prosocial => "配慮"@,
            Motive::Opportunistic => "自己都合"@,
        }
    }

    pub open spec fn index_spec(&self) -> nat {
        match self {
            Motive::Acquiescent => 0,
            Motive::Quiescent => 1,
            Motive::Prosocial => 2,
            Motive::Opportunistic => 3,
        }
    }

    /// Position of this motive in the canonical order `0..4`.
    pub fn index(&self) -> (r: usize)
        ensures
            r == self.index_spec(),
            r < 4,
    {
        match self {
            Motive::Acquiescent => 0,
            Motive::Quiescent => 1,
            Motive::Prosocial => 2,
            Motive::Opportunistic => 3,
        }
    }
}

/// Public expression of an employee at a step.
#[derive(Clone, Copy, PartialEq, Eq, Debug, Structural)]
pub enum Expression {
    Voice,
    Silence,
    Neutral,
}

impl Expression {
    pub open spec fn label_spec(&self) -> Seq<char> {
        match self {
            Expression::Voice => "voice"@,
            Expression::Silence => "silence"@,
            Expression::Neutral => "neutral"@,
        }
    }

    pub fn label(&self) -> (r: &'static str)
        ensures
            r@ == self.label_spec(),
    {
        match self {
            Expression::Voice => "voice",
            Expression::Silence => "silence",
            Expression::Neutral => "neutral",
        }
    }
}

/// The array of all motives, in canonical order, as a sequence.
pub open spec fn all_motives() -> Seq<Motive> {
    seq![Motive::Acquiescent, Motive::Quiescent, Motive::Prosocial, Motive::Opportunistic]
}

/// `Motive::ALL` lists each motive at the position that `index` gives it.
pub proof fn lemma_motive_index_round_trip(m: Motive)
    ensures
        Motive::ALL@ == all_motives(),
        all_motives()[m.index_spec() as int] == m,
{
    assert(Motive::ALL@ == all_motives());
}

// ------------------------------------------------------------------------- //
// Expression of a step
// ------------------------------------------------------------------------- //

/// The expression that summarises a step in which the employee voiced
/// (`voiced`) and withheld a concern (`silenced`): voice and silence are two
/// separate behaviours, and a voicer is summarised as `Voice` whatever else.
pub open spec fn expression_of_spec(voiced: bool, silenced: bool) -> Expression {
    if voiced {
        Expression::Voice
    } else if silenced {
        Expression::Silence
    } else {
        Expression::Neutral
    }
}

pub fn expression_of(voiced: bool, silenced: bool) -> (r: Expression)
    ensures
        r == expression_of_spec(voiced, silenced),
        (r == Expression::Voice) <==> voiced,
        (r == Expression::Silence) <==> (!voiced && silenced),
{
    if voiced {
        Expression::Voice
    } else if silenced {
        Expression::Silence
    } else {
        Expression::Neutral
    }
}

// ------------------------------------------------------------------------- //
// Placement of employees
// ------------------------------------------------------------------------- //

pub open spec fn at_least_one(x: int) -> int {
    if x >= 1 {
        x
    } else {
        1
    }
}

/// Employee `i` joins team `i / team_size` (a team size of 0 counting as 1)
/// and hierarchical level `1 + i mod L` (an `L` of 0 counting as 1).
pub open spec fn placement_spec(i: usize, team_size: usize, hierarchy_strength: u8) -> (usize, u8) {
    (
        (i as int / at_least_one(team_size as int)) as usize,
        (1 + i as int % at_least_one(hierarchy_strength as int)) as u8,
    )
}

/// Team and hierarchical level of the `i`-th employee.
pub fn employee_placement(i: usize, team_size: usize, hierarchy_strength: u8) -> (r: (usize, u8))
    ensures
        r == placement_spec(i, team_size, hierarchy_strength),
        1 <= r.1 <= at_least_one(hierarchy_strength as int),
{
    let ts = if team_size >= 1 {
        team_size
    } else {
        1
    };
    let l: usize = if hierarchy_strength >= 1 {
        hierarchy_strength as usize
    } else {
        1
    };
    let team = i / ts;
    let rem = i % l;
    assert(rem < l);
    let level = (1 + rem) as u8;
    (team, level)
}

/// In an organisation of `n_teams` teams of `team_size` employees, every
/// employee lands in one of the `n_teams` teams and on a level from 1 to the
/// hierarchy strength.
pub proof fn lemma_placement_in_range(i: usize, n_teams: usize, team_size: usize, hierarchy_strength: u8)
    requires
        team_size >= 1,
        hierarchy_strength >= 1,
        i < n_teams * team_size,
    ensures
        placement_spec(i, team_size, hierarchy_strength).0 < n_teams,
        1 <= placement_spec(i, team_size, hierarchy_strength).1 <= hierarchy_strength,
{
    let q = i as int / team_size as int;
    assert(q < n_teams) by (nonlinear_arith)
        requires
            q == i as int / team_size as int,
            team_size >= 1,
            0 <= i < n_teams * team_size,
    {
        assert(q * team_size <= i);
    }
    let l = hierarchy_strength as int;
    assert(0 <= i as int % l < l) by (nonlinear_arith)
        requires
            l >= 1,
            i >= 0,
    {}
}

} // verus!
