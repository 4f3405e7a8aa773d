//! Adjudication of a match from a battle-log feed: which entries count, and
//! who reached two victories first.
use vstd::prelude::*;
use crate::text::{compare_strings, compare_tag, normalized, same_tag, same_text};

verus! {

/// The outcome of one battle, as seen from the owner of the feed.
#[derive(PartialEq, Eq, Structural, Clone, Copy, Debug)]
pub enum Outcome {
    Victory,
    Defeat,
    Other,
}

/// One record of a battle-log feed. Fields the feed did not carry are
/// `None`; `teams` holds the member tags of each team.
#[derive(Clone, Debug)]
pub struct BattleLogEntry {
    pub mode: Option<String>,
    pub map: Option<String>,
    pub battle_type: Option<String>,
    pub teams: Vec<Vec<String>>,
    pub result: String,
}

/// The outcome that a result label stands for.
pub open spec fn outcome_of(label: Seq<char>) -> Outcome {
    if label == "victory"@ {
        Outcome::Victory
    } else if label == "defeat"@ {
        Outcome::Defeat
    } else {
        Outcome::Other
    }
}

impl Outcome {
    /// Reads a result label of the feed.
    pub fn from_label(label: &str) -> (r: Outcome)
        ensures
            r == outcome_of(label@),
    {
        if same_text(label, "victory") {
            Outcome::Victory
        } else if same_text(label, "defeat") {
            Outcome::Defeat
        } else {
            Outcome::Other
        }
    }
}

/// Whether an optional label is present and equal to `expected` after
/// normalization.
pub open spec fn label_matches(label: Option<String>, expected: Seq<char>) -> bool {
    label is Some && normalized(label->0@) == normalized(expected)
}

/// The filters on battle type, mode, map and team sizes: a friendly 1v1
/// battle in the expected mode, on the expected map unless the map filter
/// is the wildcard `Any`.
pub open spec fn passes_filters(e: BattleLogEntry, mode: Seq<char>, map: Seq<char>) -> bool {
    &&& label_matches(e.battle_type, "friendly"@)
    &&& label_matches(e.mode, mode)
    &&& e.map is Some
    &&& (map == "Any"@ || normalized(e.map->0@) == normalized(map))
    &&& e.teams@.len() == 2
    &&& e.teams@[0]@.len() == 1
    &&& e.teams@[1]@.len() == 1
}

/// The tag of the only member of team `t`.
pub open spec fn member_tag(e: BattleLogEntry, t: int) -> Seq<char> {
    e.teams@[t]@[0]@
}

/// Whether the two players of the battle are the caller and the enemy, one
/// on each team, under tag comparison.
pub open spec fn between(e: BattleLogEntry, caller: Seq<char>, enemy: Seq<char>) -> bool {
    ||| same_tag(caller, member_tag(e, 0)) && same_tag(enemy, member_tag(e, 1))
    ||| same_tag(caller, member_tag(e, 1)) && same_tag(enemy, member_tag(e, 0))
}

/// Whether an entry counts towards the match between `caller` and `enemy`.
pub open spec fn is_relevant(
    e: BattleLogEntry,
    caller: Seq<char>,
    enemy: Seq<char>,
    mode: Seq<char>,
    map: Seq<char>,
) -> bool {
    passes_filters(e, mode, map) && between(e, caller, enemy)
}

/// The outcomes of the relevant entries of a feed, in the feed's order
/// (newest first).
pub open spec fn relevant_outcomes(
    feed: Seq<BattleLogEntry>,
    caller: Seq<char>,
    enemy: Seq<char>,
    mode: Seq<char>,
    map: Seq<char>,
) -> Seq<Outcome>
    decreases feed.len(),
{
    if feed.len() == 0 {
        Seq::empty()
    } else {
        let rest = relevant_outcomes(feed.drop_last(), caller, enemy, mode, map);
        if is_relevant(feed.last(), caller, enemy, mode, map) {
            rest.push(outcome_of(feed.last().result@))
        } else {
            rest
        }
    }
}

/// Walks newest-first outcomes from the oldest one, starting from `wins`
/// victories and `losses` defeats: `Some(true)` once victories reach two,
/// `Some(false)` once defeats reach two, `None` if neither happens.
pub open spec fn tally(outs: Seq<Outcome>, wins: nat, losses: nat) -> Option<bool>
    decreases outs.len(),
{
    if outs.len() == 0 {
        None
    } else {
        let w = if outs.last() == Outcome::Victory { wins + 1 } else { wins };
        let l = if outs.last() == Outcome::Defeat { losses + 1 } else { losses };
        if w >= 2 {
            Some(true)
        } else if l >= 2 {
            Some(false)
        } else {
            tally(outs.drop_last(), w, l)
        }
    }
}

/// The verdict on newest-first outcomes: `Some(true)` when the caller won,
/// `Some(false)` when the enemy won, `None` when undecided.
pub open spec fn verdict(outs: Seq<Outcome>) -> Option<bool> {
    tally(outs, 0, 0)
}

/// Checks the battle type, mode, map and team sizes of an entry.
pub fn log_check(log: &BattleLogEntry, mode: &str, map: &str) -> (r: bool)
    ensures
        r == passes_filters(*log, mode@, map@),
{
    match &log.mode {
        Some(m) => {
            if !compare_strings(m.as_str(), mode) {
                return false;
            }
        },
        None => {
            return false;
        },
    }
    match &log.battle_type {
        Some(t) => {
            if !compare_strings(t.as_str(), "friendly") {
                return false;
            }
        },
        None => {
            return false;
        },
    }
    match &log.map {
        Some(m) => {
            if !same_text(map, "Any") && !compare_strings(m.as_str(), map) {
                return false;
            }
        },
        None => {
            return false;
        },
    }
    log.teams.len() == 2 && log.teams[0].len() == 1 && log.teams[1].len() == 1
}

/// Whether an entry that passed the filters is a battle between the caller
/// and the enemy.
fn log_between(log: &BattleLogEntry, caller_tag: &str, enemy_tag: &str) -> (r: bool)
    requires
        log.teams@.len() == 2,
        log.teams@[0]@.len() == 1,
        log.teams@[1]@.len() == 1,
    ensures
        r == between(*log, caller_tag@, enemy_tag@),
{
    let player1 = log.teams[0][0].as_str();
    let player2 = log.teams[1][0].as_str();
    (compare_tag(caller_tag, player1) && compare_tag(enemy_tag, player2)) || (compare_tag(
        caller_tag,
        player2,
    ) && compare_tag(enemy_tag, player1))
}

/// The outcomes of the relevant entries of `feed`, newest first.
pub fn relevant_results(
    caller_tag: &str,
    enemy_tag: &str,
    mode: &str,
    map: &str,
    feed: &Vec<BattleLogEntry>,
) -> (r: Vec<Outcome>)
    ensures
        r@ == relevant_outcomes(feed@, caller_tag@, enemy_tag@, mode@, map@),
{
    let mut results: Vec<Outcome> = Vec::new();
    let mut i: usize = 0;
    while i < feed.len()
        invariant
            i <= feed@.len(),
            results@ == relevant_outcomes(
                feed@.take(i as int),
                caller_tag@,
                enemy_tag@,
                mode@,
                map@,
            ),
        decreases feed@.len() - i,
    {
        let log = &feed[i];
        assert(feed@.take(i + 1).drop_last() =~= feed@.take(i as int));
        if log_check(log, mode, map) && log_between(log, caller_tag, enemy_tag) {
            results.push(Outcome::from_label(log.result.as_str()));
        }
        i = i + 1;
    }
    assert(feed@.take(feed@.len() as int) =~= feed@);
    results
}

/// Decides the match from newest-first outcomes: `Some(true)` when the
/// caller reached two victories first, `Some(false)` when the enemy did.
pub fn decide(results: &Vec<Outcome>) -> (r: Option<bool>)
    ensures
        r == verdict(results@),
{
    if results.len() < 2 {
        proof {
            lemma_short_undecided(results@);
        }
        return None;
    }
    let mut count_victory: u8 = 0;
    let mut count_defeat: u8 = 0;
    let mut k: usize = results.len();
    assert(results@.take(k as int) =~= results@);
    while k > 0
        invariant
            k <= results@.len(),
            count_victory < 2,
            count_defeat < 2,
            verdict(results@) == tally(
                results@.take(k as int),
                count_victory as nat,
                count_defeat as nat,
            ),
        decreases k,
    {
        assert(results@.take(k as int).drop_last() =~= results@.take(k - 1));
        k = k - 1;
        match results[k] {
            Outcome::Defeat => count_defeat = count_defeat + 1,
            Outcome::Victory => count_victory = count_victory + 1,
            Outcome::Other => {},
        }
        if count_victory >= 2 {
            return Some(true);
        } else if count_defeat >= 2 {
            return Some(false);
        }
    }
    None
}

/// Decides the match between `caller_tag` and `enemy_tag` from the caller's
/// feed (newest first): `Some(true)` when the caller won, `Some(false)` when
/// the enemy won, `None` when the feed does not decide it yet.
pub fn battle_verdict(
    caller_tag: &str,
    enemy_tag: &str,
    mode: &str,
    map: &str,
    feed: &Vec<BattleLogEntry>,
) -> (r: Option<bool>)
    ensures
        r == verdict(relevant_outcomes(feed@, caller_tag@, enemy_tag@, mode@, map@)),
{
    let results = relevant_results(caller_tag, enemy_tag, mode, map, feed);
    decide(&results)
}

/// A tally over fewer than two outcomes, from no victory and no defeat,
/// never decides.
pub proof fn lemma_short_undecided(outs: Seq<Outcome>)
    requires
        outs.len() < 2,
    ensures
        verdict(outs) is None,
{
    reveal_with_fuel(tally, 2);
}

/// How many times `o` occurs in `outs`.
pub open spec fn occurrences(outs: Seq<Outcome>, o: Outcome) -> nat
    decreases outs.len(),
{
    if outs.len() == 0 {
        0
    } else {
        occurrences(outs.drop_last(), o) + if outs.last() == o { 1nat } else { 0nat }
    }
}

/// The `k` oldest of newest-first outcomes.
pub open spec fn oldest(outs: Seq<Outcome>, k: int) -> Seq<Outcome> {
    outs.subrange(outs.len() - k, outs.len() as int)
}

proof fn lemma_oldest_step(outs: Seq<Outcome>, k: int)
    requires
        1 <= k <= outs.len(),
    ensures
        oldest(outs, k).drop_last() == oldest(outs.drop_last(), k - 1),
        oldest(outs, k).last() == outs.last(),
        oldest(outs, k).len() == k,
{
    assert(oldest(outs, k).drop_last() =~= oldest(outs.drop_last(), k - 1));
}

proof fn lemma_tally_two_of(outs: Seq<Outcome>, wins: nat, losses: nat, k: int)
    requires
        wins < 2,
        losses < 2,
        0 <= k <= outs.len(),
    ensures
        occurrences(oldest(outs, k), Outcome::Victory) + wins >= 2 && occurrences(
            oldest(outs, k),
            Outcome::Defeat,
        ) + losses < 2 ==> tally(outs, wins, losses) == Some(true),
        occurrences(oldest(outs, k), Outcome::Defeat) + losses >= 2 && occurrences(
            oldest(outs, k),
            Outcome::Victory,
        ) + wins < 2 ==> tally(outs, wins, losses) == Some(false),
    decreases outs.len(),
{
    if k == 0 {
        assert(oldest(outs, k).len() == 0);
    } else {
        lemma_oldest_step(outs, k);
        let w = if outs.last() == Outcome::Victory { wins + 1 } else { wins };
        let l = if outs.last() == Outcome::Defeat { losses + 1 } else { losses };
        if w < 2 && l < 2 {
            lemma_tally_two_of(outs.drop_last(), w, l, k - 1);
        }
    }
}

/// Fewer than two relevant entries in a feed never decide a match.
pub proof fn lemma_few_relevant_undecided(
    feed: Seq<BattleLogEntry>,
    caller: Seq<char>,
    enemy: Seq<char>,
    mode: Seq<char>,
    map: Seq<char>,
)
    requires
        relevant_outcomes(feed, caller, enemy, mode, map).len() < 2,
    ensures
        verdict(relevant_outcomes(feed, caller, enemy, mode, map)) is None,
{
    lemma_short_undecided(relevant_outcomes(feed, caller, enemy, mode, map));
}

/// Whoever first reaches two victories, counting the relevant outcomes
/// from the oldest, wins the match: if the `k` oldest relevant outcomes
/// hold two caller victories and fewer than two defeats, the caller wins;
/// if they hold two defeats and fewer than two victories, the enemy wins.
pub proof fn lemma_first_to_two_wins(
    feed: Seq<BattleLogEntry>,
    caller: Seq<char>,
    enemy: Seq<char>,
    mode: Seq<char>,
    map: Seq<char>,
    k: int,
)
    requires
        0 <= k <= relevant_outcomes(feed, caller, enemy, mode, map).len(),
    ensures
        ({
            let first = oldest(relevant_outcomes(feed, caller, enemy, mode, map), k);
            occurrences(first, Outcome::Victory) >= 2 && occurrences(first, Outcome::Defeat) < 2
                ==> verdict(relevant_outcomes(feed, caller, enemy, mode, map)) == Some(true)
        }),
        ({
            let first = oldest(relevant_outcomes(feed, caller, enemy, mode, map), k);
            occurrences(first, Outcome::Defeat) >= 2 && occurrences(first, Outcome::Victory) < 2
                ==> verdict(relevant_outcomes(feed, caller, enemy, mode, map)) == Some(false)
        }),
{
    lemma_tally_two_of(relevant_outcomes(feed, caller, enemy, mode, map), 0, 0, k);
}

} // verus!
