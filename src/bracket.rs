//! The round-advancement state machine: who plays whom, how a submitted
//! result closes a match and moves the winner on, and when a round may end.
use vstd::prelude::*;
use crate::api::APIResult;
use crate::config::TournamentConfig;
use crate::region::Region;
use crate::resolver::{battle_verdict, relevant_outcomes, verdict, BattleLogEntry};
use crate::text::same_text;

verus! {

/// A participant of one round. A placeholder ("mannequin") has no tag.
#[derive(Clone, Debug)]
pub struct Competitor {
    pub tag: Option<String>,
    pub name: String,
    pub name_color: String,
    pub icon: Option<i64>,
    pub discord_id: Option<String>,
    pub region: Region,
    /// The match of this round the competitor plays in, once assigned.
    pub match_id: Option<usize>,
    pub disqualified: bool,
    /// Whether this competitor's match of the round is closed.
    pub battle: bool,
}

/// One region's tournament: its configuration, the current round's
/// competitors and those already through to the next round.
#[derive(Clone, Debug)]
pub struct Tournament {
    pub config: TournamentConfig,
    pub current: Vec<Competitor>,
    pub next: Vec<Competitor>,
}

/// Why a submission was refused; nothing changes in any of these cases.
#[derive(PartialEq, Eq, Structural, Clone, Copy, Debug)]
pub enum SubmitError {
    /// No competitor of the current round holds the tag.
    NotRegistered,
    /// The competitor's match is already closed.
    AlreadySubmitted,
    /// The competitor has no match, or the match does not have exactly two
    /// occupants.
    InconsistentState,
    /// The game mode or the announcement channel is not configured.
    ConfigurationMissing,
}

/// Who the submitting competitor meets: a bye when the opponent is a
/// placeholder or disqualified, a contest otherwise. Fields are indices
/// into the current round.
#[derive(PartialEq, Eq, Structural, Clone, Copy, Debug)]
pub enum Pairing {
    Bye { caller: usize, enemy: usize },
    Contest { caller: usize, enemy: usize },
}

/// What an accepted submission did. `champion` is set when the match was
/// the final round's.
#[derive(PartialEq, Eq, Structural, Clone, Copy, Debug)]
pub enum Advance {
    /// The battle log does not decide the match yet; nothing changed.
    Undecided,
    /// The caller advanced without playing.
    Bye { champion: bool },
    /// The match was decided from the battle log.
    Decided { caller_won: bool, champion: bool },
}

/// Whether `c` is a placeholder.
pub open spec fn mannequin(c: Competitor) -> bool {
    c.tag is None
}

/// Whether meeting `c` gives a bye.
pub open spec fn gives_bye(c: Competitor) -> bool {
    mannequin(c) || c.disqualified
}

/// Whether `c` holds exactly the tag `tag`.
pub open spec fn has_tag(c: Competitor, tag: Seq<char>) -> bool {
    c.tag is Some && c.tag->0@ == tag
}

/// The first position of a competitor holding `tag`.
pub open spec fn tag_index(s: Seq<Competitor>, tag: Seq<char>) -> Option<int>
    decreases s.len(),
{
    if s.len() == 0 {
        None
    } else {
        match tag_index(s.drop_last(), tag) {
            Some(i) => Some(i),
            None => if has_tag(s.last(), tag) {
                Some(s.len() - 1)
            } else {
                None
            },
        }
    }
}

/// Whether `b` plays in the match of `a`.
pub open spec fn same_match(a: Competitor, b: Competitor) -> bool {
    a.match_id is Some && b.match_id == a.match_id
}

/// The positions below `n`, other than `i`, of competitors in the match of
/// the competitor at `i`.
pub open spec fn rivals_below(s: Seq<Competitor>, i: int, n: int) -> Seq<int>
    decreases n,
{
    if n <= 0 {
        Seq::empty()
    } else {
        let r = rivals_below(s, i, n - 1);
        if n - 1 != i && same_match(s[i], s[n - 1]) {
            r.push(n - 1)
        } else {
            r
        }
    }
}

/// The opponent of the competitor at `i`: the only other occupant of its
/// match, if there is exactly one.
pub open spec fn enemy_of(s: Seq<Competitor>, i: int) -> Option<int> {
    let r = rivals_below(s, i, s.len() as int);
    if r.len() == 1 {
        Some(r[0])
    } else {
        None
    }
}

/// Who the holder of `tag` meets in the round `s`, or why it cannot submit.
pub open spec fn pairing_of(s: Seq<Competitor>, tag: Seq<char>) -> Result<Pairing, SubmitError> {
    match tag_index(s, tag) {
        None => Err(SubmitError::NotRegistered),
        Some(i) => if s[i].battle {
            Err(SubmitError::AlreadySubmitted)
        } else {
            match enemy_of(s, i) {
                None => Err(SubmitError::InconsistentState),
                Some(j) => if gives_bye(s[j]) {
                    Ok(Pairing::Bye { caller: i as usize, enemy: j as usize })
                } else {
                    Ok(Pairing::Contest { caller: i as usize, enemy: j as usize })
                },
            }
        }
    }
}

/// Whether a configuration names the game mode and the announcement
/// channel, without which no result is taken and no round ends.
pub open spec fn configured(c: TournamentConfig) -> bool {
    c.mode is Some && c.channel is Some
}

/// The map filter of a configuration; an unset map accepts any map.
pub open spec fn map_filter(c: TournamentConfig) -> Seq<char> {
    match c.map {
        Some(m) => m@,
        None => "Any"@,
    }
}

/// Whether the configuration's round is the last one.
pub open spec fn final_round(c: TournamentConfig) -> bool {
    c.round >= c.total
}

/// The verdict that a battle-log answer gives on the contest between the
/// competitors at `i` and `j`: undecided unless the feed was fetched.
pub open spec fn contest_verdict(
    t: Tournament,
    i: int,
    j: int,
    response: Option<APIResult<Vec<BattleLogEntry>>>,
) -> Option<bool> {
    match response {
        Some(APIResult::Successful(feed)) => verdict(
            relevant_outcomes(
                feed@,
                t.current@[i].tag->0@,
                t.current@[j].tag->0@,
                t.config.mode->0@,
                map_filter(t.config),
            ),
        ),
        _ => None,
    }
}

/// What a submission by the holder of `tag` gives.
pub open spec fn submit_outcome(
    t: Tournament,
    tag: Seq<char>,
    response: Option<APIResult<Vec<BattleLogEntry>>>,
) -> Result<Advance, SubmitError> {
    if !configured(t.config) {
        Err(SubmitError::ConfigurationMissing)
    } else {
        match pairing_of(t.current@, tag) {
            Err(e) => Err(e),
            Ok(Pairing::Bye { .. }) => Ok(Advance::Bye { champion: final_round(t.config) }),
            Ok(Pairing::Contest { caller, enemy }) => match contest_verdict(
                t,
                caller as int,
                enemy as int,
                response,
            ) {
                None => Ok(Advance::Undecided),
                Some(w) => Ok(Advance::Decided { caller_won: w, champion: final_round(t.config) }),
            },
        }
    }
}

/// The record of a competitor whose match is closed.
pub open spec fn closed(c: Competitor) -> Competitor {
    Competitor { battle: true, ..c }
}

/// The record of a competitor copied into the next round under match `id`.
pub open spec fn promoted(c: Competitor, id: int) -> Competitor {
    Competitor { match_id: Some(id as usize), battle: false, ..c }
}

/// The match id given to the next round's competitor inserted at position
/// `n`: competitors are paired in the order they arrive.
pub open spec fn next_match_id(n: int) -> int {
    n / 2 + 1
}

/// The current round once the match between `winner` and `loser` is closed.
pub open spec fn closed_round(s: Seq<Competitor>, winner: int, loser: int) -> Seq<Competitor> {
    s.update(winner, closed(s[winner])).update(loser, closed(s[loser]))
}

/// The next round once `winner` has won: the winner joins it, unless the
/// match was the final round's.
pub open spec fn grown_round(t: Tournament, winner: int) -> Seq<Competitor> {
    if final_round(t.config) {
        t.next@
    } else {
        t.next@.push(promoted(t.current@[winner], next_match_id(t.next@.len() as int)))
    }
}

/// The winner and loser that an accepted submission records, as positions
/// in the current round.
pub open spec fn recorded(
    t: Tournament,
    tag: Seq<char>,
    response: Option<APIResult<Vec<BattleLogEntry>>>,
) -> Option<(int, int)> {
    match (submit_outcome(t, tag, response), pairing_of(t.current@, tag)) {
        (Ok(Advance::Bye { .. }), Ok(Pairing::Bye { caller, enemy })) => Some(
            (caller as int, enemy as int),
        ),
        (Ok(Advance::Decided { caller_won, .. }), Ok(Pairing::Contest { caller, enemy })) => {
            if caller_won {
                Some((caller as int, enemy as int))
            } else {
                Some((enemy as int, caller as int))
            }
        },
        _ => None,
    }
}

/// Whether `c` is a placeholder.
pub fn is_mannequin(c: &Competitor) -> (r: bool)
    ensures
        r == mannequin(*c),
{
    c.tag.is_none()
}

/// Whether `c` has been disqualified.
pub fn is_disqualified(c: &Competitor) -> (r: bool)
    ensures
        r == c.disqualified,
{
    c.disqualified
}

fn holds_tag(c: &Competitor, tag: &str) -> (r: bool)
    ensures
        r == has_tag(*c, tag@),
{
    match &c.tag {
        Some(t) => same_text(t.as_str(), tag),
        None => false,
    }
}

/// The position of the first competitor of `round` holding `tag`.
pub fn find_tag(round: &Vec<Competitor>, tag: &str) -> (r: Option<usize>)
    ensures
        match r {
            Some(i) => tag_index(round@, tag@) == Some(i as int),
            None => tag_index(round@, tag@) is None,
        },
{
    let mut found: Option<usize> = None;
    let mut k: usize = 0;
    while k < round.len()
        invariant
            k <= round@.len(),
            match found {
                Some(i) => tag_index(round@.take(k as int), tag@) == Some(i as int),
                None => tag_index(round@.take(k as int), tag@) is None,
            },
        decreases round@.len() - k,
    {
        assert(round@.take(k + 1).drop_last() =~= round@.take(k as int));
        if found.is_none() && holds_tag(&round[k], tag) {
            found = Some(k);
        }
        k = k + 1;
    }
    assert(round@.take(round@.len() as int) =~= round@);
    found
}

fn in_match_of(a: &Competitor, b: &Competitor) -> (r: bool)
    ensures
        r == same_match(*a, *b),
{
    match (a.match_id, b.match_id) {
        (Some(x), Some(y)) => x == y,
        (Some(_), None) => false,
        (None, _) => false,
    }
}

/// The opponent of the competitor at `caller`: the only other occupant of
/// its match, or `None` if the match does not have exactly two occupants.
pub fn find_enemy(round: &Vec<Competitor>, caller: usize) -> (r: Option<usize>)
    requires
        caller < round@.len(),
    ensures
        match r {
            Some(j) => enemy_of(round@, caller as int) == Some(j as int),
            None => enemy_of(round@, caller as int) is None,
        },
{
    let mut rivals: Vec<usize> = Vec::new();
    let mut k: usize = 0;
    while k < round.len()
        invariant
            caller < round@.len(),
            k <= round@.len(),
            rivals@.len() == rivals_below(round@, caller as int, k as int).len(),
            forall|m: int|
                0 <= m < rivals@.len() ==> rivals@[m] as int == #[trigger] rivals_below(
                    round@,
                    caller as int,
                    k as int,
                )[m],
        decreases round@.len() - k,
    {
        if k != caller && in_match_of(&round[caller], &round[k]) {
            rivals.push(k);
        }
        k = k + 1;
    }
    if rivals.len() == 1 {
        Some(rivals[0])
    } else {
        None
    }
}

/// Who the holder of `tag` meets in the current round, or why it cannot
/// submit a result.
pub fn pairing(round: &Vec<Competitor>, tag: &str) -> (r: Result<Pairing, SubmitError>)
    ensures
        r == pairing_of(round@, tag@),
{
    let i = match find_tag(round, tag) {
        Some(i) => i,
        None => {
            return Err(SubmitError::NotRegistered);
        },
    };
    proof {
        lemma_tag_index_bounded(round@, tag@);
    }
    if round[i].battle {
        return Err(SubmitError::AlreadySubmitted);
    }
    let j = match find_enemy(round, i) {
        Some(j) => j,
        None => {
            return Err(SubmitError::InconsistentState);
        },
    };
    proof {
        let r = rivals_below(round@, i as int, round@.len() as int);
        lemma_rivals_bounded(round@, i as int, round@.len() as int);
        assert(r.contains(r[0]));
    }
    if is_mannequin(&round[j]) || is_disqualified(&round[j]) {
        Ok(Pairing::Bye { caller: i, enemy: j })
    } else {
        Ok(Pairing::Contest { caller: i, enemy: j })
    }
}

proof fn lemma_rivals_bounded(s: Seq<Competitor>, i: int, n: int)
    requires
        0 <= i < s.len(),
        n <= s.len(),
    ensures
        forall|m: int|
            0 <= m < rivals_below(s, i, n).len() ==> 0 <= #[trigger] rivals_below(s, i, n)[m] < n
                && rivals_below(s, i, n)[m] != i,
    decreases n,
{
    if n > 0 {
        lemma_rivals_bounded(s, i, n - 1);
        let r = rivals_below(s, i, n - 1);
        assert forall|m: int| 0 <= m < rivals_below(s, i, n).len() implies 0
            <= #[trigger] rivals_below(s, i, n)[m] < n && rivals_below(s, i, n)[m] != i by {
            if m < r.len() {
                assert(rivals_below(s, i, n)[m] == r[m]);
            }
        }
    }
}

proof fn lemma_tag_index_bounded(s: Seq<Competitor>, tag: Seq<char>)
    ensures
        tag_index(s, tag) matches Some(i) ==> 0 <= i < s.len() && has_tag(s[i], tag),
    decreases s.len(),
{
    if s.len() > 0 {
        lemma_tag_index_bounded(s.drop_last(), tag);
    }
}

/// The indices of an accepted pairing are in range and distinct, the
/// caller holds the tag, and the opponent gives a bye exactly in a bye.
proof fn lemma_pairing_facts(s: Seq<Competitor>, tag: Seq<char>)
    requires
        s.len() <= usize::MAX,
    ensures
        pairing_of(s, tag) matches Ok(Pairing::Bye { caller, enemy }) ==> caller < s.len()
            && enemy < s.len() && caller != enemy && has_tag(s[caller as int], tag) && gives_bye(
            s[enemy as int],
        ) && !s[caller as int].battle,
        pairing_of(s, tag) matches Ok(Pairing::Contest { caller, enemy }) ==> caller < s.len()
            && enemy < s.len() && caller != enemy && has_tag(s[caller as int], tag) && !gives_bye(
            s[enemy as int],
        ) && !s[caller as int].battle,
{
    lemma_tag_index_bounded(s, tag);
    if let Some(i) = tag_index(s, tag) {
        lemma_rivals_bounded(s, i, s.len() as int);
        let r = rivals_below(s, i, s.len() as int);
        if r.len() == 1 {
            assert(0 <= r[0] < s.len() && r[0] != i);
        }
    }
}

/// The verdict of a battle-log answer: undecided unless the feed came back.
pub fn get_result(
    mode: &str,
    map: &str,
    caller_tag: &str,
    enemy_tag: &str,
    response: &APIResult<Vec<BattleLogEntry>>,
) -> (r: Option<bool>)
    ensures
        r == match response {
            APIResult::Successful(feed) => verdict(
                relevant_outcomes(feed@, caller_tag@, enemy_tag@, mode@, map@),
            ),
            _ => None,
        },
{
    match response {
        APIResult::Successful(feed) => battle_verdict(caller_tag, enemy_tag, mode, map, feed),
        APIResult::NotFound(_) => None,
        APIResult::APIError(_) => None,
    }
}

fn copy_text(o: &Option<String>) -> (r: Option<String>)
    ensures
        r == *o,
{
    match o {
        Some(s) => Some(s.clone()),
        None => None,
    }
}

/// The record of `c` copied into the next round under match `id`.
pub fn promote(c: &Competitor, id: usize) -> (r: Competitor)
    ensures
        r == promoted(*c, id as int),
{
    Competitor {
        tag: copy_text(&c.tag),
        name: c.name.clone(),
        name_color: c.name_color.clone(),
        icon: c.icon,
        discord_id: copy_text(&c.discord_id),
        region: c.region,
        match_id: Some(id),
        disqualified: c.disqualified,
        battle: false,
    }
}

fn record_win(t: &mut Tournament, winner: usize, loser: usize)
    requires
        winner < old(t).current@.len(),
        loser < old(t).current@.len(),
    ensures
        final(t).config == old(t).config,
        final(t).current@ == closed_round(old(t).current@, winner as int, loser as int),
        final(t).next@ == grown_round(*old(t), winner as int),
{
    if t.config.round < t.config.total {
        let id = t.next.len() / 2 + 1;
        let c = promote(&t.current[winner], id);
        t.next.push(c);
    }
    t.current[winner].battle = true;
    t.current[loser].battle = true;
}

/// Handles a result submission by the holder of `tag` in the current round.
/// `response` is the answer to the request for the caller's battle log, or
/// `None` where it was not fetched; it is read only for a contest. A bye
/// advances the caller whatever it holds. A decided match closes both
/// records and copies the winner into the next round, unless this was the
/// final round. Refusals and undecided matches change nothing.
pub fn submit_result(
    t: &mut Tournament,
    tag: &str,
    response: &Option<APIResult<Vec<BattleLogEntry>>>,
) -> (r: Result<Advance, SubmitError>)
    ensures
        r == submit_outcome(*old(t), tag@, *response),
        final(t).config == old(t).config,
        match recorded(*old(t), tag@, *response) {
            Some((w, l)) => final(t).current@ == closed_round(old(t).current@, w, l)
                && final(t).next@ == grown_round(*old(t), w),
            None => final(t).current@ == old(t).current@ && final(t).next@ == old(t).next@,
        },
{
    let champion = t.config.round >= t.config.total;
    if t.config.mode.is_none() || t.config.channel.is_none() {
        return Err(SubmitError::ConfigurationMissing);
    }
    let p = pairing(&t.current, tag);
    proof {
        assert(t.current@.len() == t.current.len());
        lemma_pairing_facts(t.current@, tag@);
    }
    let (winner, loser, advance) = match p {
        Err(e) => {
            return Err(e);
        },
        Ok(Pairing::Bye { caller, enemy }) => (caller, enemy, Advance::Bye { champion }),
        Ok(Pairing::Contest { caller, enemy }) => {
            let caller_tag = match &t.current[caller].tag {
                Some(s) => s.as_str(),
                None => {
                    return Err(SubmitError::InconsistentState);
                },
            };
            let enemy_tag = match &t.current[enemy].tag {
                Some(s) => s.as_str(),
                None => {
                    return Err(SubmitError::InconsistentState);
                },
            };
            let mode = match &t.config.mode {
                Some(m) => m.as_str(),
                None => {
                    return Err(SubmitError::ConfigurationMissing);
                },
            };
            let map = match &t.config.map {
                Some(m) => m.as_str(),
                None => "Any",
            };
            let v = match response {
                Some(resp) => get_result(mode, map, caller_tag, enemy_tag, resp),
                None => None,
            };
            match v {
                None => {
                    return Ok(Advance::Undecided);
                },
                Some(true) => (caller, enemy, Advance::Decided { caller_won: true, champion }),
                Some(false) => (enemy, caller, Advance::Decided { caller_won: false, champion }),
            }
        },
    };
    record_win(t, winner, loser);
    Ok(advance)
}

/// Whether `c` still waits for its match to close.
pub open spec fn is_open(c: Competitor) -> bool {
    !c.battle && c.match_id is Some
}

/// Whether some competitor of `s` waits in the open match `id`.
pub open spec fn has_open(s: Seq<Competitor>, id: usize) -> bool {
    exists|i: int| 0 <= i < s.len() && is_open(#[trigger] s[i]) && s[i].match_id == Some(id)
}

/// Whether no competitor of `s` waits for its match to close.
pub open spec fn no_open(s: Seq<Competitor>) -> bool {
    forall|i: int| 0 <= i < s.len() ==> !is_open(#[trigger] s[i])
}

/// Whether `ids` is strictly ascending.
pub open spec fn ascending(ids: Seq<usize>) -> bool {
    forall|a: int, b: int| 0 <= a < b < ids.len() ==> ids[a] < ids[b]
}

/// Whether `ids` lists the open matches of `s`: each open match id once,
/// in ascending order.
pub open spec fn lists_open(ids: Seq<usize>, s: Seq<Competitor>) -> bool {
    &&& ascending(ids)
    &&& forall|id: usize| ids.contains(id) <==> has_open(s, id)
}

/// Inserts `id` into the ascending `ids` unless it is there already.
fn insert_sorted(ids: &mut Vec<usize>, id: usize)
    requires
        ascending(old(ids)@),
    ensures
        ascending(final(ids)@),
        forall|x: usize| final(ids)@.contains(x) <==> (old(ids)@.contains(x) || x == id),
{
    let mut p: usize = 0;
    while p < ids.len() && ids[p] < id
        invariant
            p <= ids@.len(),
            forall|m: int| 0 <= m < p ==> ids@[m] < id,
        decreases ids@.len() - p,
    {
        p = p + 1;
    }
    if p < ids.len() && ids[p] == id {
        return;
    }
    let ghost before = ids@;
    ids.insert(p, id);
    proof {
        let after = ids@;
        assert forall|m: int| 0 <= m < after.len() implies #[trigger] after[m] == (if m < p {
            before[m]
        } else if m == p {
            id
        } else {
            before[m - 1]
        }) by {}
        assert forall|x: usize| after.contains(x) <==> (before.contains(x) || x == id) by {
            if after.contains(x) {
                let m = choose|m: int| 0 <= m < after.len() && after[m] == x;
                if m < p {
                    assert(before[m] == x);
                } else if m > p {
                    assert(before[m - 1] == x);
                }
            }
            if before.contains(x) {
                let m = choose|m: int| 0 <= m < before.len() && before[m] == x;
                if m < p {
                    assert(after[m] == x);
                } else {
                    assert(after[m + 1] == x);
                }
            }
            if x == id {
                assert(after[p as int] == x);
            }
        }
    }
}

/// The ids of the matches of `round` that are not closed yet, each once, in
/// ascending order.
pub fn open_matches(round: &Vec<Competitor>) -> (r: Vec<usize>)
    ensures
        lists_open(r@, round@),
{
    let mut ids: Vec<usize> = Vec::new();
    let mut k: usize = 0;
    while k < round.len()
        invariant
            k <= round@.len(),
            lists_open(ids@, round@.take(k as int)),
        decreases round@.len() - k,
    {
        let ghost before = ids@;
        let ghost pre = round@.take(k as int);
        let ghost post = round@.take(k + 1);
        let c = &round[k];
        if !c.battle {
            match c.match_id {
                Some(id) => {
                    insert_sorted(&mut ids, id);
                },
                None => {},
            }
        }
        proof {
            assert forall|x: usize| ids@.contains(x) <==> has_open(post, x) by {
                if has_open(pre, x) {
                    let i = choose|i: int|
                        0 <= i < pre.len() && is_open(#[trigger] pre[i]) && pre[i].match_id == Some(
                            x,
                        );
                    assert(post[i] == pre[i]);
                }
                if has_open(post, x) {
                    let i = choose|i: int|
                        0 <= i < post.len() && is_open(#[trigger] post[i]) && post[i].match_id
                            == Some(x);
                    if i < k {
                        assert(pre[i] == post[i]);
                    } else {
                        assert(post[i] == round@[k as int]);
                    }
                }
                if is_open(round@[k as int]) && round@[k as int].match_id == Some(x) {
                    assert(post[k as int] == round@[k as int]);
                }
            }
        }
        k = k + 1;
    }
    assert(round@.take(round@.len() as int) =~= round@);
    ids
}

/// A listing of the open matches is empty exactly when no match is open.
proof fn lemma_listing_empty(ids: Seq<usize>, s: Seq<Competitor>)
    requires
        lists_open(ids, s),
    ensures
        ids.len() == 0 <==> no_open(s),
{
    if ids.len() > 0 {
        assert(ids.contains(ids[0]));
    }
    if !no_open(s) {
        let i = choose|i: int| 0 <= i < s.len() && is_open(#[trigger] s[i]);
        assert(has_open(s, s[i].match_id->0));
        assert(ids.contains(s[i].match_id->0));
    }
}

/// Whether every match of the round is closed.
pub fn all_battles_occured(round: &Vec<Competitor>) -> (r: bool)
    ensures
        r == no_open(round@),
{
    let open = open_matches(round);
    proof {
        lemma_listing_empty(open@, round@);
    }
    open.len() == 0
}

/// Why the round could not be moved on; nothing changes in any of these cases.
#[derive(Clone, Debug)]
pub enum RoundError {
    /// The tournament has not started.
    NotStarted,
    /// The game mode or the announcement channel is not configured.
    ConfigurationMissing,
    /// These matches are still open, each once, in ascending order.
    OpenMatches(Vec<usize>),
    /// The final round is already being played.
    Finished,
}

/// Whether the round may end: the tournament runs, it is configured and
/// every match of the current round is closed.
pub open spec fn round_closed(t: Tournament) -> bool {
    &&& t.config.tournament
    &&& configured(t.config)
    &&& no_open(t.current@)
}

/// Whether `e` is the right refusal of a round change for `t`.
pub open spec fn refused_for(t: Tournament, e: RoundError) -> bool {
    match e {
        RoundError::NotStarted => !t.config.tournament,
        RoundError::ConfigurationMissing => t.config.tournament && !configured(t.config),
        RoundError::OpenMatches(ids) => t.config.tournament && configured(t.config) && lists_open(
            ids@,
            t.current@,
        ) && ids@.len() > 0,
        RoundError::Finished => round_closed(t) && final_round(t.config),
    }
}

fn round_check(t: &Tournament) -> (r: Result<(), RoundError>)
    ensures
        match r {
            Ok(()) => round_closed(*t),
            Err(e) => refused_for(*t, e) && !(e is Finished),
        },
{
    if !t.config.tournament {
        return Err(RoundError::NotStarted);
    }
    if t.config.mode.is_none() || t.config.channel.is_none() {
        return Err(RoundError::ConfigurationMissing);
    }
    let open = open_matches(&t.current);
    proof {
        lemma_listing_empty(open@, t.current@);
    }
    if open.len() > 0 {
        return Err(RoundError::OpenMatches(open));
    }
    Ok(())
}

/// Changes the round once every match of the current round is closed.
/// Without an explicit round the tournament moves to the next round: the
/// next round's competitors become the current ones, which the final round
/// refuses. An explicit round only corrects the round number.
pub fn set_round(t: &mut Tournament, round: Option<u32>) -> (r: Result<(), RoundError>)
    ensures
        match r {
            Ok(()) => round_closed(*old(t)) && match round {
                None => {
                    &&& !final_round(old(t).config)
                    &&& final(t).config == (TournamentConfig {
                        round: (old(t).config.round + 1) as u32,
                        ..old(t).config
                    })
                    &&& final(t).current@ == old(t).next@
                    &&& final(t).next@.len() == 0
                },
                Some(n) => {
                    &&& final(t).config == (TournamentConfig { round: n, ..old(t).config })
                    &&& final(t).current@ == old(t).current@
                    &&& final(t).next@ == old(t).next@
                },
            },
            Err(e) => {
                &&& *final(t) == *old(t)
                &&& refused_for(*old(t), e)
                &&& (e is Finished ==> round is None)
            },
        },
{
    match round_check(t) {
        Err(e) => {
            return Err(e);
        },
        Ok(()) => {},
    }
    match round {
        Some(n) => {
            t.config.round = n;
            Ok(())
        },
        None => {
            if t.config.round >= t.config.total {
                return Err(RoundError::Finished);
            }
            t.config.round = t.config.round + 1;
            let mut fresh: Vec<Competitor> = Vec::new();
            std::mem::swap(&mut t.next, &mut fresh);
            t.current = fresh;
            Ok(())
        },
    }
}

proof fn lemma_tag_index_same_tags(s: Seq<Competitor>, s2: Seq<Competitor>, tag: Seq<char>)
    requires
        s.len() == s2.len(),
        forall|k: int| 0 <= k < s.len() ==> (#[trigger] s[k]).tag == s2[k].tag,
    ensures
        tag_index(s, tag) == tag_index(s2, tag),
    decreases s.len(),
{
    if s.len() > 0 {
        lemma_tag_index_same_tags(s.drop_last(), s2.drop_last(), tag);
        assert(s.last().tag == s2.last().tag);
    }
}

/// A submission that closed a match cannot advance anyone again: once the
/// round is `closed_round` of the recorded winner and loser, every later
/// submission by a holder of either record is refused as already submitted
/// and changes nothing, whatever battle log comes with it. The submitting
/// competitor is always one of the two, `w` the winner and `l` the loser.
pub proof fn lemma_submit_idempotent(
    t: Tournament,
    tag: Seq<char>,
    response: Option<APIResult<Vec<BattleLogEntry>>>,
    w: int,
    l: int,
    t2: Tournament,
    tag2: Seq<char>,
    response2: Option<APIResult<Vec<BattleLogEntry>>>,
)
    requires
        recorded(t, tag, response) == Some((w, l)),
        t2.config == t.config,
        t2.current@ == closed_round(t.current@, w, l),
    ensures
        ({
            &&& tag_index(t.current@, tag) == Some(w) || tag_index(t.current@, tag) == Some(l)
            &&& (tag_index(t.current@, tag2) == Some(w) || tag_index(t.current@, tag2) == Some(l))
                ==> submit_outcome(t2, tag2, response2) == Err::<Advance, SubmitError>(
                SubmitError::AlreadySubmitted,
            ) && recorded(t2, tag2, response2) is None
        }),
{
    let s = t.current@;
    assert(s.len() == t.current.len());
    lemma_pairing_facts(s, tag);
    lemma_tag_index_bounded(s, tag);
    let s2 = t2.current@;
    assert forall|k: int| 0 <= k < s.len() implies (#[trigger] s[k]).tag == s2[k].tag by {}
    lemma_tag_index_same_tags(s, s2, tag2);
    lemma_tag_index_bounded(s2, tag2);
    if tag_index(s, tag2) == Some(w) || tag_index(s, tag2) == Some(l) {
        assert(s2[tag_index(s2, tag2)->0].battle);
    }
}

/// A bye does not depend on the battle log: when the caller's opponent is
/// a placeholder or disqualified, every submission by the caller advances
/// it without playing and records it as the winner over that opponent.
pub proof fn lemma_bye_ignores_battle_log(
    t: Tournament,
    tag: Seq<char>,
    response: Option<APIResult<Vec<BattleLogEntry>>>,
)
    requires
        configured(t.config),
        tag_index(t.current@, tag) is Some,
        !t.current@[tag_index(t.current@, tag)->0].battle,
        enemy_of(t.current@, tag_index(t.current@, tag)->0) is Some,
        gives_bye(t.current@[enemy_of(t.current@, tag_index(t.current@, tag)->0)->0]),
    ensures
        submit_outcome(t, tag, response) == Ok::<Advance, SubmitError>(
            Advance::Bye { champion: final_round(t.config) },
        ),
        recorded(t, tag, response) == Some(
            (
                tag_index(t.current@, tag)->0,
                enemy_of(t.current@, tag_index(t.current@, tag)->0)->0,
            ),
        ),
{
    let s = t.current@;
    assert(s.len() == t.current.len());
    lemma_pairing_facts(s, tag);
    lemma_tag_index_bounded(s, tag);
    let i = tag_index(s, tag)->0;
    lemma_rivals_bounded(s, i, s.len() as int);
}

/// The round-close check enumerates exactly the open matches: a listing
/// holds each match id that has an occupant not yet closed, and no other,
/// once each; it is empty exactly when no match is open; and there is only
/// one such listing.
pub proof fn lemma_open_matches_exact(s: Seq<Competitor>, ids: Seq<usize>, other: Seq<usize>)
    requires
        lists_open(ids, s),
        lists_open(other, s),
    ensures
        ids.no_duplicates(),
        ids.len() == 0 <==> no_open(s),
        ids == other,
{
    lemma_listing_empty(ids, s);
    lemma_ascending_unique(ids, other);
}

proof fn lemma_ascending_unique(a: Seq<usize>, b: Seq<usize>)
    requires
        ascending(a),
        ascending(b),
        forall|x: usize| a.contains(x) <==> b.contains(x),
    ensures
        a == b,
    decreases a.len(),
{
    if a.len() == 0 {
        if b.len() > 0 {
            assert(b.contains(b[0]));
        }
        assert(a =~= b);
    } else {
        assert(a.contains(a[0]));
        assert(b.contains(a[0]));
        assert(b.len() > 0);
        assert(b.contains(b[0]));
        assert(a.contains(b[0]));
        let i = choose|i: int| 0 <= i < b.len() && b[i] == a[0];
        let j = choose|j: int| 0 <= j < a.len() && a[j] == b[0];
        if i > 0 {
            assert(b[0] < b[i]);
            assert(j > 0 ==> a[0] < a[j]);
        }
        if j > 0 {
            assert(a[0] < a[j]);
        }
        assert(a[0] == b[0]);
        let a2 = a.drop_first();
        let b2 = b.drop_first();
        assert forall|x: usize| a2.contains(x) <==> b2.contains(x) by {
            if a2.contains(x) {
                let m = choose|m: int| 0 <= m < a2.len() && a2[m] == x;
                assert(a[m + 1] == x && a[0] < a[m + 1]);
                assert(a.contains(x));
                let n = choose|n: int| 0 <= n < b.len() && b[n] == x;
                assert(n != 0);
                assert(b2[n - 1] == x);
            }
            if b2.contains(x) {
                let m = choose|m: int| 0 <= m < b2.len() && b2[m] == x;
                assert(b[m + 1] == x && b[0] < b[m + 1]);
                assert(b.contains(x));
                let n = choose|n: int| 0 <= n < a.len() && a[n] == x;
                assert(n != 0);
                assert(a2[n - 1] == x);
            }
        }
        lemma_ascending_unique(a2, b2);
        assert(a =~= b) by {
            assert forall|k: int| 0 <= k < a.len() implies a[k] == b[k] by {
                if k > 0 {
                    assert(a[k] == a2[k - 1]);
                    assert(b[k] == b2[k - 1]);
                }
            }
        }
    }
}

} // verus!
