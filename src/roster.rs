//! Building and editing the competitor records of a round: registration,
//! placeholders and disqualification.
use vstd::prelude::*;
use vstd::string::StringExecFns;
use crate::bracket::{next_match_id, promote, promoted, Competitor, Tournament};
use crate::player::Player;
use crate::region::Region;
use crate::text::same_text;

verus! {

/// The record of a newly registered player of `region`, not yet in a match.
/// A profile without a name colour gets opaque white.
pub fn make_player_doc(
    player: &Player,
    name_color: Option<String>,
    discord_id: &str,
    region: Region,
) -> (r: Competitor)
    ensures
        r.tag == Some(player.tag),
        r.name == player.name,
        r.name_color@ == match name_color {
            Some(c) => c@,
            None => "0xFFFFFFFF"@,
        },
        r.icon == Some(player.icon.id as i64),
        r.discord_id matches Some(d) && d@ == discord_id@,
        r.region == region,
        r.match_id is None,
        !r.disqualified,
        !r.battle,
{
    let color = match name_color {
        Some(c) => c,
        None => String::from_str("0xFFFFFFFF"),
    };
    Competitor {
        tag: Some(player.tag.clone()),
        name: player.name.clone(),
        name_color: color,
        icon: Some(player.icon.id as i64),
        discord_id: Some(String::from_str(discord_id)),
        region,
        match_id: None,
        disqualified: false,
        battle: false,
    }
}

/// Whether `c` is a placeholder named "Mannequin" of `region` in match
/// `match_id`.
pub open spec fn is_placeholder_of(c: Competitor, region: Region, match_id: Option<usize>) -> bool {
    &&& c.tag is None
    &&& c.name@ == "Mannequin"@
    &&& c.discord_id is None
    &&& c.region == region
    &&& c.match_id == match_id
    &&& !c.disqualified
    &&& !c.battle
}

/// A placeholder competitor ("mannequin") of `region`, in match `match_id`
/// if one is given.
pub fn add_mannequin(region: Region, match_id: Option<usize>) -> (r: Competitor)
    ensures
        is_placeholder_of(r, region, match_id),
{
    Competitor {
        tag: None,
        name: String::from_str("Mannequin"),
        name_color: String::from_str("0xFFFFFFFF"),
        icon: None,
        discord_id: None,
        region,
        match_id,
        disqualified: false,
        battle: false,
    }
}

/// Adds `quantity` placeholders of `region`, without a match, to `round`.
pub fn fill_mannequins(round: &mut Vec<Competitor>, region: Region, quantity: usize)
    ensures
        final(round)@.len() == old(round)@.len() + quantity,
        final(round)@.take(old(round)@.len() as int) == old(round)@,
        forall|k: int|
            old(round)@.len() <= k < final(round)@.len() ==> is_placeholder_of(
                #[trigger] final(round)@[k],
                region,
                None,
            ),
{
    let ghost start = round@;
    let mut n: usize = 0;
    while n < quantity
        invariant
            n <= quantity,
            round@.len() == start.len() + n,
            round@.take(start.len() as int) == start,
            forall|k: int|
                start.len() <= k < round@.len() ==> is_placeholder_of(
                    #[trigger] round@[k],
                    region,
                    None,
                ),
        decreases quantity - n,
    {
        let ghost before = round@;
        round.push(add_mannequin(region, None));
        assert(round@.take(start.len() as int) =~= before.take(start.len() as int));
        n = n + 1;
    }
}

/// Whether `c` was registered by the chat account `discord_id`.
pub open spec fn registered_by(c: Competitor, discord_id: Seq<char>) -> bool {
    c.discord_id is Some && c.discord_id->0@ == discord_id
}

/// The first position of a competitor registered by `discord_id`.
pub open spec fn discord_index(s: Seq<Competitor>, discord_id: Seq<char>) -> Option<int>
    decreases s.len(),
{
    if s.len() == 0 {
        None
    } else {
        match discord_index(s.drop_last(), discord_id) {
            Some(i) => Some(i),
            None => if registered_by(s.last(), discord_id) {
                Some(s.len() - 1)
            } else {
                None
            },
        }
    }
}

proof fn lemma_discord_index_bounded(s: Seq<Competitor>, discord_id: Seq<char>)
    ensures
        discord_index(s, discord_id) matches Some(i) ==> 0 <= i < s.len(),
    decreases s.len(),
{
    if s.len() > 0 {
        lemma_discord_index_bounded(s.drop_last(), discord_id);
    }
}

/// The position of the first competitor of `round` registered by
/// `discord_id`.
pub fn find_player(round: &Vec<Competitor>, discord_id: &str) -> (r: Option<usize>)
    ensures
        match r {
            Some(i) => discord_index(round@, discord_id@) == Some(i as int),
            None => discord_index(round@, discord_id@) is None,
        },
{
    let mut found: Option<usize> = None;
    let mut k: usize = 0;
    while k < round.len()
        invariant
            k <= round@.len(),
            match found {
                Some(i) => discord_index(round@.take(k as int), discord_id@) == Some(i as int),
                None => discord_index(round@.take(k as int), discord_id@) is None,
            },
        decreases round@.len() - k,
    {
        assert(round@.take(k + 1).drop_last() =~= round@.take(k as int));
        if found.is_none() {
            let hit = match &round[k].discord_id {
                Some(d) => same_text(d.as_str(), discord_id),
                None => false,
            };
            if hit {
                found = Some(k);
            }
        }
        k = k + 1;
    }
    assert(round@.take(round@.len() as int) =~= round@);
    found
}

/// Replaces the first competitor of `round` registered by `discord_id` with
/// a placeholder of the same region and match, so that its opponent gets a
/// bye. Gives `false`, changing nothing, when no such competitor exists.
pub fn disqualify(round: &mut Vec<Competitor>, discord_id: &str) -> (r: bool)
    ensures
        r == discord_index(old(round)@, discord_id@) is Some,
        match discord_index(old(round)@, discord_id@) {
            Some(k) => {
                &&& final(round)@.len() == old(round)@.len()
                &&& is_placeholder_of(
                    final(round)@[k],
                    old(round)@[k].region,
                    old(round)@[k].match_id,
                )
                &&& forall|m: int|
                    0 <= m < old(round)@.len() && m != k ==> final(round)@[m] == old(round)@[m]
            },
            None => final(round)@ == old(round)@,
        },
{
    proof {
        lemma_discord_index_bounded(round@, discord_id@);
    }
    match find_player(round, discord_id) {
        Some(k) => {
            let region = round[k].region;
            let match_id = round[k].match_id;
            round.set(k, add_mannequin(region, match_id));
            true
        },
        None => false,
    }
}

/// Pairs the registered players of `round` for the first round in the order
/// they registered: positions `2k` and `2k + 1` play match `k + 1`. An odd
/// player out gets a placeholder of `region` as opponent.
pub fn seed_round(round: &mut Vec<Competitor>, region: Region)
    ensures
        final(round)@.len() == old(round)@.len() + old(round)@.len() % 2,
        forall|i: int|
            0 <= i < old(round)@.len() ==> #[trigger] final(round)@[i] == promoted(
                old(round)@[i],
                next_match_id(i),
            ),
        old(round)@.len() % 2 == 1 ==> is_placeholder_of(
            final(round)@[old(round)@.len() as int],
            region,
            Some(next_match_id(old(round)@.len() as int) as usize),
        ),
{
    let n = round.len();
    let mut i: usize = 0;
    while i < n
        invariant
            n == old(round)@.len(),
            round@.len() == n,
            i <= n,
            forall|k: int| 0 <= k < i ==> #[trigger] round@[k] == promoted(old(round)@[k], next_match_id(k)),
            forall|k: int| i <= k < n ==> #[trigger] round@[k] == old(round)@[k],
        decreases n - i,
    {
        let c = promote(&round[i], i / 2 + 1);
        round.set(i, c);
        i = i + 1;
    }
    if n % 2 == 1 {
        round.push(add_mannequin(region, Some(n / 2 + 1)));
    }
}

/// Adds `c` to the registered players while registration is open; gives
/// `false`, changing nothing, when it is closed.
pub fn register(t: &mut Tournament, c: Competitor) -> (r: bool)
    ensures
        r == old(t).config.registration,
        final(t).config == old(t).config,
        final(t).next@ == old(t).next@,
        final(t).current@ == if r {
            old(t).current@.push(c)
        } else {
            old(t).current@
        },
{
    if !t.config.registration {
        return false;
    }
    t.current.push(c);
    true
}

} // verus!
