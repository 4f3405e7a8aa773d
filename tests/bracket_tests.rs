use dbc_bot::api::APIResult;
use dbc_bot::bracket::{
    all_battles_occured, find_enemy, find_tag, is_disqualified, is_mannequin,
    open_matches, pairing, promote, submit_result, Advance, Competitor, Pairing, RoundError,
    SubmitError, Tournament, set_round,
};
use dbc_bot::config::{make_config, start_tournament_config};
use dbc_bot::region::Region;
use dbc_bot::resolver::BattleLogEntry;

fn player(tag: &str, match_id: usize) -> Competitor {
    Competitor {
        tag: Some(tag.to_string()),
        name: format!("name of {}", tag),
        name_color: "0xFFFFFFFF".to_string(),
        icon: Some(28000000),
        discord_id: Some(format!("id-{}", tag)),
        region: Region::EU,
        match_id: Some(match_id),
        disqualified: false,
        battle: false,
    }
}

fn placeholder(match_id: usize) -> Competitor {
    Competitor {
        tag: None,
        name: "Mannequin".to_string(),
        name_color: "0xFFFFFFFF".to_string(),
        icon: None,
        discord_id: None,
        region: Region::EU,
        match_id: Some(match_id),
        disqualified: false,
        battle: false,
    }
}

fn entry(a: &str, b: &str, result: &str) -> BattleLogEntry {
    BattleLogEntry {
        mode: Some("wipeout".to_string()),
        map: Some("Layer Cake".to_string()),
        battle_type: Some("friendly".to_string()),
        teams: vec![vec![a.to_string()], vec![b.to_string()]],
        result: result.to_string(),
    }
}

fn tournament(current: Vec<Competitor>, round: u32, total: u32) -> Tournament {
    let mut config = make_config();
    start_tournament_config(&mut config, total);
    config.round = round;
    config.mode = Some("wipeout".to_string());
    config.channel = Some("1234".to_string());
    Tournament { config, current, next: vec![] }
}

fn feed(items: Vec<BattleLogEntry>) -> Option<APIResult<Vec<BattleLogEntry>>> {
    Some(APIResult::Successful(items))
}

#[test]
fn unknown_tag_is_not_registered() {
    let mut t = tournament(vec![player("AAA", 1), player("BBB", 1)], 1, 3);
    assert_eq!(submit_result(&mut t, "ZZZ", &None), Err(SubmitError::NotRegistered));
    assert_eq!(t.next.len(), 0);
}

#[test]
fn missing_mode_blocks_submission() {
    let mut t = tournament(vec![player("AAA", 1), player("BBB", 1)], 1, 3);
    t.config.mode = None;
    assert_eq!(submit_result(&mut t, "AAA", &None), Err(SubmitError::ConfigurationMissing));
}

#[test]
fn missing_channel_blocks_submission() {
    let mut t = tournament(vec![player("AAA", 1), placeholder(1)], 1, 3);
    t.config.channel = None;
    assert_eq!(submit_result(&mut t, "AAA", &None), Err(SubmitError::ConfigurationMissing));
    assert!(!t.current[0].battle);
    assert_eq!(t.next.len(), 0);
}

#[test]
fn decided_match_advances_winner() {
    let mut t = tournament(vec![player("AAA", 1), player("BBB", 1), player("CCC", 2), player("DDD", 2)], 1, 3);
    let log = feed(vec![entry("AAA", "BBB", "victory"), entry("AAA", "BBB", "victory")]);
    assert_eq!(
        submit_result(&mut t, "AAA", &log),
        Ok(Advance::Decided { caller_won: true, champion: false })
    );
    assert!(t.current[0].battle && t.current[1].battle);
    assert!(!t.current[2].battle && !t.current[3].battle);
    assert_eq!(t.next.len(), 1);
    assert_eq!(t.next[0].tag.as_deref(), Some("AAA"));
    assert_eq!(t.next[0].match_id, Some(1));
    assert!(!t.next[0].battle);
}

#[test]
fn enemy_win_advances_enemy() {
    let mut t = tournament(vec![player("AAA", 1), player("BBB", 1)], 1, 3);
    let log = feed(vec![entry("AAA", "BBB", "defeat"), entry("AAA", "BBB", "defeat")]);
    assert_eq!(
        submit_result(&mut t, "AAA", &log),
        Ok(Advance::Decided { caller_won: false, champion: false })
    );
    assert_eq!(t.next[0].tag.as_deref(), Some("BBB"));
}

#[test]
fn second_submission_is_refused() {
    let mut t = tournament(vec![player("AAA", 1), player("BBB", 1)], 1, 3);
    let log = feed(vec![entry("AAA", "BBB", "victory"), entry("AAA", "BBB", "victory")]);
    assert!(submit_result(&mut t, "AAA", &log).is_ok());
    assert_eq!(submit_result(&mut t, "AAA", &log), Err(SubmitError::AlreadySubmitted));
    let enemy_log = feed(vec![entry("BBB", "AAA", "victory"), entry("BBB", "AAA", "victory")]);
    assert_eq!(submit_result(&mut t, "BBB", &enemy_log), Err(SubmitError::AlreadySubmitted));
    assert_eq!(t.next.len(), 1);
}

#[test]
fn undecided_changes_nothing() {
    let mut t = tournament(vec![player("AAA", 1), player("BBB", 1)], 1, 3);
    let log = feed(vec![entry("AAA", "BBB", "victory")]);
    assert_eq!(submit_result(&mut t, "AAA", &log), Ok(Advance::Undecided));
    assert_eq!(submit_result(&mut t, "AAA", &Some(APIResult::APIError(500))), Ok(Advance::Undecided));
    assert_eq!(submit_result(&mut t, "AAA", &None), Ok(Advance::Undecided));
    assert!(!t.current[0].battle && !t.current[1].battle);
    assert_eq!(t.next.len(), 0);
}

#[test]
fn mannequin_opponent_gives_bye_whatever_the_log() {
    for log in [None, feed(vec![entry("AAA", "BBB", "defeat"), entry("AAA", "BBB", "defeat")])] {
        let mut t = tournament(vec![player("AAA", 1), placeholder(1)], 1, 3);
        assert_eq!(submit_result(&mut t, "AAA", &log), Ok(Advance::Bye { champion: false }));
        assert_eq!(t.next.len(), 1);
        assert_eq!(t.next[0].tag.as_deref(), Some("AAA"));
        assert!(t.current[0].battle && t.current[1].battle);
    }
}

#[test]
fn disqualified_opponent_gives_bye() {
    let mut foe = player("BBB", 1);
    foe.disqualified = true;
    let mut t = tournament(vec![player("AAA", 1), foe], 1, 3);
    let log = feed(vec![entry("AAA", "BBB", "defeat"), entry("AAA", "BBB", "defeat")]);
    assert_eq!(submit_result(&mut t, "AAA", &log), Ok(Advance::Bye { champion: false }));
    assert_eq!(t.next[0].tag.as_deref(), Some("AAA"));
}

#[test]
fn final_round_crowns_champion() {
    let mut t = tournament(vec![player("AAA", 1), player("BBB", 1)], 3, 3);
    let log = feed(vec![entry("AAA", "BBB", "victory"), entry("AAA", "BBB", "victory")]);
    assert_eq!(
        submit_result(&mut t, "AAA", &log),
        Ok(Advance::Decided { caller_won: true, champion: true })
    );
    assert_eq!(t.next.len(), 0);
    let mut t = tournament(vec![player("AAA", 1), placeholder(1)], 3, 3);
    assert_eq!(submit_result(&mut t, "AAA", &None), Ok(Advance::Bye { champion: true }));
}

#[test]
fn lone_occupant_is_inconsistent() {
    let mut t = tournament(vec![player("AAA", 1), player("BBB", 2), player("CCC", 2), player("DDD", 2)], 1, 3);
    assert_eq!(submit_result(&mut t, "AAA", &None), Err(SubmitError::InconsistentState));
    assert_eq!(submit_result(&mut t, "BBB", &None), Err(SubmitError::InconsistentState));
    let mut unassigned = player("EEE", 1);
    unassigned.match_id = None;
    let mut t = tournament(vec![unassigned], 1, 3);
    assert_eq!(submit_result(&mut t, "EEE", &None), Err(SubmitError::InconsistentState));
}

#[test]
fn next_round_pairs_in_arrival_order() {
    let mut t = tournament(
        vec![player("A", 1), player("B", 1), player("C", 2), placeholder(2), player("E", 3), player("F", 3)],
        1,
        3,
    );
    let win = |a: &str, b: &str| feed(vec![entry(a, b, "victory"), entry(a, b, "victory")]);
    assert!(submit_result(&mut t, "A", &win("A", "B")).is_ok());
    assert!(submit_result(&mut t, "C", &None).is_ok());
    assert!(submit_result(&mut t, "E", &win("E", "F")).is_ok());
    let ids: Vec<Option<usize>> = t.next.iter().map(|c| c.match_id).collect();
    assert_eq!(ids, vec![Some(1), Some(1), Some(2)]);
}

#[test]
fn lookups() {
    let round = vec![player("AAA", 1), placeholder(1), player("CCC", 2), player("DDD", 2)];
    assert_eq!(find_tag(&round, "CCC"), Some(2));
    assert_eq!(find_tag(&round, "XYZ"), None);
    assert_eq!(find_enemy(&round, 2), Some(3));
    assert_eq!(find_enemy(&round, 0), Some(1));
    assert!(is_mannequin(&round[1]));
    assert!(!is_mannequin(&round[0]));
    assert!(!is_disqualified(&round[0]));
    assert_eq!(pairing(&round, "AAA"), Ok(Pairing::Bye { caller: 0, enemy: 1 }));
    assert_eq!(pairing(&round, "DDD"), Ok(Pairing::Contest { caller: 3, enemy: 2 }));
    let p = promote(&round[2], 7);
    assert_eq!(p.match_id, Some(7));
    assert_eq!(p.tag.as_deref(), Some("CCC"));
}

#[test]
fn open_matches_listed_once_each() {
    let mut round = vec![player("A", 1), player("B", 1), player("C", 2), player("D", 2), player("E", 3), player("F", 3)];
    round[2].battle = true;
    round[3].battle = true;
    round[4].battle = true;
    assert_eq!(open_matches(&round), vec![1, 3]);
    let late_first = vec![player("A", 10), player("B", 2), player("C", 10), player("D", 2)];
    assert_eq!(open_matches(&late_first), vec![2, 10]);
    assert!(!all_battles_occured(&round));
    for c in round.iter_mut() {
        c.battle = true;
    }
    assert_eq!(open_matches(&round), Vec::<usize>::new());
    assert!(all_battles_occured(&round));
}

#[test]
fn round_advances_only_when_closed() {
    let mut t = tournament(vec![player("AAA", 1), player("BBB", 1), player("CCC", 2), player("DDD", 2)], 1, 3);
    match set_round(&mut t, None) {
        Err(RoundError::OpenMatches(ids)) => assert_eq!(ids, vec![1, 2]),
        other => panic!("unexpected {:?}", other),
    }
    assert_eq!(t.config.round, 1);
    let win = |a: &str, b: &str| feed(vec![entry(a, b, "victory"), entry(a, b, "victory")]);
    assert!(submit_result(&mut t, "AAA", &win("AAA", "BBB")).is_ok());
    match set_round(&mut t, None) {
        Err(RoundError::OpenMatches(ids)) => assert_eq!(ids, vec![2]),
        other => panic!("unexpected {:?}", other),
    }
    assert!(submit_result(&mut t, "DDD", &win("DDD", "CCC")).is_ok());
    assert!(set_round(&mut t, None).is_ok());
    assert_eq!(t.config.round, 2);
    assert_eq!(t.current.len(), 2);
    assert_eq!(t.next.len(), 0);
    assert_eq!(t.current[1].tag.as_deref(), Some("DDD"));
}

#[test]
fn round_errors() {
    let mut t = tournament(vec![], 3, 3);
    let mut open = tournament(vec![player("AAA", 1), player("BBB", 1)], 1, 3);
    assert!(matches!(set_round(&mut open, Some(2)), Err(RoundError::OpenMatches(_))));
    assert_eq!(open.config.round, 1);
    assert!(matches!(set_round(&mut t, None), Err(RoundError::Finished)));
    assert!(set_round(&mut t, Some(2)).is_ok());
    assert_eq!(t.config.round, 2);
    t.config.channel = None;
    assert!(matches!(set_round(&mut t, None), Err(RoundError::ConfigurationMissing)));
    t.config.channel = Some("1".to_string());
    t.config.mode = None;
    assert!(matches!(set_round(&mut t, None), Err(RoundError::ConfigurationMissing)));
    t.config.tournament = false;
    assert!(matches!(set_round(&mut t, None), Err(RoundError::NotStarted)));
}

#[test]
fn explicit_round_keeps_competitors() {
    let mut t = tournament(vec![player("AAA", 1), player("BBB", 1)], 1, 3);
    t.current[0].battle = true;
    t.current[1].battle = true;
    assert!(set_round(&mut t, Some(3)).is_ok());
    assert_eq!(t.config.round, 3);
    assert_eq!(t.current.len(), 2);
}
