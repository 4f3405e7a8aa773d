use dbc_bot::api::{classify_response, endpoint, get_battle_log, get_player, strip_hash, APIResult};
use dbc_bot::bracket::{is_mannequin, Competitor, Tournament};
use dbc_bot::config::{
    disable_registration_config, enable_registration_config, find_round, make_config,
    prerequisite, reset_config, set_config, start_tournament_config, update_round,
};
use dbc_bot::misc::{get_color, get_difficulty, get_mode_icon, CustomError};
use dbc_bot::player::{Club, Icon, Player};
use dbc_bot::region::{region_details, Region};
use dbc_bot::roster::{add_mannequin, disqualify, fill_mannequins, find_player, make_player_doc, register, seed_round};
use dbc_bot::text::{decimal_text, same_text, QuoteStripper};

fn profile() -> Player {
    Player {
        tag: "#8Y9ABC".to_string(),
        name: "Shelly".to_string(),
        icon: Icon { id: 28000012 },
        trophies: 100,
        highest_trophies: 200,
        victories_3v3: 3,
        solo_victories: 1,
        duo_victories: 2,
        best_robo_rumble_time: 0,
        club: Club { tag: "#CLUB".to_string(), name: "Club".to_string() },
    }
}

#[test]
fn config_lifecycle() {
    let mut c = make_config();
    assert!(!c.registration && !c.tournament && c.round == 0 && c.total == 0 && c.mode.is_none());
    enable_registration_config(&mut c);
    assert!(c.registration);
    disable_registration_config(&mut c);
    assert!(!c.registration);
    enable_registration_config(&mut c);
    start_tournament_config(&mut c, 4);
    assert!(c.tournament && !c.registration && c.round == 1 && c.total == 4);
    update_round(&mut c, None);
    assert_eq!(c.round, 2);
    update_round(&mut c, Some(7));
    assert_eq!(c.round, 7);
    assert!(set_config(&mut c, "mode", Some("wipeout".to_string())));
    assert!(set_config(&mut c, "channel", Some("123".to_string())));
    assert!(!set_config(&mut c, "colour", Some("red".to_string())));
    assert_eq!(c.mode.as_deref(), Some("wipeout"));
    assert!(!prerequisite(&c));
    assert!(set_config(&mut c, "role", Some("55".to_string())));
    assert!(prerequisite(&c));
    assert!(set_config(&mut c, "map", None));
    reset_config(&mut c);
    assert!(!c.tournament && c.round == 0 && c.mode.is_none() && c.channel.is_none());
}

#[test]
fn round_names() {
    let mut c = make_config();
    assert_eq!(find_round(&c), "Players");
    c.round = 1;
    assert_eq!(find_round(&c), "Round 1");
    c.round = 12;
    assert_eq!(find_round(&c), "Round 12");
    assert_eq!(decimal_text(0), "0");
    assert_eq!(decimal_text(4294967295), "4294967295");
}

#[test]
fn endpoints() {
    assert_eq!(get_player("8Y9ABC"), "https://api.brawlstars.com/v1/players/%238Y9ABC");
    assert_eq!(get_battle_log("8Y9ABC"), "https://api.brawlstars.com/v1/players/%238Y9ABC/battlelog");
    assert_eq!(strip_hash("#8Y9ABC"), "8Y9ABC");
    assert_eq!(strip_hash("8Y9ABC"), "8Y9ABC");
    assert_eq!(
        endpoint("battle_log", "#8Y9ABC").as_deref(),
        Some("https://api.brawlstars.com/v1/players/%238Y9ABC/battlelog")
    );
    assert_eq!(endpoint("player", "8Y9ABC").as_deref(), Some("https://api.brawlstars.com/v1/players/%238Y9ABC"));
    assert_eq!(endpoint("club", "8Y9ABC"), None);
}

#[test]
fn response_classes() {
    assert!(matches!(classify_response(200, Some(5)), APIResult::Successful(5)));
    assert!(matches!(classify_response::<i32>(200, None), APIResult::APIError(200)));
    assert!(matches!(classify_response::<i32>(404, None), APIResult::NotFound(404)));
    assert!(matches!(classify_response(403, Some(1)), APIResult::NotFound(403)));
    assert!(matches!(classify_response::<i32>(503, None), APIResult::APIError(503)));
    assert!(matches!(classify_response::<i32>(302, None), APIResult::APIError(302)));
}

#[test]
fn presentation_helpers() {
    assert_eq!(get_difficulty(3), "Expert");
    assert_eq!(get_difficulty(0), "Easy");
    assert_eq!(get_difficulty(20), "Insane XVI");
    assert_eq!(get_difficulty(21), "Congratulations, either we were wrong, or you unlocked new difficulty");
    assert_eq!(get_mode_icon("wipeout"), "https://cdn.brawlstats.com/event-icons/event_mode_wipeout.png");
    assert_eq!(get_mode_icon("brawlBall"), "https://cdn.brawlstats.com/event-icons/event_mode_gem_grab.png");
    assert_eq!(
        get_mode_icon("duels"),
        "https://cdn.discordapp.com/emojis/1133867752155779173.webp?size=4096&quality=lossless"
    );
    assert_eq!(get_color("victory"), 0x90EE90);
    assert_eq!(get_color("defeat"), 0xFF0000);
    assert_eq!(get_color("draw"), 0xFFFFFF);
    assert_eq!(get_color("unknown"), 0);
    assert_eq!(CustomError("An error occurred".to_string()).describe(), "CustomError: An error occurred");
}

#[test]
fn regions() {
    assert_eq!(Region::find_key("EU"), Some(Region::EU));
    assert_eq!(Region::find_key("NASA"), Some(Region::NASA));
    assert_eq!(Region::find_key("APAC"), Some(Region::APAC));
    assert_eq!(Region::find_key("Europe"), None);
    assert_eq!(region_details("EU"), "Europe");
    assert_eq!(region_details("APAC"), "Asia & Oceania");
    assert_eq!(region_details("NASA"), "North America & South America");
    assert_eq!(region_details("Mars"), "You are not from Earth, aren't you?");
}

#[test]
fn text_helpers() {
    assert_eq!("\"Hello, world!\"".to_string().strip_quote(), "Hello, world!");
    assert_eq!("plain".to_string().strip_quote(), "plain");
    assert!(same_text("abc", "abc"));
    assert!(!same_text("abc", "abd"));
}

#[test]
fn registration_records() {
    let c = make_player_doc(&profile(), None, "42", Region::APAC);
    assert_eq!(c.tag.as_deref(), Some("#8Y9ABC"));
    assert_eq!(c.name, "Shelly");
    assert_eq!(c.name_color, "0xFFFFFFFF");
    assert_eq!(c.icon, Some(28000012));
    assert_eq!(c.discord_id.as_deref(), Some("42"));
    assert_eq!(c.region, Region::APAC);
    assert!(c.match_id.is_none() && !c.battle && !c.disqualified);
    let c = make_player_doc(&profile(), Some("0xff1ba2e0".to_string()), "42", Region::EU);
    assert_eq!(c.name_color, "0xff1ba2e0");
}

#[test]
fn placeholders_and_disqualification() {
    let m = add_mannequin(Region::EU, Some(3));
    assert!(is_mannequin(&m));
    assert_eq!(m.name, "Mannequin");
    assert_eq!(m.match_id, Some(3));
    let mut round: Vec<Competitor> = vec![make_player_doc(&profile(), None, "42", Region::EU)];
    round[0].match_id = Some(5);
    fill_mannequins(&mut round, Region::EU, 3);
    assert_eq!(round.len(), 4);
    assert!(round[1..].iter().all(|c| is_mannequin(c) && c.match_id.is_none()));
    assert_eq!(find_player(&round, "42"), Some(0));
    assert_eq!(find_player(&round, "43"), None);
    assert!(!disqualify(&mut round, "43"));
    assert!(disqualify(&mut round, "42"));
    assert!(is_mannequin(&round[0]));
    assert_eq!(round[0].match_id, Some(5));
    assert_eq!(find_player(&round, "42"), None);
}

#[test]
fn first_round_pairs_in_registration_order() {
    let mut round: Vec<Competitor> = (0..3)
        .map(|i| make_player_doc(&profile(), None, &format!("{}", i), Region::EU))
        .collect();
    seed_round(&mut round, Region::EU);
    let ids: Vec<Option<usize>> = round.iter().map(|c| c.match_id).collect();
    assert_eq!(ids, vec![Some(1), Some(1), Some(2), Some(2)]);
    assert!(is_mannequin(&round[3]));
    assert!(round.iter().all(|c| !c.battle));
    let mut even: Vec<Competitor> = (0..2)
        .map(|i| make_player_doc(&profile(), None, &format!("{}", i), Region::EU))
        .collect();
    seed_round(&mut even, Region::EU);
    assert_eq!(even.len(), 2);
}

#[test]
fn registration_only_while_open() {
    let mut t = Tournament { config: make_config(), current: vec![], next: vec![] };
    let c = make_player_doc(&profile(), None, "42", Region::EU);
    assert!(!register(&mut t, c.clone()));
    assert_eq!(t.current.len(), 0);
    enable_registration_config(&mut t.config);
    assert!(register(&mut t, c));
    assert_eq!(t.current.len(), 1);
}
