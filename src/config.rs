//! Per-region tournament configuration and its moderator-driven updates.
use vstd::prelude::*;
use crate::text::{decimal, decimal_text, same_text};
use vstd::string::StringExecFns;

verus! {

/// The configuration of one region's tournament.
#[derive(Clone, Debug)]
pub struct TournamentConfig {
    /// Whether registration is open.
    pub registration: bool,
    /// Whether the tournament has started.
    pub tournament: bool,
    /// The current round; 0 is the registration stage.
    pub round: u32,
    /// The number of rounds, fixed when the tournament starts.
    pub total: u32,
    pub mode: Option<String>,
    /// The map filter; `None` accepts any map.
    pub map: Option<String>,
    pub role: Option<String>,
    pub channel: Option<String>,
}

/// Whether `c` is the configuration of a region with nothing set up.
pub open spec fn is_fresh(c: TournamentConfig) -> bool {
    &&& !c.registration
    &&& !c.tournament
    &&& c.round == 0
    &&& c.total == 0
    &&& c.mode is None
    &&& c.map is None
    &&& c.role is None
    &&& c.channel is None
}

/// The configuration of a newly set-up region.
pub fn make_config() -> (r: TournamentConfig)
    ensures
        is_fresh(r),
{
    TournamentConfig {
        registration: false,
        tournament: false,
        round: 0,
        mode: None,
        map: None,
        total: 0,
        role: None,
        channel: None,
    }
}

/// Tears a tournament down to the fresh configuration.
pub fn reset_config(config: &mut TournamentConfig)
    ensures
        is_fresh(*final(config)),
{
    *config = make_config();
}

/// Closes registration.
pub fn disable_registration_config(config: &mut TournamentConfig)
    ensures
        *final(config) == (TournamentConfig { registration: false, ..*old(config) }),
{
    config.registration = false;
}

/// Opens registration.
pub fn enable_registration_config(config: &mut TournamentConfig)
    ensures
        *final(config) == (TournamentConfig { registration: true, ..*old(config) }),
{
    config.registration = true;
}

/// Starts the tournament at round 1 with `total` rounds, closing registration.
pub fn start_tournament_config(config: &mut TournamentConfig, total: u32)
    ensures
        *final(config) == (TournamentConfig {
            round: 1,
            tournament: true,
            registration: false,
            total: total,
            ..*old(config)
        }),
{
    config.round = 1;
    config.tournament = true;
    config.registration = false;
    config.total = total;
}

/// Sets the round to `round`, or moves to the next round when `round` is
/// `None`.
pub fn update_round(config: &mut TournamentConfig, round: Option<u32>)
    requires
        round is Some || old(config).round < u32::MAX,
    ensures
        *final(config) == (TournamentConfig {
            round: match round {
                Some(n) => n,
                None => (old(config).round + 1) as u32,
            },
            ..*old(config)
        }),
{
    match round {
        Some(n) => config.round = n,
        None => config.round = config.round + 1,
    }
}

/// Which textual setting a key names.
pub open spec fn setting_key(key: Seq<char>) -> int {
    if key == "mode"@ {
        0
    } else if key == "map"@ {
        1
    } else if key == "role"@ {
        2
    } else if key == "channel"@ {
        3
    } else {
        -1
    }
}

/// Sets the textual setting named `key` ("mode", "map", "role" or
/// "channel") to `value`; any other key changes nothing and gives `false`.
pub fn set_config(config: &mut TournamentConfig, key: &str, value: Option<String>) -> (r: bool)
    ensures
        r == (setting_key(key@) >= 0),
        setting_key(key@) == 0 ==> *final(config) == (TournamentConfig { mode: value, ..*old(config) }),
        setting_key(key@) == 1 ==> *final(config) == (TournamentConfig { map: value, ..*old(config) }),
        setting_key(key@) == 2 ==> *final(config) == (TournamentConfig { role: value, ..*old(config) }),
        setting_key(key@) == 3 ==> *final(config) == (TournamentConfig {
            channel: value,
            ..*old(config)
        }),
        setting_key(key@) < 0 ==> *final(config) == *old(config),
{
    if same_text(key, "mode") {
        config.mode = value;
        true
    } else if same_text(key, "map") {
        config.map = value;
        true
    } else if same_text(key, "role") {
        config.role = value;
        true
    } else if same_text(key, "channel") {
        config.channel = value;
        true
    } else {
        false
    }
}

/// The name of a round's collection: the registration stage is "Players",
/// round `n` is "Round n".
pub open spec fn round_name(round: nat) -> Seq<char> {
    if round == 0 {
        "Players"@
    } else {
        "Round "@ + decimal(round)
    }
}

/// The name of the current round's collection.
pub fn find_round(config: &TournamentConfig) -> (r: String)
    ensures
        r@ == round_name(config.round as nat),
{
    if config.round == 0 {
        String::from_str("Players")
    } else {
        let digits = decimal_text(config.round);
        String::from_str("Round ").concat(digits.as_str())
    }
}

/// Whether the tournament can be run: it has started and its mode, role
/// and announcement channel are configured.
pub fn prerequisite(config: &TournamentConfig) -> (r: bool)
    ensures
        r == (config.tournament && config.mode is Some && config.role is Some
            && config.channel is Some),
{
    config.tournament && config.mode.is_some() && config.role.is_some() && config.channel.is_some()
}

} // verus!
