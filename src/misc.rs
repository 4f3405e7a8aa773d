//! Presentation helpers: difficulty names, mode icons, result colours and
//! the library's error message type.
use vstd::prelude::*;
use vstd::string::StringExecFns;
use crate::text::same_text;

verus! {

/// The name of a difficulty level.
pub open spec fn difficulty_name(level: int) -> Seq<char> {
    if level == 0 {
        "Easy"@
    } else if level == 1 {
        "Normal"@
    } else if level == 2 {
        "Hard"@
    } else if level == 3 {
        "Expert"@
    } else if level == 4 {
        "Master"@
    } else if level == 5 {
        "Insane"@
    } else if level == 6 {
        "Insane II"@
    } else if level == 7 {
        "Insane III"@
    } else if level == 8 {
        "Insane IV"@
    } else if level == 9 {
        "Insane V"@
    } else if level == 10 {
        "Insane VI"@
    } else if level == 11 {
        "Insane VII"@
    } else if level == 12 {
        "Insane VIII"@
    } else if level == 13 {
        "Insane IX"@
    } else if level == 14 {
        "Insane X"@
    } else if level == 15 {
        "Insane XI"@
    } else if level == 16 {
        "Insane XII"@
    } else if level == 17 {
        "Insane XIII"@
    } else if level == 18 {
        "Insane XIV"@
    } else if level == 19 {
        "Insane XV"@
    } else if level == 20 {
        "Insane XVI"@
    } else {
        "Congratulations, either we were wrong, or you unlocked new difficulty"@
    }
}

fn difficulty_label(level: i32) -> (r: &'static str)
    ensures
        r@ == difficulty_name(level as int),
{
    match level {
        0 => "Easy",
        1 => "Normal",
        2 => "Hard",
        3 => "Expert",
        4 => "Master",
        5 => "Insane",
        6 => "Insane II",
        7 => "Insane III",
        8 => "Insane IV",
        9 => "Insane V",
        10 => "Insane VI",
        11 => "Insane VII",
        12 => "Insane VIII",
        13 => "Insane IX",
        14 => "Insane X",
        15 => "Insane XI",
        16 => "Insane XII",
        17 => "Insane XIII",
        18 => "Insane XIV",
        19 => "Insane XV",
        20 => "Insane XVI",
        _ => "Congratulations, either we were wrong, or you unlocked new difficulty",
    }
}

/// The textual name of a difficulty level; unknown levels get a
/// congratulation.
pub fn get_difficulty(num: i32) -> (r: String)
    ensures
        r@ == difficulty_name(num as int),
{
    String::from_str(difficulty_label(num))
}

/// The icon address of a game mode; unknown modes get a generic icon.
pub open spec fn mode_icon(event_name: Seq<char>) -> Seq<char> {
    if event_name == "brawlBall"@ {
        "https://cdn.brawlstats.com/event-icons/event_mode_gem_grab.png"@
    } else if event_name == "bounty"@ {
        "https://cdn.brawlstats.com/event-icons/event_mode_bounty.png"@
    } else if event_name == "gemGrab"@ {
        "https://cdn.brawlstats.com/event-icons/event_mode_gem_grab.png"@
    } else if event_name == "wipeout"@ {
        "https://cdn.brawlstats.com/event-icons/event_mode_wipeout.png"@
    } else if event_name == "heist"@ {
        "https://cdn.brawlstats.com/event-icons/event_mode_heist.png"@
    } else if event_name == "hotZone"@ {
        "https://cdn.brawlstats.com/event-icons/event_mode_hot_zone.png"@
    } else if event_name == "knockout"@ {
        "https://cdn.brawlstats.com/event-icons/event_mode_knockout.png"@
    } else if event_name == "siege"@ {
        "https://cdn.brawlstats.com/event-icons/event_mode_siege.png"@
    } else if event_name == "raid"@ {
        "https://cdn.brawlstats.com/event-icons/event_mode_raid.png"@
    } else if event_name == "soloShowdown"@ {
        "https://cdn.brawlstats.com/event-icons/event_mode_showdown.png"@
    } else if event_name == "duoShowdown"@ {
        "https://cdn.brawlstats.com/event-icons/event_mode_showdown.png"@
    } else {
        "https://cdn.discordapp.com/emojis/1133867752155779173.webp?size=4096&quality=lossless"@
    }
}

/// The icon address of the game mode `event_name`.
pub fn get_mode_icon(event_name: &str) -> (r: &'static str)
    ensures
        r@ == mode_icon(event_name@),
{
    if same_text(event_name, "brawlBall") {
        "https://cdn.brawlstats.com/event-icons/event_mode_gem_grab.png"
    } else if same_text(event_name, "bounty") {
        "https://cdn.brawlstats.com/event-icons/event_mode_bounty.png"
    } else if same_text(event_name, "gemGrab") {
        "https://cdn.brawlstats.com/event-icons/event_mode_gem_grab.png"
    } else if same_text(event_name, "wipeout") {
        "https://cdn.brawlstats.com/event-icons/event_mode_wipeout.png"
    } else if same_text(event_name, "heist") {
        "https://cdn.brawlstats.com/event-icons/event_mode_heist.png"
    } else if same_text(event_name, "hotZone") {
        "https://cdn.brawlstats.com/event-icons/event_mode_hot_zone.png"
    } else if same_text(event_name, "knockout") {
        "https://cdn.brawlstats.com/event-icons/event_mode_knockout.png"
    } else if same_text(event_name, "siege") {
        "https://cdn.brawlstats.com/event-icons/event_mode_siege.png"
    } else if same_text(event_name, "raid") {
        "https://cdn.brawlstats.com/event-icons/event_mode_raid.png"
    } else if same_text(event_name, "soloShowdown") {
        "https://cdn.brawlstats.com/event-icons/event_mode_showdown.png"
    } else if same_text(event_name, "duoShowdown") {
        "https://cdn.brawlstats.com/event-icons/event_mode_showdown.png"
    } else {
        "https://cdn.discordapp.com/emojis/1133867752155779173.webp?size=4096&quality=lossless"
    }
}

/// The embed colour of a battle result: light green for a victory, red
/// for a defeat, white for a draw, black otherwise.
pub open spec fn result_color(result: Seq<char>) -> u32 {
    if result == "victory"@ {
        0x90EE90
    } else if result == "defeat"@ {
        0xFF0000
    } else if result == "draw"@ {
        0xFFFFFF
    } else {
        0x000000
    }
}

/// The embed colour of a battle result.
pub fn get_color(result: &str) -> (r: u32)
    ensures
        r == result_color(result@),
{
    if same_text(result, "victory") {
        0x90EE90
    } else if same_text(result, "defeat") {
        0xFF0000
    } else if same_text(result, "draw") {
        0xFFFFFF
    } else {
        0x000000
    }
}

/// An error carrying a message.
#[derive(Clone, Debug)]
pub struct CustomError(pub String);

impl CustomError {
    /// The message prefixed with the error's kind.
    pub fn describe(&self) -> (r: String)
        ensures
            r@ == "CustomError: "@ + self.0@,
    {
        String::from_str("CustomError: ").concat(self.0.as_str())
    }
}

} // verus!
