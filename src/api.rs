//! Endpoints of the game's REST API and the classification of its answers.
use vstd::prelude::*;
use vstd::string::StrSliceExecFns;
use vstd::string::StringExecFns;
use crate::text::same_text;

verus! {

/// What a request to the game's API gave: a decoded body, or the status of
/// a failed request.
#[derive(Clone, Debug)]
pub enum APIResult<T> {
    Successful(T),
    NotFound(u16),
    APIError(u16),
}

/// The profile endpoint for a tag written without its leading `#`.
pub open spec fn player_url(tag: Seq<char>) -> Seq<char> {
    "https://api.brawlstars.com/v1/players/%23"@ + tag
}

/// The battle-log endpoint for a tag written without its leading `#`.
pub open spec fn battle_log_url(tag: Seq<char>) -> Seq<char> {
    "https://api.brawlstars.com/v1/players/%23"@ + tag + "/battlelog"@
}

/// A tag without its leading `#`, if it has one.
pub open spec fn bare_tag(tag: Seq<char>) -> Seq<char> {
    if tag.len() > 0 && tag[0] == '#' {
        tag.drop_first()
    } else {
        tag
    }
}

/// The endpoint that a request option names for a tag, if the option is
/// known ("player" or "battle_log").
pub open spec fn endpoint_of(option: Seq<char>, tag: Seq<char>) -> Option<Seq<char>> {
    if option == "player"@ {
        Some(player_url(bare_tag(tag)))
    } else if option == "battle_log"@ {
        Some(battle_log_url(bare_tag(tag)))
    } else {
        None
    }
}

/// The profile endpoint for `player_tag`.
pub fn get_player(player_tag: &str) -> (r: String)
    ensures
        r@ == player_url(player_tag@),
{
    String::from_str("https://api.brawlstars.com/v1/players/%23").concat(player_tag)
}

/// The battle-log endpoint for `player_tag`.
pub fn get_battle_log(player_tag: &str) -> (r: String)
    ensures
        r@ == battle_log_url(player_tag@),
{
    String::from_str("https://api.brawlstars.com/v1/players/%23").concat(player_tag).concat(
        "/battlelog",
    )
}

/// Removes a leading `#` from a tag.
pub fn strip_hash(tag: &str) -> (r: &str)
    ensures
        r@ == bare_tag(tag@),
{
    let n = tag.unicode_len();
    if n > 0 && tag.get_char(0) == '#' {
        tag.substring_char(1, n)
    } else {
        tag
    }
}

/// The endpoint for a request option and a tag, or `None` for an unknown
/// option.
pub fn endpoint(option: &str, tag: &str) -> (r: Option<String>)
    ensures
        match r {
            Some(url) => endpoint_of(option@, tag@) == Some(url@),
            None => endpoint_of(option@, tag@) is None,
        },
{
    let proper_tag = strip_hash(tag);
    if same_text(option, "player") {
        Some(get_player(proper_tag))
    } else if same_text(option, "battle_log") {
        Some(get_battle_log(proper_tag))
    } else {
        None
    }
}

/// The answer for an HTTP status and, when the body could be decoded, that
/// body: a success status (2xx) with a body is `Successful`, a client error
/// (4xx) is `NotFound`, anything else is `APIError`.
pub fn classify_response<T>(status: u16, body: Option<T>) -> (r: APIResult<T>)
    ensures
        200 <= status < 300 && body is Some ==> r == APIResult::Successful(body->0),
        200 <= status < 300 && body is None ==> r == APIResult::<T>::APIError(status),
        400 <= status < 500 ==> r == APIResult::<T>::NotFound(status),
        !(200 <= status < 300) && !(400 <= status < 500) ==> r == APIResult::<T>::APIError(
            status,
        ),
{
    if 200 <= status && status < 300 {
        match body {
            Some(b) => APIResult::Successful(b),
            None => APIResult::APIError(status),
        }
    } else if 400 <= status && status < 500 {
        APIResult::NotFound(status)
    } else {
        APIResult::APIError(status)
    }
}

} // verus!
