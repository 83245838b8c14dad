//! The texts with which the bot answers.

use crate::command::{Command, CommandView};
use crate::database::UserError;
use crate::osu_api::{Beatmap, OsuApiError};
use crate::selection::SelectError;
use crate::text::texts;
use vstd::prelude::*;
use vstd::string::*;

verus! {

/// Whether `t` holds ASCII letters and digits only. Such a text is written
/// between quotes as it stands.
pub open spec fn is_plain(t: Seq<char>) -> bool {
    forall|i: int|
        0 <= i < t.len() ==> {
            let c = (#[trigger] t[i]) as u32;
            48 <= c <= 57 || 65 <= c <= 90 || 97 <= c <= 122
        }
}

/// The items between double quotes, with `", "` between them.
pub open spec fn quoted_items(items: Seq<Seq<char>>) -> Seq<char>
    decreases items.len(),
{
    if items.len() == 0 {
        Seq::empty()
    } else if items.len() == 1 {
        seq!['"'] + items[0] + seq!['"']
    } else {
        quoted_items(items.drop_last()) + seq![',', ' ', '"'] + items.last() + seq!['"']
    }
}

/// The list as `Debug` formatting writes it where an item holds anything
/// but ASCII letters and digits: in square brackets, each item quoted and
/// escaped, with `", "` between them.
pub uninterp spec fn escaped_list(items: Seq<Seq<char>>) -> Seq<char>;

/// The list of `items` as `Debug` formatting writes it: in square brackets,
/// each item between double quotes, with `", "` between them. Items of ASCII
/// letters and digits are written as they stand.
pub open spec fn debug_list(items: Seq<Seq<char>>) -> Seq<char> {
    if forall|i: int| 0 <= i < items.len() ==> is_plain(#[trigger] items[i]) {
        seq!['['] + quoted_items(items) + seq![']']
    } else {
        escaped_list(items)
    }
}

/// `Debug` formatting of a vector of strings, from the standard library. The
/// contract says what it writes where no item needs escaping, and names what
/// it writes otherwise: the same items always give the same text.
#[verifier::external_body]
fn debug_list_string(items: &Vec<String>) -> (r: String)
    ensures
        r@ == debug_list(texts(items@)),
        !(forall|i: int| 0 <= i < items@.len() ==> is_plain(#[trigger] texts(items@)[i])) ==> r@
            == escaped_list(texts(items@)),
{
    format!("{:?}", items)
}

/// The answer to a failure that nothing more can be said about.
pub open spec fn unknown_failure() -> Seq<char> {
    "An unknown error occured. Please try again later."@
}

/// The answer to a failed fetch of the scores of a beatmap.
pub open spec fn scores_failure(error: OsuApiError) -> Seq<char> {
    match error {
        OsuApiError::RequestFailed(_) => "Failed to fetch scores. Check if the beatmap ID is correct."@,
        OsuApiError::NotFound(detail) => detail@,
        _ => unknown_failure(),
    }
}

/// The answer to a failed fetch of a beatmap's data.
pub open spec fn beatmap_failure(error: OsuApiError) -> Seq<char> {
    match error {
        OsuApiError::RequestFailed(_) => "Failed to fetch beatmap info. Check if the beatmap ID is correct."@,
        _ => unknown_failure(),
    }
}

/// The answer to a failed fetch of a user's latest play.
pub open spec fn recent_failure(error: OsuApiError) -> Seq<char> {
    match error {
        OsuApiError::NotFound(detail) => detail@,
        _ => unknown_failure(),
    }
}

/// The answer to a failed lookup of the sender's connected account.
pub open spec fn lookup_failure(error: UserError) -> Seq<char> {
    match error {
        UserError::UserNotFound => "Failed to get user. Did you connect your osu! account with `!connect {osu_id}`?"@,
        UserError::DatabaseError(detail) => detail@,
    }
}

/// The answer to a filter that selected no rows.
pub open spec fn selection_failure(invalid: Option<Seq<Seq<char>>>) -> Seq<char> {
    match invalid {
        Some(tokens) => "Invalid mods "@ + debug_list(tokens),
        None => "No scores found with the specified mods"@,
    }
}

/// The answer to a failed attempt to connect an account, by the code that
/// the database gave: code 1555 says that the sender is connected already.
pub open spec fn connect_failure(code: Option<Seq<char>>) -> Seq<char> {
    if code == Some("1555"@) {
        "This Discord account is already connected to an osu! account"@
    } else {
        unknown_failure()
    }
}

/// The line above a card: artist, title and difficulty of the beatmap, as a
/// link to its page.
pub open spec fn caption(beatmap: Beatmap) -> Seq<char> {
    "[**"@ + beatmap.artist@ + " - "@ + beatmap.title@ + " ["@ + beatmap.version@
        + "]**](<https://osu.ppy.sh/beatmapsets/"@ + beatmap.beatmapset_id@ + "#osu/"@
        + beatmap.beatmap_id@ + ">)\n"@
}

/// Answers a failed fetch of the scores of a beatmap.
pub fn scores_fetch_reply(error: &OsuApiError) -> (r: String)
    ensures
        r@ == scores_failure(*error),
{
    match error {
        OsuApiError::RequestFailed(_) => String::from_str(
            "Failed to fetch scores. Check if the beatmap ID is correct.",
        ),
        OsuApiError::NotFound(detail) => String::from_str(detail.as_str()),
        _ => String::from_str("An unknown error occured. Please try again later."),
    }
}

/// Answers a failed fetch of a beatmap's data.
pub fn beatmap_fetch_reply(error: &OsuApiError) -> (r: String)
    ensures
        r@ == beatmap_failure(*error),
{
    match error {
        OsuApiError::RequestFailed(_) => String::from_str(
            "Failed to fetch beatmap info. Check if the beatmap ID is correct.",
        ),
        _ => String::from_str("An unknown error occured. Please try again later."),
    }
}

/// Answers a failed fetch of a user's latest play.
pub fn recent_fetch_reply(error: &OsuApiError) -> (r: String)
    ensures
        r@ == recent_failure(*error),
{
    match error {
        OsuApiError::NotFound(detail) => String::from_str(detail.as_str()),
        _ => String::from_str("An unknown error occured. Please try again later."),
    }
}

/// Answers a failed fetch of the avatars, or any failure without a cause
/// that the sender could act on.
pub fn unknown_failure_reply() -> (r: String)
    ensures
        r@ == unknown_failure(),
{
    String::from_str("An unknown error occured. Please try again later.")
}

/// Answers a failed lookup of the sender's connected account.
pub fn user_lookup_reply(error: &UserError) -> (r: String)
    ensures
        r@ == lookup_failure(*error),
{
    match error {
        UserError::UserNotFound => String::from_str(
            "Failed to get user. Did you connect your osu! account with `!connect {osu_id}`?",
        ),
        UserError::DatabaseError(detail) => String::from_str(detail.as_str()),
    }
}

/// Answers a filter that selected no rows: unknown tokens are listed, and a
/// valid filter without a match is told apart from them.
pub fn selection_reply(error: &SelectError) -> (r: String)
    ensures
        r@ == selection_failure(
            match *error {
                SelectError::InvalidMods(invalid) => Some(texts(invalid@)),
                SelectError::NoMatches => None,
            },
        ),
{
    match error {
        SelectError::InvalidMods(invalid) => {
            let mut out = String::from_str("Invalid mods ");
            let list = debug_list_string(invalid);
            out.append(list.as_str());
            out
        },
        SelectError::NoMatches => String::from_str("No scores found with the specified mods"),
    }
}

/// Answers a failed attempt to connect an account.
pub fn connect_failure_reply(code: Option<&str>) -> (r: String)
    ensures
        r@ == connect_failure(
            match code {
                Some(c) => Some(c@),
                None => None,
            },
        ),
{
    match code {
        Some(c) => {
            if crate::text::same_text(c, "1555") {
                String::from_str("This Discord account is already connected to an osu! account")
            } else {
                String::from_str("An unknown error occured. Please try again later.")
            }
        },
        None => String::from_str("An unknown error occured. Please try again later."),
    }
}

/// Writes the line above a card.
pub fn card_caption(beatmap: &Beatmap) -> (r: String)
    ensures
        r@ == caption(*beatmap),
{
    let mut out = String::from_str("[**");
    out.append(beatmap.artist.as_str());
    out.append(" - ");
    out.append(beatmap.title.as_str());
    out.append(" [");
    out.append(beatmap.version.as_str());
    out.append("]**](<https://osu.ppy.sh/beatmapsets/");
    out.append(beatmap.beatmapset_id.as_str());
    out.append("#osu/");
    out.append(beatmap.beatmap_id.as_str());
    out.append(">)\n");
    out
}

/// The answer to `!cs` without a beatmap.
pub fn country_scores_usage() -> (r: String)
    ensures
        r@ == "Usage: !cs <beatmap_id>"@,
{
    String::from_str("Usage: !cs <beatmap_id>")
}

/// The answer to `!connect` without an account number.
pub fn connect_usage() -> (r: String)
    ensures
        r@ == "Usage: !connect <osu_id>"@,
{
    String::from_str("Usage: !connect <osu_id>")
}

/// The answer to `!connect` with something that is no account number.
pub fn invalid_osu_id_reply() -> (r: String)
    ensures
        r@ == "Invalid osu! ID. Please provide a valid number."@,
{
    String::from_str("Invalid osu! ID. Please provide a valid number.")
}

/// The answer to an account that was connected.
pub fn connected_reply() -> (r: String)
    ensures
        r@ == "Successfully connected your osu! account"@,
{
    String::from_str("Successfully connected your osu! account")
}

/// The answer that a command gets at once, without anything being fetched
/// or stored: the usage of a command that lacks its argument, or the
/// rejection of an account number that is none.
pub open spec fn immediate_answer(command: CommandView) -> Option<Seq<char>> {
    match command {
        CommandView::CountryScoresUsage => Some("Usage: !cs <beatmap_id>"@),
        CommandView::ConnectUsage => Some("Usage: !connect <osu_id>"@),
        CommandView::ConnectInvalid => Some("Invalid osu! ID. Please provide a valid number."@),
        _ => None,
    }
}

/// Answers a command that needs no work, if it is one.
pub fn immediate_reply(command: &Command) -> (r: Option<String>)
    ensures
        match immediate_answer(command@) {
            Some(text) => r matches Some(reply) && reply@ == text,
            None => r is None,
        },
{
    match command {
        Command::CountryScoresUsage => Some(country_scores_usage()),
        Command::ConnectUsage => Some(connect_usage()),
        Command::ConnectInvalid => Some(invalid_osu_id_reply()),
        _ => None,
    }
}

} // verus!
