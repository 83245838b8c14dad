//! Records of the osu! web API, as the card composer and the score filter
//! read them, and the failures that fetching them can end in.

use crate::text::{
    decimal_string, decimal_text, has_text, parse_i64, parsed_i64, split_words, words,
};
use vstd::prelude::*;
use vstd::string::*;

verus! {

/// One play on a beatmap.
#[derive(Debug)]
pub struct Score {
    pub classic_total_score: i64,
    /// The point total shown on the card.
    pub legacy_total_score: i64,
    /// Completion time, as `YYYY-MM-DDTHH:MM:SS...`.
    pub ended_at: String,
    /// Grade code: `XH`, `X`, `SH`, `S`, `A`, `B`, `C` or `D`.
    pub rank: String,
    pub statistics: Statistics,
    /// Modifiers in the order in which they were applied.
    pub mods: Vec<Mod>,
    pub max_combo: i32,
    /// Accuracy in hundredths of a percent: `9876` is 98.76 %.
    pub accuracy: u32,
    pub user: User,
}

/// Judgment tallies of a play. A tally that was not reported counts as zero.
#[derive(Debug)]
pub struct Statistics {
    pub ok: Option<i32>,
    pub miss: Option<i32>,
    pub meh: Option<i32>,
}

/// A modifier, named by its acronym.
#[derive(Debug)]
pub struct Mod {
    pub acronym: String,
}

/// The player behind a score.
#[derive(Debug)]
pub struct User {
    pub id: i64,
    pub username: String,
    pub avatar_url: String,
}

/// Display data of a beatmap.
#[derive(Debug, Clone)]
pub struct Beatmap {
    pub artist: String,
    pub title: String,
    pub version: String,
    pub beatmapset_id: String,
    pub beatmap_id: String,
    /// Highest reachable combo, already formatted.
    pub max_combo: String,
    /// Encoded cover artwork; empty when none was fetched.
    pub cover: Vec<u8>,
}

/// The beatmap of a play, by its number.
#[derive(Debug, Clone)]
pub struct RecetScoreBeatmap {
    pub id: i64,
}

/// The latest play of a user, reduced to the beatmap it was set on.
#[derive(Debug, Clone)]
pub struct RecentScore {
    pub beatmap: RecetScoreBeatmap,
}

/// Why a request to the API produced nothing usable.
#[derive(Debug)]
pub enum OsuApiError {
    RequestFailed(String),
    ParseError(String),
    NotFound(String),
    MissingEnvVar(String),
    ImageError(String),
}

/// The acronyms of `mods` written one after another, with nothing between.
pub open spec fn mods_text(mods: Seq<Mod>) -> Seq<char>
    decreases mods.len(),
{
    if mods.len() == 0 {
        Seq::empty()
    } else {
        mods_text(mods.drop_last()) + mods.last().acronym@
    }
}

impl Score {
    /// The modifiers of this score as one text, in their stored order. The
    /// classic marker is kept.
    pub fn mods_string(&self) -> (r: String)
        ensures
            r@ == mods_text(self.mods@),
    {
        let mut out = String::new();
        let mut i: usize = 0;
        while i < self.mods.len()
            invariant
                i <= self.mods.len(),
                out@ == mods_text(self.mods@.take(i as int)),
            decreases self.mods.len() - i,
        {
            proof {
                assert(self.mods@.take(i + 1).drop_last() =~= self.mods@.take(i as int));
            }
            out.append(self.mods[i].acronym.as_str());
            i = i + 1;
        }
        assert(self.mods@.take(i as int) =~= self.mods@);
        out
    }
}

impl Statistics {
    /// The tally of "ok" judgments, zero when it was not reported.
    pub fn ok_count(&self) -> (r: i32)
        ensures
            r == tally(self.ok),
    {
        match self.ok {
            Some(n) => n,
            None => 0,
        }
    }

    /// The tally of "meh" judgments, zero when it was not reported.
    pub fn meh_count(&self) -> (r: i32)
        ensures
            r == tally(self.meh),
    {
        match self.meh {
            Some(n) => n,
            None => 0,
        }
    }

    /// The tally of misses, zero when it was not reported.
    pub fn miss_count(&self) -> (r: i32)
        ensures
            r == tally(self.miss),
    {
        match self.miss {
            Some(n) => n,
            None => 0,
        }
    }
}

/// The count that a tally stands for.
pub open spec fn tally(reported: Option<i32>) -> i32 {
    match reported {
        Some(n) => n,
        None => 0,
    }
}

impl OsuApiError {
    /// The text that describes this failure.
    pub open spec fn description(self) -> Seq<char> {
        match self {
            OsuApiError::RequestFailed(msg) => "Request failed: "@ + msg@,
            OsuApiError::ParseError(msg) => "Parse error: "@ + msg@,
            OsuApiError::NotFound(msg) => "Not found: "@ + msg@,
            OsuApiError::MissingEnvVar(msg) => "Missing environment variable: "@ + msg@,
            OsuApiError::ImageError(msg) => "Image error: "@ + msg@,
        }
    }

    /// Describes this failure in one line: what kind it is, then its detail.
    pub fn describe(&self) -> (r: String)
        ensures
            r@ == self.description(),
    {
        let (head, detail) = match self {
            OsuApiError::RequestFailed(msg) => ("Request failed: ", msg),
            OsuApiError::ParseError(msg) => ("Parse error: ", msg),
            OsuApiError::NotFound(msg) => ("Not found: ", msg),
            OsuApiError::MissingEnvVar(msg) => ("Missing environment variable: ", msg),
            OsuApiError::ImageError(msg) => ("Image error: ", msg),
        };
        let mut out = String::from_str(head);
        out.append(detail.as_str());
        out
    }
}

/// Whether the account behind the API shows legacy scores only. The value is
/// what the account was last known to be set to.
#[derive(Debug)]
pub struct LegacyScoreOnly {
    enabled: bool,
}

impl View for LegacyScoreOnly {
    type V = bool;

    closed spec fn view(&self) -> bool {
        self.enabled
    }
}

impl LegacyScoreOnly {
    /// The state of an account that is known to be set to `enabled`.
    pub fn new(enabled: bool) -> (state: LegacyScoreOnly)
        ensures
            state@ == enabled,
    {
        LegacyScoreOnly { enabled }
    }

    /// Records that the account was set to `enabled`.
    pub fn set(&mut self, enabled: bool)
        ensures
            final(self)@ == enabled,
    {
        self.enabled = enabled;
    }
}

/// Whether a message carries the flag `-l`, which asks for lazer scores.
pub open spec fn asks_for_lazer(msg: Seq<char>) -> bool {
    words(msg).contains(seq!['-', 'l'])
}

/// The setting that the account has to be changed to before a message is
/// answered, if any: legacy scores only are wanted exactly when the message
/// does not carry `-l`, and nothing changes where the account is set so
/// already.
pub open spec fn legacy_change(enabled: bool, msg: Seq<char>) -> Option<bool> {
    if asks_for_lazer(msg) == enabled {
        Some(!asks_for_lazer(msg))
    } else {
        None
    }
}

/// Whether the account is set to show legacy scores only.
pub fn get_legacy_score_only_status(state: &LegacyScoreOnly) -> (enabled: bool)
    ensures
        enabled == state@,
{
    state.enabled
}

/// Decides whether the account's setting has to change before `msg` is
/// answered, and to what. The state itself changes only when the caller has
/// changed the account and calls `set`.
pub fn handle_legacy_score_only(state: &LegacyScoreOnly, msg: &str) -> (change: Option<bool>)
    ensures
        change == legacy_change(state@, msg@),
{
    proof {
        reveal_strlit("-l");
        assert("-l"@ =~= seq!['-', 'l']);
    }
    let msg_args = split_words(msg);
    let has_lazer_flag = has_text(&msg_args, "-l");
    if has_lazer_flag == state.enabled {
        Some(!has_lazer_flag)
    } else {
        None
    }
}

/// The address of the country leaderboard of a beatmap.
pub open spec fn country_scores_address(beatmap_id: Seq<char>) -> Seq<char> {
    "https://osu.ppy.sh/beatmaps/"@ + beatmap_id + "/scores?mode=osu&type=country&limit=99"@
}

/// The address of a beatmap's data, asked for with an API key.
pub open spec fn beatmap_address(api_key: Seq<char>, beatmap_id: Seq<char>) -> Seq<char> {
    "https://osu.ppy.sh/api/get_beatmaps?k="@ + api_key + "&b="@ + beatmap_id + "&m=0"@
}

/// The address of the cover artwork of a beatmap set.
pub open spec fn cover_address(beatmapset_id: Seq<char>) -> Seq<char> {
    "https://assets.ppy.sh/beatmaps/"@ + beatmapset_id + "/covers/cover.jpg"@
}

/// The address of a user's data.
pub open spec fn user_address(user: Seq<char>) -> Seq<char> {
    "https://osu.ppy.sh/api/v2/users/"@ + user
}

/// The address of the latest play of a user, failed plays included.
pub open spec fn recent_address(user_id: Seq<char>) -> Seq<char> {
    "https://osu.ppy.sh/api/v2/users/"@ + user_id + "/scores/recent?limit=1&include_fails=1"@
}

/// The address that sets whether the account shows legacy scores only.
pub open spec fn legacy_score_only_address(value: bool) -> Seq<char> {
    "https://osu.ppy.sh/home/account/options?user_profile_customization[legacy_score_only]="@ + (
    if value {
        "1"@
    } else {
        "0"@
    })
}

fn between(head: &str, middle: &str, tail: &str) -> (r: String)
    ensures
        r@ == head@ + middle@ + tail@,
{
    let mut out = String::from_str(head);
    out.append(middle);
    out.append(tail);
    out
}

/// Writes the address of the country leaderboard of a beatmap.
pub fn country_scores_url(beatmap_id: &str) -> (r: String)
    ensures
        r@ == country_scores_address(beatmap_id@),
{
    between("https://osu.ppy.sh/beatmaps/", beatmap_id, "/scores?mode=osu&type=country&limit=99")
}

/// Writes the address of a beatmap's data.
pub fn beatmap_url(api_key: &str, beatmap_id: &str) -> (r: String)
    ensures
        r@ == beatmap_address(api_key@, beatmap_id@),
{
    let mut out = between("https://osu.ppy.sh/api/get_beatmaps?k=", api_key, "&b=");
    out.append(beatmap_id);
    out.append("&m=0");
    out
}

/// Writes the address of the cover artwork of a beatmap set.
pub fn cover_url(beatmapset_id: &str) -> (r: String)
    ensures
        r@ == cover_address(beatmapset_id@),
{
    between("https://assets.ppy.sh/beatmaps/", beatmapset_id, "/covers/cover.jpg")
}

/// Writes the address of a user's data.
pub fn user_url(user: &str) -> (r: String)
    ensures
        r@ == user_address(user@),
{
    let mut out = String::from_str("https://osu.ppy.sh/api/v2/users/");
    out.append(user);
    out
}

/// Writes the address of the latest play of a user.
pub fn recent_scores_url(user_id: &str) -> (r: String)
    ensures
        r@ == recent_address(user_id@),
{
    between(
        "https://osu.ppy.sh/api/v2/users/",
        user_id,
        "/scores/recent?limit=1&include_fails=1",
    )
}

/// Writes the address that sets whether the account shows legacy scores
/// only.
pub fn legacy_score_only_url(value: bool) -> (r: String)
    ensures
        r@ == legacy_score_only_address(value),
{
    let mut out = String::from_str(
        "https://osu.ppy.sh/home/account/options?user_profile_customization[legacy_score_only]=",
    );
    if value {
        out.append("1");
    } else {
        out.append("0");
    }
    out
}

/// Takes a user given as a number for an account number: any text that
/// reads as a 64-bit integer, a sign and leading zeros included. The number
/// is handed back in plain decimal; any other text is a name that has to be
/// looked up.
pub fn numeric_user_id(user: &str) -> (id: Option<String>)
    ensures
        match parsed_i64(user@) {
            Some(n) => id matches Some(text) && text@ == decimal_text(n as int),
            None => id is None,
        },
{
    match parse_i64(user) {
        Some(n) => Some(decimal_string(n)),
        None => None,
    }
}

/// The scores of a country leaderboard, which has to hold one at least.
pub fn require_scores(scores: Vec<Score>) -> (r: Result<Vec<Score>, OsuApiError>)
    ensures
        scores@.len() > 0 ==> (r matches Ok(kept) && kept@ == scores@),
        scores@.len() == 0 ==> (r matches Err(OsuApiError::NotFound(detail)) && detail@
            == "No country scores found for this beatmap"@),
{
    if scores.len() == 0 {
        Err(OsuApiError::NotFound(String::from_str("No country scores found for this beatmap")))
    } else {
        Ok(scores)
    }
}

/// The first beatmap of an answer, which has to hold one.
pub fn first_beatmap(beatmaps: Vec<Beatmap>, beatmap_id: &str) -> (r: Result<Beatmap, OsuApiError>)
    ensures
        beatmaps@.len() > 0 ==> (r matches Ok(beatmap) && beatmap == beatmaps@[0]),
        beatmaps@.len() == 0 ==> (r matches Err(OsuApiError::NotFound(detail)) && detail@
            == "Beatmap "@ + beatmap_id@ + " not found"@),
{
    let mut beatmaps = beatmaps;
    if beatmaps.len() == 0 {
        Err(OsuApiError::NotFound(between("Beatmap ", beatmap_id, " not found")))
    } else {
        Ok(beatmaps.remove(0))
    }
}

/// The latest play of a user, who has to have one.
pub fn first_recent(scores: Vec<RecentScore>, user: &str) -> (r: Result<RecentScore, OsuApiError>)
    ensures
        scores@.len() > 0 ==> (r matches Ok(recent) && recent == scores@[0]),
        scores@.len() == 0 ==> (r matches Err(OsuApiError::NotFound(detail)) && detail@
            == "No recent scores for user "@ + user@),
{
    let mut scores = scores;
    if scores.len() == 0 {
        let mut detail = String::from_str("No recent scores for user ");
        detail.append(user);
        Err(OsuApiError::NotFound(detail))
    } else {
        Ok(scores.remove(0))
    }
}

} // verus!
