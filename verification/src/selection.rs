//! Choosing the rows of a card: the scores that match a requested modifier
//! filter, cut to the number of rows that a card shows.

use crate::mods::{
    filter, get_mods_without_cl, matching, normalized, unknown_tokens, validate, ModSet,
};
use crate::osu_api::Score;
use crate::text::{same_text, split, split_text, texts, to_uppercase, uppercase_of};
use vstd::prelude::*;
use vstd::string::*;

verus! {

/// The most rows that a card shows.
pub const ROW_CAP: usize = 7;

/// Why a filter request selected no rows.
#[derive(Debug)]
pub enum SelectError {
    /// The request names tokens outside the known vocabulary; they are listed
    /// in order of first appearance.
    InvalidMods(Vec<String>),
    /// The request is valid, but no score was played with exactly these
    /// modifiers.
    NoMatches,
}

/// What a selection comes to.
pub enum Selection {
    Rows(Seq<Score>),
    InvalidMods(Seq<Seq<char>>),
    NoMatches,
}

/// The first `ROW_CAP` scores, or all of them where there are fewer.
pub open spec fn capped(scores: Seq<Score>) -> Seq<Score> {
    if scores.len() > ROW_CAP {
        scores.take(ROW_CAP as int)
    } else {
        scores
    }
}

/// The outcome of selecting from `scores` by the modifier text `mods`.
///
/// An empty text asks for no filtering. Otherwise the text is read as a
/// modifier set; unknown tokens reject the request before any score is
/// looked at, and a valid request that matches nothing is its own outcome.
/// The cap is applied after filtering.
pub open spec fn selected(scores: Seq<Score>, mods: Seq<char>) -> Selection {
    if mods.len() == 0 {
        Selection::Rows(capped(scores))
    } else if unknown_tokens(normalized(mods)).len() > 0 {
        Selection::InvalidMods(unknown_tokens(normalized(mods)))
    } else if matching(scores, normalized(mods).to_set()).len() == 0 {
        Selection::NoMatches
    } else {
        Selection::Rows(capped(matching(scores, normalized(mods).to_set())))
    }
}

/// The outcome that a result of selecting stands for.
pub open spec fn outcome(r: Result<Vec<Score>, SelectError>) -> Selection {
    match r {
        Ok(rows) => Selection::Rows(rows@),
        Err(SelectError::InvalidMods(invalid)) => Selection::InvalidMods(texts(invalid@)),
        Err(SelectError::NoMatches) => Selection::NoMatches,
    }
}

/// Cuts `scores` to the first `ROW_CAP` entries.
pub fn cap_rows(scores: Vec<Score>) -> (rows: Vec<Score>)
    ensures
        rows@ == capped(scores@),
        rows@.len() <= ROW_CAP,
{
    let mut rows = scores;
    rows.truncate(ROW_CAP);
    assert(rows@ =~= capped(scores@));
    rows
}

/// Selects the rows of a card by a modifier text, read chunk by chunk in any
/// letter case. See `selected` for the outcomes.
pub fn select_with(scores: Vec<Score>, mods: &str) -> (r: Result<Vec<Score>, SelectError>)
    ensures
        outcome(r) == selected(scores@, mods@),
        r matches Ok(rows) ==> rows@.len() <= ROW_CAP,
{
    if mods.unicode_len() == 0 {
        return Ok(cap_rows(scores));
    }
    let requested: ModSet = get_mods_without_cl(mods);
    let invalid = validate(&requested);
    if invalid.len() > 0 {
        assert(texts(invalid@).len() == invalid@.len());
        return Err(SelectError::InvalidMods(invalid));
    }
    assert(texts(invalid@).len() == invalid@.len());
    let kept = filter(scores, &requested);
    if kept.len() == 0 {
        return Err(SelectError::NoMatches);
    }
    Ok(cap_rows(kept))
}

/// Selects the rows of a card by a filter as a player typed it: the text is
/// put in upper case as a whole, which may change its length, and then read
/// by `select_with`.
pub fn select_scores(scores: Vec<Score>, request: &str) -> (r: Result<Vec<Score>, SelectError>)
    ensures
        outcome(r) == selected(scores@, uppercase_of(request@)),
        r matches Ok(rows) ==> rows@.len() <= ROW_CAP,
{
    let mods = to_uppercase(request);
    select_with(scores, mods.as_str())
}

/// The piece that follows the first flag `-m` among `pieces[k..]`, where that
/// flag has a piece after it; the empty text where there is none.
pub open spec fn flag_argument(pieces: Seq<Seq<char>>, k: int) -> Seq<char>
    decreases pieces.len() - k,
{
    if k < 0 || k + 1 >= pieces.len() {
        Seq::empty()
    } else if pieces[k] == seq!['-', 'm'] {
        pieces[k + 1]
    } else {
        flag_argument(pieces, k + 1)
    }
}

/// The modifier filter that a message asks for: what stands between single
/// spaces after its first `-m`, or the empty text.
pub open spec fn requested_filter(content: Seq<char>) -> Seq<char> {
    flag_argument(split(content, ' '), 0)
}

/// Reads the modifier filter out of a message, as the player typed it.
pub fn filter_request(content: &str) -> (request: String)
    ensures
        request@ == requested_filter(content@),
{
    let pieces = split_text(content, ' ');
    let mut i: usize = 0;
    while pieces.len() - i > 1
        invariant
            i <= pieces.len(),
            requested_filter(content@) == flag_argument(texts(pieces@), i as int),
            texts(pieces@) == split(content@, ' '),
        decreases pieces.len() - i,
    {
        proof {
            reveal_strlit("-m");
            assert("-m"@ =~= seq!['-', 'm']);
        }
        assert(texts(pieces@).len() == pieces@.len());
        assert(texts(pieces@)[i as int] == pieces@[i as int]@);
        assert(texts(pieces@)[i + 1] == pieces@[i + 1]@);
        if same_text(pieces[i].as_str(), "-m") {
            return String::from_str(pieces[i + 1].as_str());
        }
        i = i + 1;
    }
    assert(texts(pieces@).len() == pieces@.len());
    String::new()
}

/// Selects the rows of a card for a message: the filter after `-m`, if the
/// message has one, is read in any letter case; without one the scores are
/// only cut to the cap.
pub fn select_for_message(scores: Vec<Score>, content: &str) -> (r: Result<
    Vec<Score>,
    SelectError,
>)
    ensures
        outcome(r) == selected(scores@, uppercase_of(requested_filter(content@))),
        r matches Ok(rows) ==> rows@.len() <= ROW_CAP,
{
    let request = filter_request(content);
    select_scores(scores, request.as_str())
}

} // verus!
