use leaderboard_card::command::{
    command_from_words, has_prefix, parse_command, recent_user_argument, Command,
};
use leaderboard_card::database::UserError;
use leaderboard_card::osu_api::{
    beatmap_url, country_scores_url, cover_url, first_beatmap, first_recent,
    get_legacy_score_only_status, handle_legacy_score_only, legacy_score_only_url,
    numeric_user_id, recent_scores_url, require_scores, user_url, Beatmap, LegacyScoreOnly, Mod,
    OsuApiError, RecentScore, RecetScoreBeatmap, Score, Statistics, User,
};
use leaderboard_card::replies::{
    beatmap_fetch_reply, card_caption, connect_failure_reply, connect_usage, connected_reply,
    country_scores_usage, immediate_reply, invalid_osu_id_reply, recent_fetch_reply,
    scores_fetch_reply, selection_reply, unknown_failure_reply, user_lookup_reply,
};
use leaderboard_card::selection::{filter_request, select_for_message, SelectError};
use leaderboard_card::text::parse_i64;

const UNKNOWN: &str = "An unknown error occured. Please try again later.";

fn score(id: i64, mods: &[&str]) -> Score {
    Score {
        classic_total_score: 0,
        legacy_total_score: 10,
        ended_at: String::new(),
        rank: String::from("A"),
        statistics: Statistics { ok: None, miss: None, meh: None },
        mods: mods.iter().map(|m| Mod { acronym: String::from(*m) }).collect(),
        max_combo: 1,
        accuracy: 0,
        user: User { id, username: String::new(), avatar_url: String::new() },
    }
}

fn beatmap(id: &str) -> Beatmap {
    Beatmap {
        artist: String::from("Artist"),
        title: String::from("Title"),
        version: String::from("Insane"),
        beatmapset_id: String::from("11"),
        beatmap_id: String::from(id),
        max_combo: String::from("400"),
        cover: Vec::new(),
    }
}

#[test]
fn legacy_status_is_what_was_set() {
    let mut state = LegacyScoreOnly::new(true);
    assert!(get_legacy_score_only_status(&state));
    state.set(false);
    assert!(!get_legacy_score_only_status(&state));
    state.set(true);
    assert!(get_legacy_score_only_status(&state));
    assert!(!get_legacy_score_only_status(&LegacyScoreOnly::new(false)));
}

#[test]
fn legacy_setting_changes_only_when_the_message_asks_for_the_other() {
    let legacy = LegacyScoreOnly::new(true);
    let lazer = LegacyScoreOnly::new(false);
    assert_eq!(handle_legacy_score_only(&legacy, "!cs 123"), None);
    assert_eq!(handle_legacy_score_only(&legacy, "!cs -l 123"), Some(false));
    assert_eq!(handle_legacy_score_only(&lazer, "!cs -l 123"), None);
    assert_eq!(handle_legacy_score_only(&lazer, "!cs 123"), Some(true));
    assert!(get_legacy_score_only_status(&legacy));
}

#[test]
fn lazer_flag_is_a_word_of_its_own() {
    let legacy = LegacyScoreOnly::new(true);
    assert_eq!(handle_legacy_score_only(&legacy, "!cs\t-l\n123"), Some(false));
    assert_eq!(handle_legacy_score_only(&legacy, "!cs 123 -l"), Some(false));
    assert_eq!(handle_legacy_score_only(&legacy, "!cs -lx 123"), None);
    assert_eq!(handle_legacy_score_only(&legacy, "!cs x-l 123"), None);
    assert_eq!(handle_legacy_score_only(&legacy, "!cs -L 123"), None);
    assert_eq!(handle_legacy_score_only(&legacy, ""), None);
}

#[test]
fn api_error_message_names_kind_and_detail() {
    assert_eq!(OsuApiError::RequestFailed(String::from("x")).describe(), "Request failed: x");
    assert_eq!(OsuApiError::ParseError(String::from("y")).describe(), "Parse error: y");
    assert_eq!(OsuApiError::NotFound(String::from("z")).describe(), "Not found: z");
    assert_eq!(
        OsuApiError::MissingEnvVar(String::from("CLIENT_ID")).describe(),
        "Missing environment variable: CLIENT_ID"
    );
    assert_eq!(OsuApiError::ImageError(String::new()).describe(), "Image error: ");
}

#[test]
fn addresses_of_the_api() {
    assert_eq!(
        country_scores_url("123"),
        "https://osu.ppy.sh/beatmaps/123/scores?mode=osu&type=country&limit=99"
    );
    assert_eq!(beatmap_url("key", "123"), "https://osu.ppy.sh/api/get_beatmaps?k=key&b=123&m=0");
    assert_eq!(cover_url("77"), "https://assets.ppy.sh/beatmaps/77/covers/cover.jpg");
    assert_eq!(user_url("peppy"), "https://osu.ppy.sh/api/v2/users/peppy");
    assert_eq!(
        recent_scores_url("2"),
        "https://osu.ppy.sh/api/v2/users/2/scores/recent?limit=1&include_fails=1"
    );
    assert_eq!(
        legacy_score_only_url(true),
        "https://osu.ppy.sh/home/account/options?user_profile_customization[legacy_score_only]=1"
    );
    assert_eq!(
        legacy_score_only_url(false),
        "https://osu.ppy.sh/home/account/options?user_profile_customization[legacy_score_only]=0"
    );
}

#[test]
fn numeric_user_is_an_account_number() {
    assert_eq!(numeric_user_id("12345"), Some(String::from("12345")));
    assert_eq!(numeric_user_id("007"), Some(String::from("7")));
    assert_eq!(numeric_user_id("+5"), Some(String::from("5")));
    assert_eq!(numeric_user_id("-5"), Some(String::from("-5")));
    assert_eq!(numeric_user_id("peppy"), None);
    assert_eq!(numeric_user_id("12a"), None);
    assert_eq!(numeric_user_id(""), None);
}

#[test]
fn parse_i64_agrees_with_the_standard_library() {
    let inputs = [
        "", "0", "7", "-7", "+7", "007", "-0", "+0", "+", "-", "--1", "+-1", "1+", "1-", " 1",
        "1 ", "1_000", "12a", "a12", "0x10", "1.0", "９", "٣",
        "9223372036854775807", "9223372036854775808", "-9223372036854775808",
        "-9223372036854775809", "+9223372036854775807", "+9223372036854775808",
        "00000000000000000000000000000000000001", "-00000000000000000000000009223372036854775808",
        "18446744073709551616", "99999999999999999999999999999", "922337203685477580",
        "9223372036854775799", "-1234567890123456789",
    ];
    for text in inputs {
        assert_eq!(parse_i64(text), text.parse::<i64>().ok(), "{:?}", text);
    }
}

#[test]
fn empty_answers_are_not_found() {
    match require_scores(Vec::new()) {
        Err(OsuApiError::NotFound(detail)) => {
            assert_eq!(detail, "No country scores found for this beatmap")
        }
        other => panic!("unexpected {:?}", other),
    }
    assert_eq!(require_scores(vec![score(1, &[]), score(2, &[])]).unwrap().len(), 2);
    match first_beatmap(Vec::new(), "42") {
        Err(OsuApiError::NotFound(detail)) => assert_eq!(detail, "Beatmap 42 not found"),
        other => panic!("unexpected {:?}", other),
    }
    assert_eq!(first_beatmap(vec![beatmap("1"), beatmap("2")], "1").unwrap().beatmap_id, "1");
    match first_recent(Vec::new(), "peppy") {
        Err(OsuApiError::NotFound(detail)) => assert_eq!(detail, "No recent scores for user peppy"),
        other => panic!("unexpected {:?}", other),
    }
    let recent = vec![
        RecentScore { beatmap: RecetScoreBeatmap { id: 9 } },
        RecentScore { beatmap: RecetScoreBeatmap { id: 8 } },
    ];
    assert_eq!(first_recent(recent, "peppy").unwrap().beatmap.id, 9);
}

#[test]
fn messages_without_command_are_ignored() {
    assert_eq!(parse_command(""), Command::Ignore);
    assert_eq!(parse_command("hello"), Command::Ignore);
    assert_eq!(parse_command("!"), Command::Ignore);
    assert_eq!(parse_command("!help"), Command::Ignore);
    assert_eq!(parse_command(" !cs 1"), Command::Ignore);
    assert_eq!(parse_command("!CS 1"), Command::Ignore);
    assert_eq!(parse_command("!c"), Command::Ignore);
    assert_eq!(parse_command("!conn 5"), Command::Ignore);
}

#[test]
fn country_scores_command_takes_the_last_word() {
    assert_eq!(
        parse_command("!cs 12345"),
        Command::CountryScores { beatmap_id: String::from("12345") }
    );
    assert_eq!(
        parse_command("!cs -m HDHR 12345"),
        Command::CountryScores { beatmap_id: String::from("12345") }
    );
    assert_eq!(parse_command("!cs"), Command::CountryScores { beatmap_id: String::from("!cs") });
    assert_eq!(
        parse_command("!cs 1 \n"),
        Command::CountryScores { beatmap_id: String::from("1") }
    );
    assert_eq!(
        parse_command("!csx"),
        Command::CountryScores { beatmap_id: String::from("!csx") }
    );
}

#[test]
fn recent_score_command_names_a_user_or_none() {
    assert_eq!(parse_command("!rsc"), Command::RecentScore { user: String::new() });
    assert_eq!(parse_command("!rsc peppy"), Command::RecentScore { user: String::from("peppy") });
    assert_eq!(
        parse_command("!rsc -m HDHR peppy"),
        Command::RecentScore { user: String::from("peppy") }
    );
    assert_eq!(parse_command("!rsc -m HDHR"), Command::RecentScore { user: String::new() });
    assert_eq!(parse_command("!rsc peppy -l"), Command::RecentScore { user: String::new() });
    assert_eq!(parse_command("!rsc -l"), Command::RecentScore { user: String::new() });
    assert_eq!(parse_command("!rsc 123"), Command::RecentScore { user: String::from("123") });
    assert_eq!(parse_command("!rscx"), Command::RecentScore { user: String::from("!rscx") });
}

#[test]
fn connect_command_needs_a_number() {
    assert_eq!(parse_command("!connect 12345"), Command::Connect { osu_id: 12345 });
    assert_eq!(parse_command("!connect me 007"), Command::Connect { osu_id: 7 });
    assert_eq!(parse_command("!connect -3"), Command::Connect { osu_id: -3 });
    assert_eq!(parse_command("!connect"), Command::ConnectInvalid);
    assert_eq!(parse_command("!connect peppy"), Command::ConnectInvalid);
    assert_eq!(parse_command("!connect 99999999999999999999"), Command::ConnectInvalid);
    assert_eq!(parse_command("!connect 12 "), Command::Connect { osu_id: 12 });
}

#[test]
fn prefix_is_compared_by_characters() {
    assert!(has_prefix("!cs 1", "!cs"));
    assert!(has_prefix("!cs", "!cs"));
    assert!(has_prefix("abc", ""));
    assert!(has_prefix("", ""));
    assert!(!has_prefix("!c", "!cs"));
    assert!(!has_prefix("!rs", "!cs"));
    assert!(has_prefix("äbc", "äb"));
}

#[test]
fn filter_request_follows_the_first_flag() {
    assert_eq!(filter_request("!cs -m HDHR 123"), "HDHR");
    assert_eq!(filter_request("!cs 123 -m hd"), "hd");
    assert_eq!(filter_request("!cs -m A -m B 1"), "A");
    assert_eq!(filter_request("!cs 123"), "");
    assert_eq!(filter_request("!cs 123 -m"), "");
    assert_eq!(filter_request(""), "");
    assert_eq!(filter_request("-m"), "");
    assert_eq!(filter_request("-m -m"), "-m");
}

#[test]
fn filter_request_splits_at_single_spaces() {
    assert_eq!(filter_request("!cs -m  HD 1"), "");
    assert_eq!(filter_request("!cs -m\tHD 1"), "");
    assert_eq!(filter_request("!cs  -m HD 1"), "HD");
}

#[test]
fn selection_for_a_message() {
    let scores = || vec![score(1, &["HD"]), score(2, &["HD", "HR"]), score(3, &[])];
    let rows = select_for_message(scores(), "!cs -m hdhr 1").unwrap();
    assert_eq!(rows.iter().map(|s| s.user.id).collect::<Vec<i64>>(), vec![2]);
    let all = select_for_message(scores(), "!cs 1").unwrap();
    assert_eq!(all.len(), 3);
    match select_for_message(scores(), "!cs -m zz 1") {
        Err(SelectError::InvalidMods(invalid)) => assert_eq!(invalid, vec!["ZZ"]),
        other => panic!("unexpected {:?}", other.map(|rows| rows.len())),
    }
    match select_for_message(scores(), "!cs -m FL 1") {
        Err(SelectError::NoMatches) => {}
        other => panic!("unexpected {:?}", other.map(|rows| rows.len())),
    }
}

#[test]
fn replies_to_failed_fetches() {
    let request = OsuApiError::RequestFailed(String::from("timeout"));
    let missing = OsuApiError::NotFound(String::from("No country scores found for this beatmap"));
    let parse = OsuApiError::ParseError(String::from("eof"));
    assert_eq!(
        scores_fetch_reply(&request),
        "Failed to fetch scores. Check if the beatmap ID is correct."
    );
    assert_eq!(scores_fetch_reply(&missing), "No country scores found for this beatmap");
    assert_eq!(scores_fetch_reply(&parse), UNKNOWN);
    assert_eq!(
        beatmap_fetch_reply(&request),
        "Failed to fetch beatmap info. Check if the beatmap ID is correct."
    );
    assert_eq!(beatmap_fetch_reply(&missing), UNKNOWN);
    assert_eq!(recent_fetch_reply(&missing), "No country scores found for this beatmap");
    assert_eq!(recent_fetch_reply(&request), UNKNOWN);
    assert_eq!(unknown_failure_reply(), UNKNOWN);
}

#[test]
fn replies_to_failed_lookups() {
    assert_eq!(
        user_lookup_reply(&UserError::UserNotFound),
        "Failed to get user. Did you connect your osu! account with `!connect {osu_id}`?"
    );
    assert_eq!(user_lookup_reply(&UserError::DatabaseError(String::from("locked"))), "locked");
    assert_eq!(
        connect_failure_reply(Some("1555")),
        "This Discord account is already connected to an osu! account"
    );
    assert_eq!(connect_failure_reply(Some("2067")), UNKNOWN);
    assert_eq!(connect_failure_reply(None), UNKNOWN);
}

#[test]
fn replies_to_empty_selections() {
    assert_eq!(
        selection_reply(&SelectError::InvalidMods(vec![String::from("ZZ")])),
        "Invalid mods [\"ZZ\"]"
    );
    assert_eq!(
        selection_reply(&SelectError::InvalidMods(vec![String::from("ZZ"), String::from("Q")])),
        "Invalid mods [\"ZZ\", \"Q\"]"
    );
    assert_eq!(
        selection_reply(&SelectError::NoMatches),
        "No scores found with the specified mods"
    );
}

#[test]
fn caption_links_to_the_beatmap() {
    assert_eq!(
        card_caption(&beatmap("22")),
        "[**Artist - Title [Insane]**](<https://osu.ppy.sh/beatmapsets/11#osu/22>)\n"
    );
}

fn list(items: &[&str]) -> Vec<String> {
    items.iter().map(|s| s.to_string()).collect()
}

#[test]
fn command_is_read_from_the_words_given() {
    assert_eq!(
        command_from_words("!cs 1 2", &list(&["!cs", "1", "2"])),
        Command::CountryScores { beatmap_id: String::from("2") }
    );
    assert_eq!(command_from_words("!cs", &list(&[])), Command::CountryScoresUsage);
    assert_eq!(command_from_words("!connect", &list(&[])), Command::ConnectUsage);
    assert_eq!(command_from_words("!connect 5", &list(&["5"])), Command::Connect { osu_id: 5 });
    assert_eq!(command_from_words("!connect 5", &list(&["x"])), Command::ConnectInvalid);
    assert_eq!(
        command_from_words("!rsc", &list(&[])),
        Command::RecentScore { user: String::new() }
    );
    assert_eq!(
        command_from_words("!rsc a", &list(&["!rsc", "a"])),
        Command::RecentScore { user: String::from("a") }
    );
    assert_eq!(command_from_words("hello", &list(&["!cs", "1"])), Command::Ignore);
}

#[test]
fn recent_user_is_the_last_word_unless_it_is_a_flag() {
    assert_eq!(recent_user_argument(&list(&[])), "");
    assert_eq!(recent_user_argument(&list(&["!rsc"])), "");
    assert_eq!(recent_user_argument(&list(&["!rsc", "peppy"])), "peppy");
    assert_eq!(recent_user_argument(&list(&["!rsc", "-m", "HD"])), "");
    assert_eq!(recent_user_argument(&list(&["-m", "HD"])), "");
    assert_eq!(recent_user_argument(&list(&["!rsc", "-m", "HD", "peppy"])), "peppy");
    assert_eq!(recent_user_argument(&list(&["!rsc", "-x"])), "");
    assert_eq!(recent_user_argument(&list(&["peppy"])), "peppy");
}

#[test]
fn replies_that_need_no_work() {
    assert_eq!(country_scores_usage(), "Usage: !cs <beatmap_id>");
    assert_eq!(connect_usage(), "Usage: !connect <osu_id>");
    assert_eq!(invalid_osu_id_reply(), "Invalid osu! ID. Please provide a valid number.");
    assert_eq!(connected_reply(), "Successfully connected your osu! account");
    assert_eq!(
        immediate_reply(&Command::CountryScoresUsage),
        Some(String::from("Usage: !cs <beatmap_id>"))
    );
    assert_eq!(
        immediate_reply(&Command::ConnectUsage),
        Some(String::from("Usage: !connect <osu_id>"))
    );
    assert_eq!(
        immediate_reply(&Command::ConnectInvalid),
        Some(String::from("Invalid osu! ID. Please provide a valid number."))
    );
    assert_eq!(immediate_reply(&Command::Ignore), None);
    assert_eq!(immediate_reply(&Command::Connect { osu_id: 1 }), None);
    assert_eq!(immediate_reply(&Command::RecentScore { user: String::new() }), None);
    assert_eq!(
        immediate_reply(&Command::CountryScores { beatmap_id: String::from("1") }),
        None
    );
}

#[test]
fn invalid_tokens_are_listed_quoted_and_escaped() {
    assert_eq!(selection_reply(&SelectError::InvalidMods(Vec::new())), "Invalid mods []");
    assert_eq!(
        selection_reply(&SelectError::InvalidMods(list(&["A1", "", "zz"]))),
        "Invalid mods [\"A1\", \"\", \"zz\"]"
    );
    assert_eq!(
        selection_reply(&SelectError::InvalidMods(list(&["\"Q"]))),
        "Invalid mods [\"\\\"Q\"]"
    );
}

#[test]
fn ascii_white_space_separates_words() {
    for sep in [' ', '\t', '\n', '\u{b}', '\u{c}', '\r'] {
        let content = format!("!cs{}7", sep);
        assert_eq!(
            parse_command(&content),
            Command::CountryScores { beatmap_id: String::from("7") },
            "{:?}",
            sep
        );
    }
    for other in ['\u{0}', '\u{8}', '\u{e}', '\u{1f}', '!', '_', '\u{7f}'] {
        let content = format!("!cs{}7", other);
        assert_eq!(
            parse_command(&content),
            Command::CountryScores { beatmap_id: content.clone() },
            "{:?}",
            other
        );
    }
}
