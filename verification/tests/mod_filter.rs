use leaderboard_card::mods::{
    collect_tokens, filter, get_mods_without_cl, score_matches, split_chunks, validate,
};
use leaderboard_card::osu_api::{Mod, Score, Statistics, User};
use leaderboard_card::selection::{cap_rows, select_scores, select_with, SelectError, ROW_CAP};

fn score(id: i64, mods: &[&str]) -> Score {
    Score {
        classic_total_score: 0,
        legacy_total_score: 1000 * id,
        ended_at: String::from("2024-03-07T10:00:00Z"),
        rank: String::from("A"),
        statistics: Statistics { ok: None, miss: None, meh: None },
        mods: mods.iter().map(|m| Mod { acronym: String::from(*m) }).collect(),
        max_combo: 100,
        accuracy: 9500,
        user: User { id, username: format!("player{}", id), avatar_url: String::new() },
    }
}

fn ids(scores: &[Score]) -> Vec<i64> {
    scores.iter().map(|s| s.user.id).collect()
}

fn tokens(text: &str) -> Vec<String> {
    get_mods_without_cl(text).to_vec()
}

#[test]
fn normalize_splits_into_pairs() {
    assert_eq!(tokens("HDHR"), vec!["HD", "HR"]);
    assert_eq!(tokens("HDHRDT"), vec!["HD", "HR", "DT"]);
    assert_eq!(tokens("HD"), vec!["HD"]);
}

#[test]
fn normalize_of_empty_text_is_empty() {
    let set = get_mods_without_cl("");
    assert!(set.is_empty());
    assert_eq!(set.len(), 0);
    assert_eq!(set.join(), "");
}

#[test]
fn normalize_drops_classic_marker_everywhere() {
    assert_eq!(tokens("CL"), Vec::<String>::new());
    assert_eq!(tokens("CLHD"), vec!["HD"]);
    assert_eq!(tokens("HDCL"), vec!["HD"]);
    assert_eq!(tokens("CLHDCLHRCL"), vec!["HD", "HR"]);
    for text in ["", "CL", "CLCL", "HDCLHR", "XCL", "CCLL", "ACLB", "cl", "HDC"] {
        assert!(!get_mods_without_cl(text).contains("CL"), "{:?}", text);
    }
}

#[test]
fn normalize_only_drops_aligned_marker() {
    // "ACLB" falls into "AC" and "LB": no chunk is the marker.
    assert_eq!(tokens("ACLB"), vec!["AC", "LB"]);
    assert_eq!(tokens("CCLL"), vec!["CC", "LL"]);
}

#[test]
fn normalize_collapses_repeats() {
    assert_eq!(tokens("HDHD"), vec!["HD"]);
    assert_eq!(tokens("HDHRHD"), vec!["HD", "HR"]);
    assert_eq!(get_mods_without_cl("HDHRHDHR").len(), 2);
}

#[test]
fn normalize_keeps_odd_last_character() {
    assert_eq!(tokens("HDH"), vec!["HD", "H"]);
    assert_eq!(tokens("H"), vec!["H"]);
    assert_eq!(tokens("CLC"), vec!["C"]);
}

#[test]
fn normalize_puts_chunks_in_upper_case() {
    assert_eq!(tokens("hdHR"), vec!["HD", "HR"]);
    assert_eq!(tokens("hdcl"), vec!["HD"]);
    assert_eq!(tokens("cl"), Vec::<String>::new());
    assert_eq!(tokens("Cl"), Vec::<String>::new());
    assert_eq!(tokens("hdHD"), vec!["HD"]);
    assert_eq!(tokens("h"), vec!["H"]);
    assert_eq!(tokens("h1?z"), vec!["H1", "?Z"]);
    assert!(get_mods_without_cl("hd").same_as(&get_mods_without_cl("HD")));
}

#[test]
fn normalize_puts_each_chunk_in_upper_case_on_its_own() {
    // A chunk may grow: "ßa" is one chunk and becomes one token of three letters.
    assert_eq!(tokens("ßa"), vec!["SSA"]);
    assert_eq!(tokens("aßb"), vec!["ASS", "B"]);
    // Read again, such a token is cut differently.
    assert_eq!(tokens("SSA"), vec!["SS", "A"]);
}

#[test]
fn chunks_are_cut_as_the_text_stands() {
    assert_eq!(split_chunks("hdHRx"), vec!["hd", "HR", "x"]);
    assert_eq!(split_chunks("CLcl"), vec!["CL", "cl"]);
    assert_eq!(split_chunks(""), Vec::<String>::new());
    assert_eq!(split_chunks("a"), vec!["a"]);
    assert_eq!(split_chunks("äöü"), vec!["äö", "ü"]);
}

#[test]
fn tokens_are_collected_as_they_stand() {
    let list = |items: &[&str]| -> Vec<String> { items.iter().map(|s| s.to_string()).collect() };
    assert_eq!(collect_tokens(&list(&["HD", "CL", "HR", "HD"])).to_vec(), vec!["HD", "HR"]);
    assert_eq!(collect_tokens(&list(&["hd", "cl", "HD"])).to_vec(), vec!["hd", "cl", "HD"]);
    assert_eq!(collect_tokens(&list(&["CL", "CL"])).to_vec(), Vec::<String>::new());
    assert_eq!(collect_tokens(&list(&[])).to_vec(), Vec::<String>::new());
    assert_eq!(collect_tokens(&list(&["", "A", ""])).to_vec(), vec!["", "A"]);
}

#[test]
fn normalize_counts_characters_not_bytes() {
    assert_eq!(tokens("äöü"), vec!["ÄÖ", "Ü"]);
}

#[test]
fn normalize_is_idempotent_on_its_output() {
    for text in [
        "", "HD", "HDHR", "CLHDHR", "HDHDHR", "HDH", "CLC", "HDCLHRX", "ACLB", "äöü", "hdhr",
        "clhdx", "hDcLHr",
    ] {
        let once = get_mods_without_cl(text);
        let again = get_mods_without_cl(once.join().as_str());
        assert_eq!(again.to_vec(), once.to_vec(), "{:?}", text);
        assert!(again.same_as(&once));
    }
}

#[test]
fn sets_compare_without_order() {
    let a = get_mods_without_cl("HDHR");
    let b = get_mods_without_cl("HRHD");
    let c = get_mods_without_cl("HDHRDT");
    assert!(a.same_as(&b));
    assert!(b.same_as(&a));
    assert!(!a.same_as(&c));
    assert!(!c.same_as(&a));
    assert!(a.is_subset_of(&c));
    assert!(!c.is_subset_of(&a));
    assert!(a.contains("HR"));
    assert!(!a.contains("DT"));
}

#[test]
fn validate_accepts_the_known_vocabulary() {
    let all = get_mods_without_cl("HDHRDTNCFLEZHTSONF");
    assert_eq!(all.len(), 9);
    assert_eq!(validate(&all), Vec::<String>::new());
}

#[test]
fn validate_lists_unknown_tokens_in_order() {
    assert_eq!(validate(&get_mods_without_cl("ZZ")), vec!["ZZ"]);
    assert_eq!(validate(&get_mods_without_cl("HDZZHRQQ")), vec!["ZZ", "QQ"]);
    assert_eq!(validate(&get_mods_without_cl("hdzz")), vec!["ZZ"]);
    assert_eq!(validate(&get_mods_without_cl("hdhr")), Vec::<String>::new());
}

#[test]
fn validate_rejects_odd_last_character() {
    assert_eq!(validate(&get_mods_without_cl("HDH")), vec!["H"]);
}

#[test]
fn validate_never_sees_the_classic_marker() {
    assert_eq!(validate(&get_mods_without_cl("CLHD")), Vec::<String>::new());
}

#[test]
fn score_matches_by_exact_set() {
    let wanted = get_mods_without_cl("HDHR");
    assert!(score_matches(&score(1, &["HD", "HR"]), &wanted));
    assert!(score_matches(&score(2, &["HR", "HD"]), &wanted));
    assert!(score_matches(&score(3, &["CL", "HR", "HD"]), &wanted));
    assert!(!score_matches(&score(4, &["HD"]), &wanted));
    assert!(!score_matches(&score(5, &["HD", "HR", "DT"]), &wanted));
    assert!(!score_matches(&score(6, &[]), &wanted));
    assert!(score_matches(&score(7, &["hd", "Hr", "cl"]), &wanted));
}

#[test]
fn filter_keeps_matches_in_order() {
    let scores = vec![
        score(1, &["HD"]),
        score(2, &["HD", "HR"]),
        score(3, &[]),
        score(4, &["HR", "HD", "CL"]),
        score(5, &["HD", "HR", "DT"]),
        score(6, &["HD", "HR"]),
    ];
    let kept = filter(scores, &get_mods_without_cl("HDHR"));
    assert_eq!(ids(&kept), vec![2, 4, 6]);
    assert_eq!(kept[1].legacy_total_score, 4000);
    assert_eq!(kept[1].mods.len(), 3);
}

#[test]
fn filter_with_empty_set_keeps_unmodified_plays() {
    let scores = vec![score(1, &["HD"]), score(2, &[]), score(3, &["CL"])];
    let kept = filter(scores, &get_mods_without_cl(""));
    assert_eq!(ids(&kept), vec![2, 3]);
}

#[test]
fn filter_may_keep_nothing_or_everything() {
    let none = filter(vec![score(1, &["HD"]), score(2, &["DT"])], &get_mods_without_cl("FL"));
    assert!(none.is_empty());
    let all = filter(vec![score(1, &["HD"]), score(2, &["HD"])], &get_mods_without_cl("HD"));
    assert_eq!(ids(&all), vec![1, 2]);
    assert!(filter(Vec::new(), &get_mods_without_cl("HD")).is_empty());
}

#[test]
fn cap_rows_keeps_the_first_seven() {
    assert_eq!(ROW_CAP, 7);
    let many: Vec<Score> = (1..=9).map(|i| score(i, &[])).collect();
    assert_eq!(ids(&cap_rows(many)), vec![1, 2, 3, 4, 5, 6, 7]);
    let few: Vec<Score> = (1..=3).map(|i| score(i, &[])).collect();
    assert_eq!(ids(&cap_rows(few)), vec![1, 2, 3]);
    let exact: Vec<Score> = (1..=7).map(|i| score(i, &[])).collect();
    assert_eq!(cap_rows(exact).len(), 7);
    assert!(cap_rows(Vec::new()).is_empty());
}

#[test]
fn select_without_filter_only_caps() {
    let many: Vec<Score> = (1..=9).map(|i| score(i, &["HD"])).collect();
    match select_with(many, "") {
        Ok(rows) => assert_eq!(ids(&rows), vec![1, 2, 3, 4, 5, 6, 7]),
        Err(e) => panic!("unexpected {:?}", e),
    }
}

#[test]
fn select_filters_before_capping() {
    let mut scores: Vec<Score> = (1..=8).map(|i| score(i, &["DT"])).collect();
    scores.extend((9..=17).map(|i| score(i, &["HD", "HR"])));
    match select_with(scores, "HDHR") {
        Ok(rows) => assert_eq!(ids(&rows), vec![9, 10, 11, 12, 13, 14, 15]),
        Err(e) => panic!("unexpected {:?}", e),
    }
}

#[test]
fn select_reports_no_matches_for_valid_filter() {
    let scores = vec![score(1, &["HD"]), score(2, &["HD", "HR", "DT"]), score(3, &[])];
    match select_with(scores, "HDHR") {
        Err(SelectError::NoMatches) => {}
        other => panic!("unexpected {:?}", other.map(|rows| ids(&rows))),
    }
}

#[test]
fn select_reports_invalid_tokens() {
    let scores = vec![score(1, &["HD"])];
    match select_with(scores, "ZZ") {
        Err(SelectError::InvalidMods(invalid)) => assert_eq!(invalid, vec!["ZZ"]),
        other => panic!("unexpected {:?}", other.map(|rows| ids(&rows))),
    }
}

#[test]
fn select_rejects_invalid_filter_even_without_scores() {
    match select_with(Vec::new(), "HDQQ") {
        Err(SelectError::InvalidMods(invalid)) => assert_eq!(invalid, vec!["QQ"]),
        other => panic!("unexpected {:?}", other.map(|rows| ids(&rows))),
    }
    match select_with(Vec::new(), "HD") {
        Err(SelectError::NoMatches) => {}
        other => panic!("unexpected {:?}", other.map(|rows| ids(&rows))),
    }
}

#[test]
fn select_by_marker_alone_asks_for_unmodified_plays() {
    let scores = vec![score(1, &["HD"]), score(2, &["CL"]), score(3, &[])];
    match select_with(scores, "CL") {
        Ok(rows) => assert_eq!(ids(&rows), vec![2, 3]),
        Err(e) => panic!("unexpected {:?}", e),
    }
}

#[test]
fn select_scores_ignores_letter_case() {
    let scores = vec![score(1, &["HD"]), score(2, &["HD", "HR"]), score(3, &["HR", "HD"])];
    match select_scores(scores, "hdHr") {
        Ok(rows) => assert_eq!(ids(&rows), vec![2, 3]),
        Err(e) => panic!("unexpected {:?}", e),
    }
}

#[test]
fn select_scores_reports_invalid_tokens_in_upper_case() {
    match select_scores(vec![score(1, &[])], "zz") {
        Err(SelectError::InvalidMods(invalid)) => assert_eq!(invalid, vec!["ZZ"]),
        other => panic!("unexpected {:?}", other.map(|rows| ids(&rows))),
    }
}

#[test]
fn select_with_reads_any_letter_case() {
    let scores = vec![score(1, &["HD"]), score(2, &["hd"]), score(3, &["HR"])];
    match select_with(scores, "hd") {
        Ok(rows) => assert_eq!(ids(&rows), vec![1, 2]),
        Err(e) => panic!("unexpected {:?}", e),
    }
    match select_with(vec![score(1, &["HD"])], "zz") {
        Err(SelectError::InvalidMods(invalid)) => assert_eq!(invalid, vec!["ZZ"]),
        other => panic!("unexpected {:?}", other.map(|rows| ids(&rows))),
    }
}
