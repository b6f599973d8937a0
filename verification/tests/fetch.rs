use tvdb_v2::cli::{
    judge_answer, passes_votes_and_genre, prompt, read_answer, search_terms, Answer,
};
use tvdb_v2::tvdb_api::{EpisodeInfo, EpisodeList, PageLinks, SeriesDetailedInfo};
use tvdb_v2::tvdb_auth::{bearer, login_body, login_url, TokenCache};
use tvdb_v2::tvdb_errors::{check_status, TvdbError};
use tvdb_v2::tvdb_from::{
    append_page, assemble, more_page_requests, page_requests, page_url, PageRequest, PageSlots,
};
use tvdb_v2::text::decimal_string;
use tvdb_v2::{ACCEPT_API_VERSION, API_KEY, BASE_URL, USER_AGENT};

fn page(last: usize, tags: &[&str]) -> EpisodeList {
    EpisodeList::new(
        None,
        PageLinks { first: 1, last },
        tags.iter()
            .map(|t| EpisodeInfo::new(1, 1, Some(t.to_string()), "2000-01-01".to_string()))
            .collect(),
    )
}

fn tags(list: &EpisodeList) -> Vec<String> {
    list.get_episode_list().iter().map(|e| e.get_name().to_string()).collect()
}

#[test]
fn constants() {
    assert_eq!(BASE_URL, "https://api.thetvdb.com");
    assert_eq!(USER_AGENT, "tvdb-v2-rs/0.1");
    assert_eq!(ACCEPT_API_VERSION, "application/vnd.thetvdb.v3");
    assert_eq!(API_KEY, "0629B785CE550C8D");
}

#[test]
fn status_classes() {
    for ok in [100u16, 200, 204, 301, 399, 600, 999, 0, u16::MAX] {
        assert!(check_status(ok).is_ok(), "{}", ok);
    }
    for bad in [400u16, 401, 404, 499, 500, 503, 599] {
        match check_status(bad) {
            Err(TvdbError::HttpStatus(code)) => assert_eq!(code, bad),
            other => panic!("unexpected {:?}", other),
        }
    }
}

#[test]
fn missing_resource_surfaces_http_status() {
    assert!(matches!(check_status(404), Err(TvdbError::HttpStatus(404))));
}

#[test]
fn error_messages() {
    assert_eq!(
        TvdbError::Transport("connection reset".to_string()).message(),
        "Transport Error: connection reset"
    );
    assert_eq!(TvdbError::HttpStatus(404).message(), "Error: response error: 404 (404)");
    assert_eq!(
        TvdbError::Deserialization("missing field `data`".to_string()).message(),
        "Deserialization Error: missing field `data`"
    );
    assert_eq!(TvdbError::Validation("no".to_string()).message(), "Error: no");
}

#[test]
fn decimal_numerals() {
    assert_eq!(decimal_string(0), "0");
    assert_eq!(decimal_string(7), "7");
    assert_eq!(decimal_string(10), "10");
    assert_eq!(decimal_string(1234567890), "1234567890");
    assert_eq!(decimal_string(u64::MAX), "18446744073709551615");
}

#[test]
fn page_addresses() {
    assert_eq!(page_url("https://x/series/1/episodes", 2), "https://x/series/1/episodes?page=2");
    assert_eq!(page_url("u", 120), "u?page=120");
}

fn pairs(requests: Vec<PageRequest>) -> Vec<(usize, String)> {
    requests.into_iter().map(|r| (r.page, r.url)).collect()
}

#[test]
fn later_pages_are_asked_in_page_order() {
    assert_eq!(
        pairs(page_requests("u", 3)),
        vec![(2, "u?page=2".to_string()), (3, "u?page=3".to_string())]
    );
    assert_eq!(pairs(page_requests("u", 2)), vec![(2, "u?page=2".to_string())]);
    assert!(page_requests("u", 1).is_empty());
    assert!(page_requests("u", 0).is_empty());
    let many = page_requests("u", 12);
    assert_eq!(many.len(), 11);
    assert_eq!(many[10].page, 12);
    assert_eq!(many[10].url, "u?page=12");
}

#[test]
fn three_pages_mean_three_requests_and_all_episodes() {
    let first = page(3, &["a", "b"]);
    let requests = pairs(more_page_requests("81189", &first));
    assert_eq!(
        requests,
        vec![
            (2, "https://api.thetvdb.com/series/81189/episodes?page=2".to_string()),
            (3, "https://api.thetvdb.com/series/81189/episodes?page=3".to_string()),
        ]
    );
    // the first request plus one per later page
    assert_eq!(1 + requests.len(), 3);
    let whole = assemble(first, vec![Ok(page(3, &["c"])), Ok(page(3, &["d", "e"]))]).unwrap();
    assert_eq!(tags(&whole), vec!["a", "b", "c", "d", "e"]);
}

#[test]
fn a_failed_page_ends_the_fetch_before_the_rest_arrives() {
    let mut slots: PageSlots<EpisodeList> = PageSlots::new(6);
    assert!(!slots.has_failed());
    assert!(slots.put(2, Ok(page(6, &["b"]))));
    assert!(!slots.has_failed());
    assert!(slots.put(3, Err(TvdbError::HttpStatus(503))));
    assert!(slots.has_failed());
    assert!(!slots.is_complete());
    assert!(matches!(slots.finish(page(6, &["a"])), Some(Err(TvdbError::HttpStatus(503)))));
}

#[test]
fn a_failure_behind_a_missing_page_does_not_end_the_fetch() {
    let mut slots: PageSlots<EpisodeList> = PageSlots::new(4);
    assert!(slots.put(3, Err(TvdbError::HttpStatus(500))));
    assert!(slots.has_failed());
    assert!(slots.finish(page(4, &["a"])).is_none());
}

#[test]
fn append_page_adds_at_the_end() {
    let mut acc = page(2, &["a"]);
    append_page(&mut acc, page(2, &["b", "c"]));
    assert_eq!(tags(&acc), vec!["a", "b", "c"]);
    assert_eq!(acc.get_links().last, 2);
    append_page(&mut acc, page(2, &[]));
    assert_eq!(tags(&acc), vec!["a", "b", "c"]);
}

#[test]
fn assemble_without_later_pages_is_the_first_page() {
    let whole = assemble(page(1, &["a"]), Vec::new()).unwrap();
    assert_eq!(tags(&whole), vec!["a"]);
}

#[test]
fn assemble_gives_the_earliest_failure() {
    let r = assemble(
        page(4, &["a"]),
        vec![
            Ok(page(4, &["b"])),
            Err(TvdbError::HttpStatus(502)),
            Err(TvdbError::Transport("late".to_string())),
        ],
    );
    assert!(matches!(r, Err(TvdbError::HttpStatus(502))));
}

#[test]
fn slots_assemble_in_page_order_whatever_the_arrival_order() {
    let orders: [[usize; 3]; 6] =
        [[2, 3, 4], [2, 4, 3], [3, 2, 4], [3, 4, 2], [4, 2, 3], [4, 3, 2]];
    for order in orders {
        let mut slots: PageSlots<EpisodeList> = PageSlots::new(4);
        for p in order {
            assert!(!slots.is_complete());
            let tag = format!("page{}", p);
            assert!(slots.put(p, Ok(page(4, &[tag.as_str()]))));
        }
        assert!(slots.is_complete());
        let whole = slots.finish(page(4, &["page1"])).unwrap().unwrap();
        assert_eq!(tags(&whole), vec!["page1", "page2", "page3", "page4"]);
    }
}

#[test]
fn slots_turn_away_pages_without_a_slot() {
    let mut slots: PageSlots<EpisodeList> = PageSlots::new(3);
    assert!(!slots.put(0, Ok(page(3, &[]))));
    assert!(!slots.put(1, Ok(page(3, &[]))));
    assert!(!slots.put(4, Ok(page(3, &[]))));
    assert!(!slots.put(usize::MAX, Ok(page(3, &[]))));
    assert!(slots.put(3, Ok(page(3, &["c"]))));
    assert!(!slots.is_complete());
}

#[test]
fn slots_do_not_finish_while_a_page_is_missing() {
    let mut slots: PageSlots<EpisodeList> = PageSlots::new(3);
    assert!(slots.put(3, Ok(page(3, &["c"]))));
    assert!(slots.finish(page(3, &["a"])).is_none());
}

#[test]
fn slots_for_a_single_page_finish_at_once() {
    for pages in [0usize, 1] {
        let slots: PageSlots<EpisodeList> = PageSlots::new(pages);
        assert!(slots.is_complete());
        let whole = slots.finish(page(pages, &["only"])).unwrap().unwrap();
        assert_eq!(tags(&whole), vec!["only"]);
    }
}

#[test]
fn slots_surface_the_failure_of_the_earliest_failed_page() {
    let mut slots: PageSlots<EpisodeList> = PageSlots::new(4);
    assert!(slots.put(4, Err(TvdbError::Transport("four".to_string()))));
    assert!(slots.put(2, Ok(page(4, &["b"]))));
    assert!(slots.put(3, Err(TvdbError::Deserialization("three".to_string()))));
    match slots.finish(page(4, &["a"])) {
        Some(Err(TvdbError::Deserialization(msg))) => assert_eq!(msg, "three"),
        other => panic!("unexpected {:?}", other.map(|r| r.map(|l| tags(&l)))),
    }
}

#[test]
fn slots_keep_the_last_outcome_put_for_a_page() {
    let mut slots: PageSlots<EpisodeList> = PageSlots::new(2);
    assert!(slots.put(2, Err(TvdbError::HttpStatus(500))));
    assert!(slots.put(2, Ok(page(2, &["b"]))));
    let whole = slots.finish(page(2, &["a"])).unwrap().unwrap();
    assert_eq!(tags(&whole), vec!["a", "b"]);
}

#[test]
fn login_request() {
    assert_eq!(login_url(), "https://api.thetvdb.com/login");
    assert_eq!(login_body("0629B785CE550C8D"), "{\"apikey\":\"0629B785CE550C8D\"}");
    assert_eq!(login_body(""), "{\"apikey\":\"\"}");
    assert_eq!(bearer("abc.def"), "Bearer abc.def");
}

#[test]
fn token_is_kept_after_the_first_success() {
    let mut cache = TokenCache::new();
    assert!(cache.needs_login());
    assert!(cache.get().is_none());
    assert_eq!(cache.settle(Ok("first".to_string())).unwrap(), "first");
    assert!(!cache.needs_login());
    assert_eq!(cache.get().unwrap(), "first");
    assert_eq!(cache.settle(Ok("second".to_string())).unwrap(), "first");
    assert_eq!(cache.settle(Err(TvdbError::HttpStatus(401))).unwrap(), "first");
    assert_eq!(cache.get().unwrap(), "first");
}

#[test]
fn failed_login_is_not_kept() {
    let mut cache = TokenCache::new();
    assert!(matches!(
        cache.settle(Err(TvdbError::HttpStatus(401))),
        Err(TvdbError::HttpStatus(401))
    ));
    assert!(cache.needs_login());
    assert!(cache.get().is_none());
    assert_eq!(cache.settle(Ok("later".to_string())).unwrap(), "later");
    assert!(!cache.needs_login());
}

#[test]
fn search_words_are_joined_with_plus() {
    assert_eq!(search_terms(&Vec::new()), "");
    assert_eq!(search_terms(&vec!["Lost".to_string()]), "Lost");
    assert_eq!(search_terms(&vec!["Breaking".to_string(), "Bad".to_string()]), "Breaking+Bad");
    assert_eq!(
        search_terms(&vec!["a".to_string(), String::new(), "c".to_string()]),
        "a++c"
    );
}

#[test]
fn prompts() {
    assert_eq!(prompt("Pick", 1, 1), "Pick (1, or 'q' to quit): ");
    assert_eq!(prompt("Pick", 1, 12), "Pick ([1-12], or 'q' to quit): ");
    assert_eq!(prompt("", 0, 100), " ([0-100], or 'q' to quit): ");
}

#[test]
fn answers_are_read_without_their_line_end() {
    assert_eq!(read_answer("q\n", 1, 3), Answer::Quit);
    assert_eq!(read_answer("2\n", 1, 3), Answer::Number(2));
    assert_eq!(read_answer("1\n", 1, 3), Answer::Number(1));
    assert_eq!(read_answer("3\n", 1, 3), Answer::Number(3));
    assert_eq!(read_answer("0\n", 1, 3), Answer::Invalid);
    assert_eq!(read_answer("4\n", 1, 3), Answer::Invalid);
    assert_eq!(read_answer("two\n", 1, 3), Answer::Invalid);
    assert_eq!(read_answer("\n", 1, 3), Answer::Invalid);
    assert_eq!(read_answer("", 1, 3), Answer::Invalid);
    assert_eq!(read_answer("-1\n", 0, 3), Answer::Invalid);
    // the last character goes, whatever it is
    assert_eq!(read_answer("25", 1, 3), Answer::Number(2));
    assert_eq!(read_answer("qq", 1, 3), Answer::Quit);
    assert_eq!(read_answer("q", 1, 3), Answer::Invalid);
    assert_eq!(read_answer("2\u{e9}", 1, 3), Answer::Number(2));
    assert_eq!(read_answer("99999999999999999999999\n", 1, 3), Answer::Invalid);
    // a plus sign and leading zeros are read, a lone or doubled sign is not
    assert_eq!(read_answer("+2\n", 1, 3), Answer::Number(2));
    assert_eq!(read_answer("002\n", 1, 3), Answer::Number(2));
    assert_eq!(read_answer("+\n", 0, 3), Answer::Invalid);
    assert_eq!(read_answer("++2\n", 0, 3), Answer::Invalid);
    assert_eq!(read_answer("-0\n", 0, 3), Answer::Invalid);
    assert_eq!(read_answer(" 2\n", 0, 3), Answer::Invalid);
    assert_eq!(read_answer("2 \n", 0, 3), Answer::Invalid);
    assert_eq!(read_answer("\u{662}\n", 0, 3), Answer::Invalid);
    assert_eq!(
        read_answer("18446744073709551615\n", 0, u64::MAX),
        Answer::Number(u64::MAX)
    );
    assert_eq!(read_answer("18446744073709551616\n", 0, u64::MAX), Answer::Invalid);
}

#[test]
fn answers_are_judged_by_range() {
    assert_eq!(judge_answer(true, Some(2), 1, 3), Answer::Quit);
    assert_eq!(judge_answer(true, None, 1, 3), Answer::Quit);
    assert_eq!(judge_answer(false, Some(2), 1, 3), Answer::Number(2));
    assert_eq!(judge_answer(false, Some(0), 1, 3), Answer::Invalid);
    assert_eq!(judge_answer(false, Some(4), 1, 3), Answer::Invalid);
    assert_eq!(judge_answer(false, None, 1, 3), Answer::Invalid);
    assert_eq!(judge_answer(false, Some(1), 1, 0), Answer::Invalid);
}

fn series(genre: &[&str], votes: usize) -> SeriesDetailedInfo {
    SeriesDetailedInfo::new(
        1,
        None,
        String::new(),
        Vec::new(),
        String::new(),
        String::new(),
        String::new(),
        genre.iter().map(|g| g.to_string()).collect(),
        None,
        0,
        votes,
        None,
    )
}

#[test]
fn vote_and_genre_filters() {
    assert!(passes_votes_and_genre(&series(&["Drama"], 10)));
    assert!(passes_votes_and_genre(&series(&["Comedy", "Drama"], 5000)));
    assert!(!passes_votes_and_genre(&series(&["Drama"], 9)));
    assert!(!passes_votes_and_genre(&series(&["Comedy"], 10)));
    assert!(!passes_votes_and_genre(&series(&["Drama", "Crime"], 10)));
    assert!(!passes_votes_and_genre(&series(&["Action", "Drama"], 10)));
    assert!(!passes_votes_and_genre(&series(&[], 10)));
}
