use tvdb_v2::render::{
    center, details_lines, episode_line, episode_table, seasons_overview, labelled, left, overview_line, season_heading,
    season_line, seasons_heading, series_header, series_row, series_rule, series_table,
    space_padded, zero_padded,
};
use tvdb_v2::text::join_with;
use tvdb_v2::tvdb_api::{
    EpisodeInfo, EpisodeList, PageLinks, SeasonInfo, SeriesDetailedInfo, SeriesSearchInfo,
};

fn info(overview: Option<&str>) -> SeriesDetailedInfo {
    SeriesDetailedInfo::new(
        81189,
        Some("Breaking Bad".to_string()),
        "Ended".to_string(),
        Vec::new(),
        "2008-01-20".to_string(),
        "45".to_string(),
        "AMC".to_string(),
        vec!["Crime".to_string(), "Drama".to_string(), "Thriller".to_string()],
        Some("TV-MA".to_string()),
        9.3f64.to_bits(),
        12345,
        overview.map(|s| s.to_string()),
    )
}

#[test]
fn centering_matches_std_formatting() {
    for text in ["", "a", "ab", "abc", "Name", "First-Aired", "2008-01-20", "h\u{e9}llo"] {
        for width in [0usize, 1, 4, 5, 10, 11, 48] {
            assert_eq!(center(text, width), format!("{: ^w$}", text, w = width));
            assert_eq!(left(text, width), format!("{: <w$}", text, w = width));
        }
    }
    assert_eq!(center("ab", 5), " ab  ");
    assert_eq!(center("abcdef", 3), "abcdef");
    assert_eq!(left("ab", 5), "ab   ");
}

#[test]
fn number_padding_matches_std_formatting() {
    for n in [0usize, 1, 9, 10, 99, 100, 999, 1000, 123456] {
        assert_eq!(zero_padded(n, 3), format!("{:03}", n));
        assert_eq!(zero_padded(n, 2), format!("{:02}", n));
        assert_eq!(space_padded(n, 2), format!("{:2}", n));
    }
    assert_eq!(zero_padded(7, 3), "007");
    assert_eq!(space_padded(7, 2), " 7");
}

#[test]
fn series_table_lines() {
    assert_eq!(
        series_header(),
        format!("{:03}  |  {: ^48}  |  {: ^11}  |  {}", "Num", "Name", "First-Aired", "Status")
    );
    assert_eq!(series_rule(), "-".repeat(88));
    let hit = SeriesSearchInfo::new(
        81189,
        "Breaking Bad".to_string(),
        "Ended".to_string(),
        Some("2008-01-20".to_string()),
    );
    assert_eq!(
        series_row(1, &hit),
        "001  |                    Breaking Bad                    |  2008-01-20   |  Ended"
    );
    let undated = SeriesSearchInfo::new(2, "X".to_string(), "Continuing".to_string(), None);
    assert_eq!(
        series_row(12, &undated),
        format!("{:03}  |  {: ^48}  |  {: ^11}  |  {}", 12, "X", "N/A", "Continuing")
    );
}

#[test]
fn details_are_labelled_lines() {
    assert_eq!(labelled("PG:", "TV-MA"), " PG:          TV-MA");
    assert_eq!(labelled("First-Aired:", "x"), " First-Aired: x");
    let lines = details_lines(&info(None), "9.3");
    assert_eq!(
        lines,
        vec![
            "Breaking Bad [81189]:".to_string(),
            " First-Aired: 2008-01-20".to_string(),
            " Network:     AMC".to_string(),
            " PG:          TV-MA".to_string(),
            " Status:      Ended".to_string(),
            " Runtime:     45".to_string(),
            " Rating:      9.3 (12345)".to_string(),
            " Genre:       Crime | Drama | Thriller".to_string(),
        ]
    );
}

#[test]
fn overview_is_put_on_one_line() {
    assert_eq!(overview_line(&info(None)), "[N/A]");
    assert_eq!(overview_line(&info(Some("A teacher\nturns."))), "[A teacher turns.]");
    assert_eq!(overview_line(&info(Some("a  b"))), "[a b]");
    assert_eq!(overview_line(&info(Some("a   b"))), "[a  b]");
    assert_eq!(overview_line(&info(Some("a    b"))), "[a  b]");
    assert_eq!(overview_line(&info(Some("a \nb\n\nc"))), "[a b c]");
    assert_eq!(overview_line(&info(Some(""))), "[]");
}

#[test]
fn joining_puts_the_separator_between() {
    assert_eq!(join_with(&[], " | "), "");
    assert_eq!(join_with(&["a".to_string()], " | "), "a");
    assert_eq!(join_with(&["a".to_string(), "b".to_string(), "c".to_string()], ", "), "a, b, c");
}

#[test]
fn season_lines() {
    assert_eq!(seasons_heading(), " Seasons:    ");
    let list = EpisodeList::new(
        None,
        PageLinks { first: 1, last: 1 },
        vec![
            EpisodeInfo::new(1, 2, None, "2008-01-27".to_string()),
            EpisodeInfo::new(1, 1, Some("Pilot".to_string()), "2008-01-20".to_string()),
        ],
    );
    let season = SeasonInfo::from_episode_list(&list, 1).unwrap();
    assert_eq!(season_line(&season), "  01  |  02 episodes  |  2008-01-20  - 2008-01-27 ");
    assert_eq!(season_heading(1), "Season  1:");
    assert_eq!(season_heading(12), "Season 12:");
}

#[test]
fn episode_lines() {
    let episode = EpisodeInfo::new(1, 1, Some("Pilot".to_string()), "2008-01-20".to_string());
    assert_eq!(
        episode_line("Breaking Bad", &episode),
        "  Breaking Bad S01E01  | 2008-01-20  |  Pilot"
    );
    let unnamed = EpisodeInfo::new(10, 123, None, String::new());
    assert_eq!(episode_line("", &unnamed), "   S10E123  |             |  N/A");
}

#[test]
fn series_table_numbers_rows_from_one() {
    let hits = vec![
        SeriesSearchInfo::new(1, "A".to_string(), "Ended".to_string(), None),
        SeriesSearchInfo::new(2, "B".to_string(), "Continuing".to_string(), Some("2001".to_string())),
    ];
    let lines = series_table(&hits);
    assert_eq!(
        lines,
        vec![
            series_header(),
            series_rule(),
            series_row(1, &hits[0]),
            series_rule(),
            series_row(2, &hits[1]),
            series_rule(),
        ]
    );
    assert!(lines[2].starts_with("001  |  "));
    assert!(lines[4].starts_with("002  |  "));
    assert_eq!(series_table(&[]), vec![series_header(), series_rule()]);
}

fn two_seasons() -> EpisodeList {
    EpisodeList::new(
        Some("Show".to_string()),
        PageLinks { first: 1, last: 1 },
        vec![
            EpisodeInfo::new(2, 1, Some("c".to_string()), "2002-01-01".to_string()),
            EpisodeInfo::new(1, 2, Some("b".to_string()), "2001-01-08".to_string()),
            EpisodeInfo::new(1, 1, Some("a".to_string()), "2001-01-01".to_string()),
        ],
    )
}

#[test]
fn seasons_are_listed_ascending() {
    assert_eq!(two_seasons().seasons(), vec![1, 2]);
    let empty = EpisodeList::new(None, PageLinks { first: 1, last: 1 }, Vec::new());
    assert!(empty.seasons().is_empty());
}

#[test]
fn episode_table_goes_season_by_season() {
    let list = two_seasons();
    assert_eq!(
        episode_table(&list, &list.seasons()),
        vec![
            "Season  1:".to_string(),
            "  Show S01E01  | 2001-01-01  |  a".to_string(),
            "  Show S01E02  | 2001-01-08  |  b".to_string(),
            "Season  2:".to_string(),
            "  Show S02E01  | 2002-01-01  |  c".to_string(),
        ]
    );
    // a season without episodes has a heading and nothing under it
    assert_eq!(episode_table(&list, &[7]), vec!["Season  7:".to_string()]);
    assert!(episode_table(&list, &[]).is_empty());
}

#[test]
fn seasons_overview_has_a_line_for_each_season_with_episodes() {
    let list = two_seasons();
    assert_eq!(
        seasons_overview(&list, &[1, 7, 2]),
        vec![
            " Seasons:    ".to_string(),
            "  01  |  02 episodes  |  2001-01-01  - 2001-01-08 ".to_string(),
            "  02  |  01 episodes  |  2002-01-01  - 2002-01-01 ".to_string(),
        ]
    );
    assert_eq!(seasons_overview(&list, &[]), vec![" Seasons:    ".to_string()]);
}
