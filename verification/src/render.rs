//! The lines of the tables that show the entities: fixed-width columns,
//! padded with spaces, numbers padded with zeros.

use vstd::prelude::*;
use vstd::string::*;

use crate::text::{decimal, decimal_string, join_with, joined_with, replace_all, replaced};
use crate::tvdb_api::{
    in_season, season_bucket, season_summary, text_or, EpisodeInfo, EpisodeList, SeasonInfo,
    SeasonView, SeriesDetailedInfo, SeriesDetailedView, SeriesSearchInfo,
};

verus! {

/// The width of the name column of the series table.
pub const NAME_WIDTH: usize = 48;

/// The width of a date column.
pub const DATE_WIDTH: usize = 11;

/// The width of the label column of the series details.
pub const LABEL_WIDTH: usize = 12;

/// The width of the rule under each row of the series table.
pub const RULE_WIDTH: usize = 88;

/// `n` times the character `c`.
pub open spec fn run_of(c: char, n: nat) -> Seq<char> {
    Seq::new(n, |i: int| c)
}

/// `text` in the middle of a column of `width` characters; where the
/// padding is odd, the extra space stands on the right. A text as wide as
/// the column or wider stays as it is.
pub open spec fn centered(text: Seq<char>, width: nat) -> Seq<char> {
    if text.len() >= width {
        text
    } else {
        let pad = (width - text.len()) as nat;
        run_of(' ', pad / 2) + text + run_of(' ', (pad - pad / 2) as nat)
    }
}

/// `text` at the left of a column of `width` characters.
pub open spec fn flush_left(text: Seq<char>, width: nat) -> Seq<char> {
    if text.len() >= width {
        text
    } else {
        text + run_of(' ', (width - text.len()) as nat)
    }
}

/// `text` at the right of a column of `width` characters, the front filled
/// with `fill`.
pub open spec fn flush_right(text: Seq<char>, width: nat, fill: char) -> Seq<char> {
    if text.len() >= width {
        text
    } else {
        run_of(fill, (width - text.len()) as nat) + text
    }
}

/// Repeats the one character of `unit`.
fn repeat(unit: &str, n: usize) -> (r: String)
    requires
        unit@.len() == 1,
    ensures
        r@ == run_of(unit@[0], n as nat),
{
    let mut out = String::new();
    let mut i: usize = 0;
    while i < n
        invariant
            i <= n,
            unit@.len() == 1,
            out@ == run_of(unit@[0], i as nat),
        decreases n - i,
    {
        out = out.concat(unit);
        assert(out@ =~= run_of(unit@[0], (i + 1) as nat));
        i += 1;
    }
    out
}

fn spaces(n: usize) -> (r: String)
    ensures
        r@ == run_of(' ', n as nat),
{
    proof {
        reveal_strlit(" ");
    }
    repeat(" ", n)
}

/// Centers `text` in a column of `width` characters.
pub fn center(text: &str, width: usize) -> (r: String)
    ensures
        r@ == centered(text@, width as nat),
{
    let len = text.unicode_len();
    if len >= width {
        String::from_str(text)
    } else {
        let pad = width - len;
        let right = spaces(pad - pad / 2);
        spaces(pad / 2).concat(text).concat(right.as_str())
    }
}

/// Puts `text` at the left of a column of `width` characters.
pub fn left(text: &str, width: usize) -> (r: String)
    ensures
        r@ == flush_left(text@, width as nat),
{
    let len = text.unicode_len();
    if len >= width {
        String::from_str(text)
    } else {
        let fill = spaces(width - len);
        String::from_str(text).concat(fill.as_str())
    }
}

/// Renders `n` in decimal, at the right of a column of `width` characters
/// filled with zeros.
pub fn zero_padded(n: usize, width: usize) -> (r: String)
    ensures
        r@ == flush_right(decimal(n as nat), width as nat, '0'),
{
    let digits = decimal_string(n as u64);
    let len = digits.as_str().unicode_len();
    if len >= width {
        digits
    } else {
        proof {
            reveal_strlit("0");
        }
        repeat("0", width - len).concat(digits.as_str())
    }
}

/// Renders `n` in decimal, at the right of a column of `width` characters
/// filled with spaces.
pub fn space_padded(n: usize, width: usize) -> (r: String)
    ensures
        r@ == flush_right(decimal(n as nat), width as nat, ' '),
{
    let digits = decimal_string(n as u64);
    let len = digits.as_str().unicode_len();
    if len >= width {
        digits
    } else {
        spaces(width - len).concat(digits.as_str())
    }
}

/// The rule under a row of the series table.
pub fn series_rule() -> (r: String)
    ensures
        r@ == run_of('-', RULE_WIDTH as nat),
{
    proof {
        reveal_strlit("-");
    }
    repeat("-", RULE_WIDTH)
}

/// A row of the series table from the texts of its four columns.
pub open spec fn series_row_text(
    num: Seq<char>,
    name: Seq<char>,
    first_aired: Seq<char>,
    status: Seq<char>,
) -> Seq<char> {
    num + "  |  "@ + centered(name, NAME_WIDTH as nat) + "  |  "@ + centered(
        first_aired,
        DATE_WIDTH as nat,
    ) + "  |  "@ + status
}

fn series_row_of(num: &str, name: &str, first_aired: &str, status: &str) -> (r: String)
    ensures
        r@ == series_row_text(num@, name@, first_aired@, status@),
{
    let name_column = center(name, NAME_WIDTH);
    let date_column = center(first_aired, DATE_WIDTH);
    String::from_str(num).concat("  |  ").concat(name_column.as_str()).concat("  |  ").concat(
        date_column.as_str(),
    ).concat("  |  ").concat(status)
}

/// The heading of the series table.
pub fn series_header() -> (r: String)
    ensures
        r@ == series_row_text("Num"@, "Name"@, "First-Aired"@, "Status"@),
{
    series_row_of("Num", "Name", "First-Aired", "Status")
}

/// The row of the series table for the hit shown as number `num`.
pub fn series_row(num: usize, hit: &SeriesSearchInfo) -> (r: String)
    ensures
        r@ == series_row_text(
            flush_right(decimal(num as nat), 3, '0'),
            hit@.name,
            hit.shown_first_aired(),
            hit@.status,
        ),
{
    let number = zero_padded(num, 3);
    series_row_of(number.as_str(), hit.get_name(), hit.get_first_aired(), hit.get_status())
}

/// Line `k` of the series table: the heading first, then for each hit its
/// row, numbered from 1, each of them with a rule under it.
pub open spec fn series_table_line(hits: Seq<SeriesSearchInfo>, k: int) -> Seq<char> {
    if k == 0 {
        series_row_text("Num"@, "Name"@, "First-Aired"@, "Status"@)
    } else if k % 2 == 1 {
        run_of('-', RULE_WIDTH as nat)
    } else {
        let hit = hits[k / 2 - 1];
        series_row_text(
            flush_right(decimal((k / 2) as nat), 3, '0'),
            hit@.name,
            hit.shown_first_aired(),
            hit@.status,
        )
    }
}

/// Renders the series table for `series`, line by line.
pub fn series_table(series: &[SeriesSearchInfo]) -> (r: Vec<String>)
    ensures
        r@.len() == 2 + 2 * series@.len(),
        forall|k: int| 0 <= k < r@.len() ==> (#[trigger] r@[k])@ == series_table_line(series@, k),
{
    let mut lines: Vec<String> = Vec::new();
    lines.push(series_header());
    lines.push(series_rule());
    let mut i: usize = 0;
    while i < series.len()
        invariant
            i <= series.len(),
            lines@.len() == 2 + 2 * i,
            forall|k: int|
                0 <= k < lines@.len() ==> (#[trigger] lines@[k])@ == series_table_line(series@, k),
        decreases series.len() - i,
    {
        lines.push(series_row(i + 1, &series[i]));
        lines.push(series_rule());
        i += 1;
    }
    lines
}

/// A line of the series details: a label in its column, then the value.
pub open spec fn labelled_text(label: Seq<char>, value: Seq<char>) -> Seq<char> {
    " "@ + flush_left(label, LABEL_WIDTH as nat) + " "@ + value
}

/// Renders a line of the series details.
pub fn labelled(label: &str, value: &str) -> (r: String)
    ensures
        r@ == labelled_text(label@, value@),
{
    let column = left(label, LABEL_WIDTH);
    String::from_str(" ").concat(column.as_str()).concat(" ").concat(value)
}

/// The title line of the series details: the name, then the id in brackets.
pub fn details_title(info: &SeriesDetailedInfo) -> (r: String)
    ensures
        r@ == text_or(info@.name, Seq::empty()) + " ["@ + decimal(info@.id as nat)
            + "]:"@,
{
    let id = decimal_string(info.get_id() as u64);
    String::from_str(info.get_name()).concat(" [").concat(id.as_str()).concat("]:")
}

/// The line of one season in the seasons overview.
pub open spec fn season_line_text(season: SeasonView) -> Seq<char> {
    "  "@ + flush_right(decimal(season.id as nat), 2, '0') + "  |  "@ + flush_right(
        decimal(season.episode_count as nat),
        2,
        '0',
    ) + " episodes  |  "@ + centered(season.first_aired, DATE_WIDTH as nat) + " - "@ + centered(
        season.last_aired,
        DATE_WIDTH as nat,
    )
}

/// Renders the line of one season in the seasons overview.
pub fn season_line(season: &SeasonInfo) -> (r: String)
    ensures
        r@ == season_line_text(season@),
{
    let id = zero_padded(season.get_id(), 2);
    let count = zero_padded(season.get_episode_count(), 2);
    let first = center(season.get_first_aired(), DATE_WIDTH);
    let last = center(season.get_last_aired(), DATE_WIDTH);
    String::from_str("  ").concat(id.as_str()).concat("  |  ").concat(count.as_str()).concat(
        " episodes  |  ",
    ).concat(first.as_str()).concat(" - ").concat(last.as_str())
}

/// The heading of one season in the episode list.
pub open spec fn season_heading_text(season: usize) -> Seq<char> {
    "Season "@ + flush_right(decimal(season as nat), 2, ' ') + ":"@
}

/// Renders the heading of one season in the episode list.
pub fn season_heading(season: usize) -> (r: String)
    ensures
        r@ == season_heading_text(season),
{
    let number = space_padded(season, 2);
    String::from_str("Season ").concat(number.as_str()).concat(":")
}

/// The line of one episode in the episode list of the series `series_name`.
pub open spec fn episode_line_text(series_name: Seq<char>, episode: EpisodeInfo) -> Seq<char> {
    "  "@ + series_name + " S"@ + flush_right(decimal(episode@.season as nat), 2, '0') + "E"@
        + flush_right(decimal(episode@.number as nat), 2, '0') + "  | "@ + centered(
        episode@.first_aired,
        DATE_WIDTH as nat,
    ) + " |  "@ + text_or(episode@.name, "N/A"@)
}

/// Renders the line of one episode in the episode list of the series
/// `series_name`.
pub fn episode_line(series_name: &str, episode: &EpisodeInfo) -> (r: String)
    ensures
        r@ == episode_line_text(series_name@, *episode),
{
    let season = zero_padded(episode.get_season(), 2);
    let number = zero_padded(episode.get_number(), 2);
    let date = center(episode.get_first_aired(), DATE_WIDTH);
    String::from_str("  ").concat(series_name).concat(" S").concat(season.as_str()).concat(
        "E",
    ).concat(number.as_str()).concat("  | ").concat(date.as_str()).concat(" |  ").concat(
        episode.get_name(),
    )
}

/// The texts of `lines`.
pub open spec fn texts(lines: Seq<String>) -> Seq<Seq<char>> {
    lines.map_values(|line: String| line@)
}

/// The lines of one season in the episode list: its heading, then its
/// episodes as their bucket lists them.
pub open spec fn season_block(series_name: Seq<char>, eps: Seq<EpisodeInfo>, season: usize) -> Seq<
    Seq<char>,
> {
    seq![season_heading_text(season)] + season_bucket(eps, season).map_values(
        |e: EpisodeInfo| episode_line_text(series_name, e),
    )
}

/// The lines of the episode list for the given seasons, season after
/// season.
pub open spec fn episode_table_text(
    series_name: Seq<char>,
    eps: Seq<EpisodeInfo>,
    seasons: Seq<usize>,
) -> Seq<Seq<char>>
    decreases seasons.len(),
{
    if seasons.len() == 0 {
        Seq::empty()
    } else {
        episode_table_text(series_name, eps, seasons.drop_last()) + season_block(
            series_name,
            eps,
            seasons.last(),
        )
    }
}

/// Renders the episode list for the given seasons, line by line, under the
/// series name of the list.
pub fn episode_table(list: &EpisodeList, seasons: &[usize]) -> (r: Vec<String>)
    ensures
        texts(r@) == episode_table_text(
            text_or(list@.series_name, Seq::empty()),
            list@.episodes,
            seasons@,
        ),
{
    let series_name = list.get_series_name();
    let by_season = list.list_by_season();
    let ghost name = series_name@;
    let ghost eps = list@.episodes;
    let mut lines: Vec<String> = Vec::new();
    let mut i: usize = 0;
    proof {
        assert(texts(lines@) =~= episode_table_text(name, eps, seasons@.take(0)));
    }
    while i < seasons.len()
        invariant
            i <= seasons.len(),
            name == series_name@,
            eps == list@.episodes,
            forall|s: usize| #[trigger]
                by_season@.contains_key(s) <==> in_season(eps, s).len() > 0,
            forall|s: usize| #[trigger]
                by_season@.contains_key(s) ==> by_season@[s]@ == season_bucket(eps, s),
            texts(lines@) == episode_table_text(name, eps, seasons@.take(i as int)),
        decreases seasons.len() - i,
    {
        let season = seasons[i];
        let ghost before = texts(lines@);
        let ghost bucket = season_bucket(eps, season);
        let ghost shown = bucket.map_values(|e: EpisodeInfo| episode_line_text(name, e));
        lines.push(season_heading(season));
        proof {
            assert(texts(lines@) =~= before + seq![season_heading_text(season)] + shown.take(0));
        }
        match by_season.get(&season) {
            Some(episodes) => {
                let mut j: usize = 0;
                while j < episodes.len()
                    invariant
                        j <= episodes.len(),
                        name == series_name@,
                        episodes@ == bucket,
                        shown == bucket.map_values(|e: EpisodeInfo| episode_line_text(name, e)),
                        texts(lines@) == before + seq![season_heading_text(season)] + shown.take(
                            j as int,
                        ),
                    decreases episodes.len() - j,
                {
                    let ghost so_far = texts(lines@);
                    lines.push(episode_line(series_name, &episodes[j]));
                    proof {
                        assert(shown[j as int] == episode_line_text(name, bucket[j as int]));
                        assert(texts(lines@) =~= so_far.push(shown[j as int]));
                        assert(shown.take(j + 1) =~= shown.take(j as int).push(shown[j as int]));
                        assert(texts(lines@) =~= before + seq![season_heading_text(season)]
                            + shown.take(j + 1));
                    }
                    j += 1;
                }
                proof {
                    assert(shown.take(j as int) =~= shown);
                }
            },
            None => {
                proof {
                    assert(in_season(eps, season) =~= Seq::empty());
                    assert(shown =~= Seq::empty());
                }
            },
        }
        proof {
            assert(seasons@.take(i + 1).drop_last() =~= seasons@.take(i as int));
            assert(seasons@.take(i + 1).last() == season);
            assert(before + seq![season_heading_text(season)] + shown =~= before + season_block(
                name,
                eps,
                season,
            ));
        }
        i += 1;
    }
    proof {
        assert(seasons@.take(i as int) =~= seasons@);
    }
    lines
}

/// The heading of the seasons overview.
pub open spec fn seasons_heading_text() -> Seq<char> {
    " "@ + flush_left("Seasons:"@, LABEL_WIDTH as nat)
}

/// Renders the heading of the seasons overview.
pub fn seasons_heading() -> (r: String)
    ensures
        r@ == seasons_heading_text(),
{
    let column = left("Seasons:", LABEL_WIDTH);
    String::from_str(" ").concat(column.as_str())
}

/// The lines of the seasons overview for the given seasons: the heading,
/// then a line for each season that has episodes.
pub open spec fn seasons_overview_text(eps: Seq<EpisodeInfo>, seasons: Seq<usize>) -> Seq<Seq<char>>
    decreases seasons.len(),
{
    if seasons.len() == 0 {
        seq![seasons_heading_text()]
    } else {
        let earlier = seasons_overview_text(eps, seasons.drop_last());
        if in_season(eps, seasons.last()).len() > 0 {
            earlier.push(season_line_text(season_summary(eps, seasons.last())))
        } else {
            earlier
        }
    }
}

/// Renders the seasons overview for the given seasons, line by line.
pub fn seasons_overview(list: &EpisodeList, seasons: &[usize]) -> (r: Vec<String>)
    ensures
        texts(r@) == seasons_overview_text(list@.episodes, seasons@),
{
    let mut lines: Vec<String> = Vec::new();
    lines.push(seasons_heading());
    let mut i: usize = 0;
    proof {
        assert(texts(lines@) =~= seasons_overview_text(list@.episodes, seasons@.take(0)));
    }
    while i < seasons.len()
        invariant
            i <= seasons.len(),
            texts(lines@) == seasons_overview_text(list@.episodes, seasons@.take(i as int)),
        decreases seasons.len() - i,
    {
        let ghost before = texts(lines@);
        proof {
            assert(seasons@.take(i + 1).drop_last() =~= seasons@.take(i as int));
            assert(seasons@.take(i + 1).last() == seasons@[i as int]);
        }
        match SeasonInfo::from_episode_list(list, seasons[i]) {
            Some(summary) => {
                lines.push(season_line(&summary));
                proof {
                    assert(texts(lines@) =~= before.push(season_line_text(summary@)));
                }
            },
            None => {},
        }
        i += 1;
    }
    proof {
        assert(seasons@.take(i as int) =~= seasons@);
    }
    lines
}

/// The lines of the series details, given the site rating as text: the
/// title, then one labelled line each for first-aired date, network,
/// parental rating, status, runtime, rating with its votes, and genres.
pub open spec fn details_text(info: SeriesDetailedView, rating: Seq<char>) -> Seq<Seq<char>> {
    seq![
        text_or(info.name, Seq::empty()) + " ["@ + decimal(info.id as nat) + "]:"@,
        labelled_text("First-Aired:"@, info.first_aired),
        labelled_text("Network:"@, info.network),
        labelled_text("PG:"@, text_or(info.parental_rating, "N/A"@)),
        labelled_text("Status:"@, info.status),
        labelled_text("Runtime:"@, info.runtime),
        labelled_text("Rating:"@, rating + " ("@ + decimal(info.rating_count as nat) + ")"@),
        labelled_text("Genre:"@, joined_with(info.genre, " | "@)),
    ]
}

/// Renders the lines of the series details, given the site rating as text.
pub fn details_lines(info: &SeriesDetailedInfo, rating: &str) -> (r: Vec<String>)
    ensures
        r@.len() == 8,
        forall|i: int| 0 <= i < 8 ==> (#[trigger] r@[i])@ == details_text(info@, rating@)[i],
{
    let votes = decimal_string(info.get_rating_count() as u64);
    let rated = String::from_str(rating).concat(" (").concat(votes.as_str()).concat(")");
    let genres = join_with(info.get_genre(), " | ");
    let mut lines: Vec<String> = Vec::new();
    lines.push(details_title(info));
    lines.push(labelled("First-Aired:", info.get_first_aired()));
    lines.push(labelled("Network:", info.get_network()));
    lines.push(labelled("PG:", info.get_parental_rating()));
    lines.push(labelled("Status:", info.get_status()));
    lines.push(labelled("Runtime:", info.get_runtime()));
    lines.push(labelled("Rating:", rated.as_str()));
    lines.push(labelled("Genre:", genres.as_str()));
    lines
}

/// The overview on one line: line breaks become spaces, then each pair of
/// spaces becomes one, and the whole stands in brackets.
pub open spec fn overview_text(overview: Seq<char>) -> Seq<char> {
    "["@ + replaced(replaced(overview, "\n"@, " "@), "  "@, " "@) + "]"@
}

/// Renders the overview of a series on one line.
pub fn overview_line(info: &SeriesDetailedInfo) -> (r: String)
    ensures
        r@ == overview_text(text_or(info@.overview, "N/A"@)),
{
    proof {
        reveal_strlit("\n");
        reveal_strlit("  ");
    }
    let unbroken = replace_all(info.get_overview(), "\n", " ");
    let single = replace_all(unbroken.as_str(), "  ", " ");
    String::from_str("[").concat(single.as_str()).concat("]")
}

} // verus!
