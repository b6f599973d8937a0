//! The entities of the service and the orderings derived from them.

use vstd::prelude::*;
use vstd::string::*;

use crate::ordering::{
    in_rank_order, lemma_ranked_idempotent, lemma_ranked_in_order, lemma_ranked_items,
    lemma_ranked_keeps_readings, lemma_ranked_len, place, place_ranked, ranked, sort_ranked, Ranked,
};
use std::collections::BTreeMap;
use crate::text::{lemma_lex_le_total, lemma_lex_le_transitive, lex_le, str_le};
use crate::tvdb_errors::TvdbError;
use crate::tvdb_from::{arrived_well_before, TvdbFrom, TvdbFromMulti};
use crate::BASE_URL;

verus! {

/// The view of an optional string.
pub open spec fn opt_text(s: Option<String>) -> Option<Seq<char>> {
    match s {
        Some(t) => Some(t@),
        None => None,
    }
}

/// The text shown for an optional string: its own, or `fallback`.
pub open spec fn text_or(s: Option<Seq<char>>, fallback: Seq<char>) -> Seq<char> {
    match s {
        Some(t) => t,
        None => fallback,
    }
}

/// The view of an optional string slice.
pub open spec fn opt_str_text(s: Option<&str>) -> Option<Seq<char>> {
    match s {
        Some(t) => Some(t@),
        None => None,
    }
}

fn borrow_opt_text(s: &Option<String>) -> (r: Option<&str>)
    ensures
        opt_str_text(r) == opt_text(*s),
{
    match s {
        Some(t) => Some(t.as_str()),
        None => None,
    }
}

fn copy_opt_text(s: &Option<String>) -> (r: Option<String>)
    ensures
        r == *s,
{
    match s {
        Some(t) => Some(t.clone()),
        None => None,
    }
}

fn copy_texts(texts: &Vec<String>) -> (r: Vec<String>)
    ensures
        r@ == texts@,
{
    let mut copy: Vec<String> = Vec::new();
    let mut i: usize = 0;
    while i < texts.len()
        invariant
            i <= texts.len(),
            copy@ == texts@.take(i as int),
        decreases texts.len() - i,
    {
        copy.push(texts[i].clone());
        proof {
            assert(texts@.take(i as int).push(texts@[i as int]) =~= texts@.take(i + 1));
        }
        i += 1;
    }
    proof {
        assert(texts@.take(i as int) =~= texts@);
    }
    copy
}

/// What a search hit holds.
pub struct SeriesSearchView {
    pub id: usize,
    pub name: Seq<char>,
    pub status: Seq<char>,
    pub first_aired: Option<Seq<char>>,
}

/// One hit of a series search.
#[derive(Debug)]
pub struct SeriesSearchInfo {
    id: usize,
    name: String,
    status: String,
    first_aired: Option<String>,
}

impl View for SeriesSearchInfo {
    type V = SeriesSearchView;

    closed spec fn view(&self) -> SeriesSearchView {
        SeriesSearchView {
            id: self.id,
            name: self.name@,
            status: self.status@,
            first_aired: opt_text(self.first_aired),
        }
    }
}

impl Clone for SeriesSearchInfo {
    fn clone(&self) -> (r: Self)
        ensures
            r == *self,
    {
        SeriesSearchInfo {
            id: self.id,
            name: self.name.clone(),
            status: self.status.clone(),
            first_aired: copy_opt_text(&self.first_aired),
        }
    }
}

impl SeriesSearchInfo {
    /// A hit with the given fields.
    pub fn new(id: usize, name: String, status: String, first_aired: Option<String>) -> (r: Self)
        ensures
            r@ == (SeriesSearchView {
                id,
                name: name@,
                status: status@,
                first_aired: opt_text(first_aired),
            }),
    {
        SeriesSearchInfo { id, name, status, first_aired }
    }

    /// The first-aired date as shown: the hit's own, or `N/A` where it has none.
    pub open spec fn shown_first_aired(self) -> Seq<char> {
        text_or(self@.first_aired, "N/A"@)
    }

    pub fn get_id(&self) -> (r: usize)
        ensures
            r == self@.id,
    {
        self.id
    }

    pub fn get_name(&self) -> (r: &str)
        ensures
            r@ == self@.name,
    {
        self.name.as_str()
    }

    pub fn get_status(&self) -> (r: &str)
        ensures
            r@ == self@.status,
    {
        self.status.as_str()
    }

    pub fn get_first_aired(&self) -> (r: &str)
        ensures
            r@ == self.shown_first_aired(),
    {
        match &self.first_aired {
            Some(s) => s.as_str(),
            None => "N/A",
        }
    }

    /// The first-aired date as the service gave it, if it gave one.
    pub fn raw_first_aired(&self) -> (r: Option<&str>)
        ensures
            opt_str_text(r) == self@.first_aired,
    {
        borrow_opt_text(&self.first_aired)
    }
}

/// Search hits rank newest first: a hit may stand before another when its
/// shown first-aired date comes no earlier in the order of strings.
impl Ranked for SeriesSearchInfo {
    open spec fn ranks_le(self, other: Self) -> bool {
        lex_le(other.shown_first_aired(), self.shown_first_aired())
    }

    proof fn ranks_total(a: Self, b: Self) {
        lemma_lex_le_total(a.shown_first_aired(), b.shown_first_aired());
    }

    proof fn ranks_transitive(a: Self, b: Self, c: Self) {
        lemma_lex_le_transitive(
            c.shown_first_aired(),
            b.shown_first_aired(),
            a.shown_first_aired(),
        );
    }

    fn stands_before(&self, other: &Self) -> (r: bool) {
        str_le(other.get_first_aired(), self.get_first_aired())
    }
}

/// The ids of `hits`, in their order.
pub open spec fn hit_ids(hits: Seq<SeriesSearchInfo>) -> Seq<usize> {
    hits.map_values(|h: SeriesSearchInfo| h@.id)
}

/// Ordering hits newest first rearranges them and no more: the result is
/// in order, holds the same hits and the same ids, each as often as before,
/// and ordering it once more leaves it as it is.
pub proof fn lemma_newest_first_law(hits: Seq<SeriesSearchInfo>)
    ensures
        in_rank_order(ranked(hits)),
        ranked(hits).to_multiset() == hits.to_multiset(),
        hit_ids(ranked(hits)).to_multiset() == hit_ids(hits).to_multiset(),
        ranked(ranked(hits)) == ranked(hits),
{
    lemma_ranked_in_order(hits);
    lemma_ranked_items(hits);
    lemma_ranked_keeps_readings(hits, |h: SeriesSearchInfo| h@.id);
    lemma_ranked_idempotent(hits);
}

/// The parameters of a series search.
pub struct SeriesSearchParams {
    name: Option<String>,
}

impl View for SeriesSearchParams {
    type V = Option<Seq<char>>;

    /// The name searched for, if one was set.
    closed spec fn view(&self) -> Option<Seq<char>> {
        opt_text(self.name)
    }
}

impl SeriesSearchParams {
    /// No parameter set.
    pub fn new() -> (r: Self)
        ensures
            r@ is None,
    {
        SeriesSearchParams { name: None }
    }

    /// Sets the series name to search for.
    pub fn name(self, name: &str) -> (r: Self)
        ensures
            r@ == Some(name@),
    {
        SeriesSearchParams { name: Some(String::from_str(name)) }
    }

    /// The query string of these parameters.
    pub open spec fn query(self) -> Seq<char>
        recommends
            self@ is Some,
    {
        "name="@ + self@->Some_0
    }

    /// Renders the parameters as a query string; fails when none is set.
    pub fn get_str(&self) -> (r: Result<String, TvdbError>)
        ensures
            self@ is Some <==> r is Ok,
            r is Ok ==> r->Ok_0@ == self.query(),
            r is Err ==> r->Err_0 is Validation && r->Err_0->Validation_0@
                == "At least one search parameter should be set"@,
    {
        match &self.name {
            None => Err(
                TvdbError::Validation(
                    String::from_str("At least one search parameter should be set"),
                ),
            ),
            Some(name) => Ok(String::from_str("name=").concat(name.as_str())),
        }
    }
}

/// The hits of a series search, in the order the service gave them.
#[derive(Debug)]
pub struct SeriesSearch {
    data: Vec<SeriesSearchInfo>,
}

impl View for SeriesSearch {
    type V = Seq<SeriesSearchInfo>;

    closed spec fn view(&self) -> Seq<SeriesSearchInfo> {
        self.data@
    }
}

impl Clone for SeriesSearch {
    fn clone(&self) -> (r: Self)
        ensures
            r@ == self@,
    {
        let mut copy: Vec<SeriesSearchInfo> = Vec::new();
        let mut i: usize = 0;
        while i < self.data.len()
            invariant
                i <= self.data.len(),
                copy@ == self.data@.take(i as int),
            decreases self.data.len() - i,
        {
            copy.push(self.data[i].clone());
            proof {
                assert(self.data@.take(i as int).push(self.data@[i as int]) =~= self.data@.take(
                    i + 1,
                ));
            }
            i += 1;
        }
        proof {
            assert(self.data@.take(i as int) =~= self.data@);
        }
        SeriesSearch { data: copy }
    }
}

impl SeriesSearch {
    /// A search result with the given hits.
    pub fn new(data: Vec<SeriesSearchInfo>) -> (r: Self)
        ensures
            r@ == data@,
    {
        SeriesSearch { data }
    }

    pub fn get_series(&self) -> (r: &[SeriesSearchInfo])
        ensures
            r@ == self@,
    {
        self.data.as_slice()
    }

    /// A copy of the hits, newest first; hits with the same shown date keep
    /// their order.
    pub fn get_series_newest_first(&self) -> (r: Vec<SeriesSearchInfo>)
        ensures
            r@ == ranked(self@),
            in_rank_order(r@),
            r@.to_multiset() == self@.to_multiset(),
    {
        sort_ranked(self.clone().data)
    }
}

/// What an episode holds.
pub struct EpisodeView {
    pub season: usize,
    pub number: usize,
    pub name: Option<Seq<char>>,
    pub first_aired: Seq<char>,
}

/// One episode of a series.
#[derive(Debug)]
pub struct EpisodeInfo {
    season: usize,
    number: usize,
    name: Option<String>,
    first_aired: String,
}

impl View for EpisodeInfo {
    type V = EpisodeView;

    closed spec fn view(&self) -> EpisodeView {
        EpisodeView {
            season: self.season,
            number: self.number,
            name: opt_text(self.name),
            first_aired: self.first_aired@,
        }
    }
}

impl Clone for EpisodeInfo {
    fn clone(&self) -> (r: Self)
        ensures
            r == *self,
    {
        EpisodeInfo {
            season: self.season,
            number: self.number,
            name: copy_opt_text(&self.name),
            first_aired: self.first_aired.clone(),
        }
    }
}

impl EpisodeInfo {
    /// An episode with the given fields.
    pub fn new(season: usize, number: usize, name: Option<String>, first_aired: String) -> (r: Self)
        ensures
            r@ == (EpisodeView {
                season,
                number,
                name: opt_text(name),
                first_aired: first_aired@,
            }),
    {
        EpisodeInfo { season, number, name, first_aired }
    }

    pub fn get_season(&self) -> (r: usize)
        ensures
            r == self@.season,
    {
        self.season
    }

    pub fn get_number(&self) -> (r: usize)
        ensures
            r == self@.number,
    {
        self.number
    }

    /// The episode's name, or `N/A` where it has none.
    pub fn get_name(&self) -> (r: &str)
        ensures
            r@ == text_or(self@.name, "N/A"@),
    {
        match &self.name {
            Some(s) => s.as_str(),
            None => "N/A",
        }
    }

    /// The episode's name as the service gave it, if it gave one.
    pub fn raw_name(&self) -> (r: Option<&str>)
        ensures
            opt_str_text(r) == self@.name,
    {
        borrow_opt_text(&self.name)
    }

    pub fn get_first_aired(&self) -> (r: &str)
        ensures
            r@ == self@.first_aired,
    {
        self.first_aired.as_str()
    }
}

/// Episodes rank by their number within the season, lowest first.
impl Ranked for EpisodeInfo {
    open spec fn ranks_le(self, other: Self) -> bool {
        self@.number <= other@.number
    }

    proof fn ranks_total(a: Self, b: Self) {
    }

    proof fn ranks_transitive(a: Self, b: Self, c: Self) {
    }

    fn stands_before(&self, other: &Self) -> (r: bool) {
        self.number <= other.number
    }
}

/// The first and last page of a paginated answer.
#[derive(Debug, Clone, Copy)]
pub struct PageLinks {
    pub first: usize,
    pub last: usize,
}

/// What an episode list holds.
pub struct EpisodeListView {
    pub series_name: Option<Seq<char>>,
    pub links: PageLinks,
    pub episodes: Seq<EpisodeInfo>,
}

/// The episodes of a series, page after page.
#[derive(Debug)]
pub struct EpisodeList {
    series_name: Option<String>,
    links: PageLinks,
    data: Vec<EpisodeInfo>,
}

impl View for EpisodeList {
    type V = EpisodeListView;

    closed spec fn view(&self) -> EpisodeListView {
        EpisodeListView {
            series_name: opt_text(self.series_name),
            links: self.links,
            episodes: self.data@,
        }
    }
}

impl Clone for EpisodeList {
    fn clone(&self) -> (r: Self)
        ensures
            r@ == self@,
    {
        let mut copy: Vec<EpisodeInfo> = Vec::new();
        let mut i: usize = 0;
        while i < self.data.len()
            invariant
                i <= self.data.len(),
                copy@ == self.data@.take(i as int),
            decreases self.data.len() - i,
        {
            copy.push(self.data[i].clone());
            proof {
                assert(self.data@.take(i as int).push(self.data@[i as int]) =~= self.data@.take(
                    i + 1,
                ));
            }
            i += 1;
        }
        proof {
            assert(self.data@.take(i as int) =~= self.data@);
        }
        EpisodeList { series_name: copy_opt_text(&self.series_name), links: self.links, data: copy }
    }
}

/// The episodes of `eps` that belong to `season`, in their order.
pub open spec fn in_season(eps: Seq<EpisodeInfo>, season: usize) -> Seq<EpisodeInfo> {
    eps.filter(|e: EpisodeInfo| e@.season == season)
}

/// The episodes of `season` as its bucket lists them: by episode number,
/// episodes with the same number in the order of the list.
pub open spec fn season_bucket(eps: Seq<EpisodeInfo>, season: usize) -> Seq<EpisodeInfo> {
    ranked(in_season(eps, season))
}

/// Taking one more episode into account adds it to its own season's
/// bucket and leaves the others as they were.
proof fn lemma_bucket_step(eps: Seq<EpisodeInfo>, i: int, season: usize)
    requires
        0 <= i < eps.len(),
    ensures
        eps[i]@.season == season ==> in_season(eps.take(i + 1), season) == in_season(
            eps.take(i),
            season,
        ).push(eps[i]) && season_bucket(eps.take(i + 1), season) == place(
            season_bucket(eps.take(i), season),
            eps[i],
        ),
        eps[i]@.season != season ==> in_season(eps.take(i + 1), season) == in_season(
            eps.take(i),
            season,
        ),
{
    let pred = |e: EpisodeInfo| e@.season == season;
    let before = eps.take(i);
    assert(before.push(eps[i]) =~= eps.take(i + 1));
    before.lemma_filter_push(eps[i], pred);
    if eps[i]@.season == season {
        let kept = in_season(before, season);
        assert(kept.push(eps[i]).drop_last() =~= kept);
    }
}

impl EpisodeList {
    /// An episode list with the given fields.
    pub fn new(series_name: Option<String>, links: PageLinks, data: Vec<EpisodeInfo>) -> (r: Self)
        ensures
            r@ == (EpisodeListView {
                series_name: opt_text(series_name),
                links,
                episodes: data@,
            }),
    {
        EpisodeList { series_name, links, data }
    }

    /// The same list under the given series name.
    pub fn with_series_name(self, series_name: &str) -> (r: Self)
        ensures
            r@ == (EpisodeListView { series_name: Some(series_name@), ..self@ }),
    {
        EpisodeList {
            series_name: Some(String::from_str(series_name)),
            links: self.links,
            data: self.data,
        }
    }

    /// The series name, or the empty string where none was set.
    pub fn get_series_name(&self) -> (r: &str)
        ensures
            r@ == text_or(self@.series_name, Seq::empty()),
    {
        match &self.series_name {
            Some(s) => s.as_str(),
            None => {
                proof {
                    reveal_strlit("");
                }
                assert(""@ =~= Seq::<char>::empty());
                ""
            },
        }
    }

    pub fn get_links(&self) -> (r: PageLinks)
        ensures
            r == self@.links,
    {
        self.links
    }

    /// The series name as it was set, if it was.
    pub fn raw_series_name(&self) -> (r: Option<&str>)
        ensures
            opt_str_text(r) == self@.series_name,
    {
        borrow_opt_text(&self.series_name)
    }

    pub fn get_episode_list(&self) -> (r: &[EpisodeInfo])
        ensures
            r@ == self@.episodes,
    {
        self.data.as_slice()
    }

    /// The seasons that have episodes, each once, in ascending order.
    pub fn seasons(&self) -> (r: Vec<usize>)
        ensures
            strictly_ascending(r@),
            forall|s: usize| #[trigger] r@.contains(s) <==> in_season(self@.episodes, s).len() > 0,
    {
        let mut seasons: Vec<usize> = Vec::new();
        let mut i: usize = 0;
        proof {
            assert forall|s: usize| in_season(self.data@.take(0), s).len() == 0 by {
                self.data@.take(0).lemma_filter_len(|e: EpisodeInfo| e@.season == s);
            }
        }
        while i < self.data.len()
            invariant
                i <= self.data.len(),
                strictly_ascending(seasons@),
                forall|s: usize| #[trigger]
                    seasons@.contains(s) <==> in_season(self.data@.take(i as int), s).len() > 0,
            decreases self.data.len() - i,
        {
            insert_id(&mut seasons, self.data[i].season);
            proof {
                assert forall|s: usize| #[trigger]
                    seasons@.contains(s) <==> in_season(self.data@.take(i + 1), s).len() > 0 by {
                    lemma_bucket_step(self.data@, i as int, s);
                }
            }
            i += 1;
        }
        proof {
            assert(self.data@.take(i as int) =~= self.data@);
        }
        seasons
    }

    /// Groups the episodes by season. A season has a bucket exactly when an
    /// episode belongs to it, and the bucket lists that season's episodes by
    /// episode number.
    pub fn list_by_season(&self) -> (r: BTreeMap<usize, Vec<EpisodeInfo>>)
        ensures
            forall|s: usize| #[trigger]
                r@.contains_key(s) <==> in_season(self@.episodes, s).len() > 0,
            forall|s: usize| #[trigger]
                r@.contains_key(s) ==> r@[s]@ == season_bucket(self@.episodes, s),
    {
        let mut by_season: BTreeMap<usize, Vec<EpisodeInfo>> = BTreeMap::new();
        let mut i: usize = 0;
        proof {
            assert forall|s: usize| in_season(self.data@.take(0), s).len() == 0 by {
                self.data@.take(0).lemma_filter_len(|e: EpisodeInfo| e@.season == s);
            }
        }
        while i < self.data.len()
            invariant
                i <= self.data.len(),
                forall|s: usize| #[trigger]
                    by_season@.contains_key(s) <==> in_season(self.data@.take(i as int), s).len()
                        > 0,
                forall|s: usize| #[trigger]
                    by_season@.contains_key(s) ==> by_season@[s]@ == season_bucket(
                        self.data@.take(i as int),
                        s,
                    ),
            decreases self.data.len() - i,
        {
            let episode = self.data[i].clone();
            let season = episode.season;
            let ghost before = by_season@;
            let mut bucket = match by_season.remove(&season) {
                Some(b) => b,
                None => Vec::new(),
            };
            proof {
                if !before.contains_key(season) {
                    assert(in_season(self.data@.take(i as int), season) =~= Seq::empty());
                }
                assert(bucket@ == season_bucket(self.data@.take(i as int), season));
            }
            place_ranked(&mut bucket, episode);
            by_season.insert(season, bucket);
            proof {
                assert forall|s: usize| #[trigger]
                    by_season@.contains_key(s) <==> in_season(self.data@.take(i + 1), s).len()
                        > 0 by {
                    lemma_bucket_step(self.data@, i as int, s);
                }
                assert forall|s: usize| #[trigger]
                    by_season@.contains_key(s) implies by_season@[s]@ == season_bucket(
                    self.data@.take(i + 1),
                    s,
                ) by {
                    lemma_bucket_step(self.data@, i as int, s);
                }
            }
            i += 1;
        }
        proof {
            assert(self.data@.take(i as int) =~= self.data@);
        }
        by_season
    }
}

/// A summary of one season of an episode list.
#[derive(Debug)]
pub struct SeasonInfo {
    id: usize,
    episode_count: usize,
    first_aired: String,
    last_aired: String,
}

/// What a season summary holds.
pub struct SeasonView {
    pub id: usize,
    pub episode_count: usize,
    pub first_aired: Seq<char>,
    pub last_aired: Seq<char>,
}

impl View for SeasonInfo {
    type V = SeasonView;

    closed spec fn view(&self) -> SeasonView {
        SeasonView {
            id: self.id,
            episode_count: self.episode_count,
            first_aired: self.first_aired@,
            last_aired: self.last_aired@,
        }
    }
}

/// The summary of season `id` of the episodes `eps`: how many episodes it
/// has, and the first-aired dates of the first and of the last episode of
/// its bucket.
pub open spec fn season_summary(eps: Seq<EpisodeInfo>, id: usize) -> SeasonView
    recommends
        in_season(eps, id).len() > 0,
{
    SeasonView {
        id,
        episode_count: in_season(eps, id).len() as usize,
        first_aired: season_bucket(eps, id).first()@.first_aired,
        last_aired: season_bucket(eps, id).last()@.first_aired,
    }
}

impl SeasonInfo {
    pub fn get_id(&self) -> (r: usize)
        ensures
            r == self@.id,
    {
        self.id
    }

    pub fn get_episode_count(&self) -> (r: usize)
        ensures
            r == self@.episode_count,
    {
        self.episode_count
    }

    pub fn get_first_aired(&self) -> (r: &str)
        ensures
            r@ == self@.first_aired,
    {
        self.first_aired.as_str()
    }

    pub fn get_last_aired(&self) -> (r: &str)
        ensures
            r@ == self@.last_aired,
    {
        self.last_aired.as_str()
    }

    /// Summarises season `id` of `list`: how many episodes it has, and the
    /// first-aired dates of the first and of the last episode of its bucket.
    /// There is no summary of a season without episodes.
    pub fn from_episode_list(list: &EpisodeList, id: usize) -> (r: Option<Self>)
        ensures
            r is Some <==> in_season(list@.episodes, id).len() > 0,
            r is Some ==> r->Some_0@ == season_summary(list@.episodes, id),
    {
        let by_season = list.list_by_season();
        proof {
            lemma_ranked_len(in_season(list@.episodes, id));
        }
        match by_season.get(&id) {
            Some(episodes) => {
                let episode_count = episodes.len();
                let first_aired = episodes[0].first_aired.clone();
                let last_aired = episodes[episode_count - 1].first_aired.clone();
                Some(SeasonInfo { id, episode_count, first_aired, last_aired })
            },
            None => None,
        }
    }
}

/// A season has episodes exactly when some episode of the list names it.
pub proof fn lemma_season_present(eps: Seq<EpisodeInfo>, season: usize)
    ensures
        in_season(eps, season).len() > 0 <==> exists|k: int|
            0 <= k < eps.len() && (#[trigger] eps[k])@.season == season,
{
    let pred = |e: EpisodeInfo| e@.season == season;
    if in_season(eps, season).len() > 0 {
        let e = in_season(eps, season)[0];
        eps.lemma_filter_pred(pred, 0);
        assert(eps.filter(pred).contains(e));
        eps.lemma_filter_contains_rev(pred, e);
        let k = choose|k: int| 0 <= k < eps.len() && eps[k] == e;
        assert(eps[k]@.season == season);
    }
    if exists|k: int| 0 <= k < eps.len() && (#[trigger] eps[k])@.season == season {
        let k = choose|k: int| 0 <= k < eps.len() && (#[trigger] eps[k])@.season == season;
        eps.lemma_filter_contains(pred, k);
    }
}

/// Every episode stands in the bucket of its own season, as often as in the
/// list, and in no other bucket; and every bucket is in order of episode
/// number.
pub proof fn lemma_season_buckets_partition(eps: Seq<EpisodeInfo>, e: EpisodeInfo, season: usize)
    ensures
        season_bucket(eps, season).to_multiset().count(e) == if e@.season == season {
            eps.to_multiset().count(e)
        } else {
            0
        },
        in_rank_order(season_bucket(eps, season)),
{
    lemma_ranked_items(in_season(eps, season));
    lemma_ranked_in_order(in_season(eps, season));
    lemma_in_season_count(eps, e, season);
}

/// Filtering by season keeps each episode of that season as often as it
/// occurs, and none of another season.
proof fn lemma_in_season_count(eps: Seq<EpisodeInfo>, e: EpisodeInfo, season: usize)
    ensures
        in_season(eps, season).to_multiset().count(e) == if e@.season == season {
            eps.to_multiset().count(e)
        } else {
            0
        },
    decreases eps.len(),
{
    broadcast use vstd::seq_lib::group_to_multiset_ensures;

    let pred = |x: EpisodeInfo| x@.season == season;
    if eps.len() == 0 {
        eps.lemma_filter_len(pred);
        assert(in_season(eps, season) =~= Seq::empty());
        assert(eps =~= Seq::empty());
    } else {
        let front = eps.drop_last();
        lemma_in_season_count(front, e, season);
        front.lemma_filter_push(eps.last(), pred);
        assert(front.push(eps.last()) =~= eps);
    }
}

/// What the detailed description of a series holds.
pub struct SeriesDetailedView {
    pub id: usize,
    pub name: Option<Seq<char>>,
    pub status: Seq<char>,
    pub aliases: Seq<String>,
    pub first_aired: Seq<char>,
    pub runtime: Seq<char>,
    pub network: Seq<char>,
    pub genre: Seq<String>,
    pub parental_rating: Option<Seq<char>>,
    pub rating_bits: u64,
    pub rating_count: usize,
    pub overview: Option<Seq<char>>,
}

/// The detailed description of one series. Name, parental rating and
/// overview stay optional as the service gave them; the accessors put a
/// fixed text in the place of a missing one. The site rating is held as the
/// bit pattern of its binary64 value.
#[derive(Debug)]
pub struct SeriesDetailedInfo {
    id: usize,
    name: Option<String>,
    status: String,
    aliases: Vec<String>,
    first_aired: String,
    runtime: String,
    network: String,
    genre: Vec<String>,
    parental_rating: Option<String>,
    rating_bits: u64,
    rating_count: usize,
    overview: Option<String>,
}

impl View for SeriesDetailedInfo {
    type V = SeriesDetailedView;

    closed spec fn view(&self) -> SeriesDetailedView {
        SeriesDetailedView {
            id: self.id,
            name: opt_text(self.name),
            status: self.status@,
            aliases: self.aliases@,
            first_aired: self.first_aired@,
            runtime: self.runtime@,
            network: self.network@,
            genre: self.genre@,
            parental_rating: opt_text(self.parental_rating),
            rating_bits: self.rating_bits,
            rating_count: self.rating_count,
            overview: opt_text(self.overview),
        }
    }
}

impl Clone for SeriesDetailedInfo {
    fn clone(&self) -> (r: Self)
        ensures
            r@ == self@,
    {
        SeriesDetailedInfo {
            id: self.id,
            name: copy_opt_text(&self.name),
            status: self.status.clone(),
            aliases: copy_texts(&self.aliases),
            first_aired: self.first_aired.clone(),
            runtime: self.runtime.clone(),
            network: self.network.clone(),
            genre: copy_texts(&self.genre),
            parental_rating: copy_opt_text(&self.parental_rating),
            rating_bits: self.rating_bits,
            rating_count: self.rating_count,
            overview: copy_opt_text(&self.overview),
        }
    }
}

impl SeriesDetailedInfo {
    /// A description with the given fields.
    pub fn new(
        id: usize,
        name: Option<String>,
        status: String,
        aliases: Vec<String>,
        first_aired: String,
        runtime: String,
        network: String,
        genre: Vec<String>,
        parental_rating: Option<String>,
        rating_bits: u64,
        rating_count: usize,
        overview: Option<String>,
    ) -> (r: Self)
        ensures
            r@ == (SeriesDetailedView {
                id,
                name: opt_text(name),
                status: status@,
                aliases: aliases@,
                first_aired: first_aired@,
                runtime: runtime@,
                network: network@,
                genre: genre@,
                parental_rating: opt_text(parental_rating),
                rating_bits,
                rating_count,
                overview: opt_text(overview),
            }),
    {
        SeriesDetailedInfo {
            id,
            name,
            status,
            aliases,
            first_aired,
            runtime,
            network,
            genre,
            parental_rating,
            rating_bits,
            rating_count,
            overview,
        }
    }

    pub fn get_id(&self) -> (r: usize)
        ensures
            r == self@.id,
    {
        self.id
    }

    /// The series name, or the empty string where it has none.
    pub fn get_name(&self) -> (r: &str)
        ensures
            r@ == text_or(self@.name, Seq::empty()),
    {
        match &self.name {
            Some(s) => s.as_str(),
            None => {
                proof {
                    reveal_strlit("");
                }
                assert(""@ =~= Seq::<char>::empty());
                ""
            },
        }
    }

    pub fn get_status(&self) -> (r: &str)
        ensures
            r@ == self@.status,
    {
        self.status.as_str()
    }

    pub fn get_aliases(&self) -> (r: &[String])
        ensures
            r@ == self@.aliases,
    {
        self.aliases.as_slice()
    }

    pub fn get_first_aired(&self) -> (r: &str)
        ensures
            r@ == self@.first_aired,
    {
        self.first_aired.as_str()
    }

    pub fn get_runtime(&self) -> (r: &str)
        ensures
            r@ == self@.runtime,
    {
        self.runtime.as_str()
    }

    pub fn get_network(&self) -> (r: &str)
        ensures
            r@ == self@.network,
    {
        self.network.as_str()
    }

    pub fn get_genre(&self) -> (r: &[String])
        ensures
            r@ == self@.genre,
    {
        self.genre.as_slice()
    }

    /// The parental rating, or `N/A` where it has none.
    pub fn get_parental_rating(&self) -> (r: &str)
        ensures
            r@ == text_or(self@.parental_rating, "N/A"@),
    {
        match &self.parental_rating {
            Some(s) => s.as_str(),
            None => "N/A",
        }
    }

    /// The bit pattern of the site rating.
    pub fn get_rating_bits(&self) -> (r: u64)
        ensures
            r == self@.rating_bits,
    {
        self.rating_bits
    }

    pub fn get_rating_count(&self) -> (r: usize)
        ensures
            r == self@.rating_count,
    {
        self.rating_count
    }

    /// The overview, or `N/A` where it has none.
    pub fn get_overview(&self) -> (r: &str)
        ensures
            r@ == text_or(self@.overview, "N/A"@),
    {
        match &self.overview {
            Some(s) => s.as_str(),
            None => "N/A",
        }
    }

    /// The series name as the service gave it, if it gave one.
    pub fn raw_name(&self) -> (r: Option<&str>)
        ensures
            opt_str_text(r) == self@.name,
    {
        borrow_opt_text(&self.name)
    }

    /// The parental rating as the service gave it, if it gave one.
    pub fn raw_parental_rating(&self) -> (r: Option<&str>)
        ensures
            opt_str_text(r) == self@.parental_rating,
    {
        borrow_opt_text(&self.parental_rating)
    }

    /// The overview as the service gave it, if it gave one.
    pub fn raw_overview(&self) -> (r: Option<&str>)
        ensures
            opt_str_text(r) == self@.overview,
    {
        borrow_opt_text(&self.overview)
    }

    /// Whether `genre` is among the genres of the series.
    pub fn has_genre(&self, genre: &str) -> (r: bool)
        ensures
            r <==> exists|i: int| 0 <= i < self@.genre.len() && (#[trigger] self@.genre[i])@ == genre@,
    {
        let mut i: usize = 0;
        while i < self.genre.len()
            invariant
                i <= self.genre.len(),
                forall|k: int| 0 <= k < i ==> (#[trigger] self.genre@[k])@ != genre@,
            decreases self.genre.len() - i,
        {
            if str_eq(self.genre[i].as_str(), genre) {
                assert(self@.genre[i as int]@ == genre@);
                return true;
            }
            i += 1;
        }
        false
    }
}

/// Seconds in a week.
pub const WEEK_SECONDS: u64 = 604800;

/// Whether every id is smaller than each id behind it.
pub open spec fn strictly_ascending(s: Seq<usize>) -> bool {
    forall|i: int, j: int| 0 <= i < j < s.len() ==> s[i] < s[j]
}

/// Whether one of the windows that were answered lists `id`.
pub open spec fn some_answer_lists(outcomes: Seq<Result<Updated, TvdbError>>, id: usize) -> bool {
    exists|w: int|
        0 <= w < outcomes.len() && (#[trigger] outcomes[w]) is Ok && outcomes[w]->Ok_0@.contains(id)
}

/// Whether `r` is what asking the windows one after the other ends in,
/// given their outcomes in the order asked. Where every window was
/// answered, it is the merged feed: every id that some window lists, once,
/// in ascending order. Otherwise it is the failure of the first window that
/// failed.
pub open spec fn is_feed(
    outcomes: Seq<Result<Updated, TvdbError>>,
    r: Result<Updated, TvdbError>,
) -> bool {
    &&& arrived_well_before(outcomes, outcomes.len() as int) ==> {
        &&& r is Ok
        &&& strictly_ascending(r->Ok_0@)
        &&& forall|id: usize| #[trigger] r->Ok_0@.contains(id) <==> some_answer_lists(outcomes, id)
    }
    &&& forall|k: int|
        0 <= k < outcomes.len() && (#[trigger] outcomes[k]) is Err && arrived_well_before(
            outcomes,
            k,
        ) ==> r is Err && r->Err_0 == outcomes[k]->Err_0
}

/// Whether one of `windows` lists `id`.
pub open spec fn some_window_lists(windows: Seq<Updated>, id: usize) -> bool {
    exists|w: int| 0 <= w < windows.len() && (#[trigger] windows[w])@.contains(id)
}

/// The start of window `i` among the `num` weekly windows that end
/// `offset` weeks before `now`. The last of them starts one week before
/// that end.
pub open spec fn week_start(now: u64, offset: u64, num: u64, i: int) -> int {
    now - (offset + num - i) * WEEK_SECONDS
}

/// Whether the `num` weekly windows that end `offset` weeks before `now`
/// all start at the epoch or later, and are few enough to list.
pub open spec fn weeks_fit(now: u64, offset: u64, num: u64) -> bool {
    (offset + num) * WEEK_SECONDS <= now && num <= usize::MAX
}

/// What `weeks_at` makes of a clock reading. A clock that could not be
/// read against the epoch is refused with the cause it gave. Weeks that do
/// not fit are refused. Otherwise the answer is the weekly starts, earliest
/// first.
pub open spec fn weeks_outcome(
    clock: Result<u64, String>,
    offset: u64,
    num: u64,
    r: Result<Vec<u64>, TvdbError>,
) -> bool {
    match clock {
        Err(cause) => r == Err::<Vec<u64>, TvdbError>(TvdbError::Validation(cause)),
        Ok(now) => if weeks_fit(now, offset, num) {
            &&& r is Ok
            &&& r->Ok_0@.len() == num
            &&& forall|i: int|
                0 <= i < num ==> (#[trigger] r->Ok_0@[i]) == week_start(now, offset, num, i)
        } else {
            &&& r is Err
            &&& r->Err_0 is Validation
            &&& r->Err_0->Validation_0@ == "the weeks asked for start before the epoch"@
        },
    }
}

/// The ids of the series that changed in some span of time.
#[derive(Debug)]
pub struct Updated {
    data: Vec<usize>,
}

impl View for Updated {
    type V = Seq<usize>;

    closed spec fn view(&self) -> Seq<usize> {
        self.data@
    }
}

/// Puts `id` into the strictly ascending `ids` unless it is there already.
fn insert_id(ids: &mut Vec<usize>, id: usize)
    requires
        strictly_ascending(old(ids)@),
    ensures
        strictly_ascending(final(ids)@),
        forall|x: usize| #[trigger] final(ids)@.contains(x) <==> old(ids)@.contains(x) || x == id,
{
    let mut k: usize = 0;
    while k < ids.len() && ids[k] < id
        invariant
            k <= ids.len(),
            ids@ == old(ids)@,
            forall|j: int| 0 <= j < k ==> ids@[j] < id,
        decreases ids.len() - k,
    {
        k += 1;
    }
    if k < ids.len() && ids[k] == id {
        assert(ids@.contains(id));
    } else {
        let ghost before = ids@;
        ids.insert(k, id);
        proof {
            let after = ids@;
            assert(after[k as int] == id);
            assert forall|x: usize| #[trigger] after.contains(x) <==> before.contains(x) || x == id by {
                if before.contains(x) {
                    let j = choose|j: int| 0 <= j < before.len() && before[j] == x;
                    if j < k {
                        assert(after[j] == x);
                    } else {
                        assert(after[j + 1] == x);
                    }
                }
                if after.contains(x) && x != id {
                    let j = choose|j: int| 0 <= j < after.len() && after[j] == x;
                    if j < k {
                        assert(before[j] == x);
                    } else {
                        assert(before[j - 1] == x);
                    }
                }
            }
        }
    }
}

impl Clone for Updated {
    fn clone(&self) -> (r: Self)
        ensures
            r@ == self@,
    {
        Updated { data: self.get_ids() }
    }
}

impl Updated {
    /// A feed answer with the given ids.
    pub fn new(data: Vec<usize>) -> (r: Self)
        ensures
            r@ == data@,
    {
        Updated { data }
    }

    pub fn get_ids(&self) -> (r: Vec<usize>)
        ensures
            r@ == self@,
    {
        let mut ids: Vec<usize> = Vec::new();
        let mut i: usize = 0;
        while i < self.data.len()
            invariant
                i <= self.data.len(),
                ids@ == self.data@.take(i as int),
            decreases self.data.len() - i,
        {
            ids.push(self.data[i]);
            proof {
                assert(self.data@.take(i as int).push(self.data@[i as int]) =~= self.data@.take(
                    i + 1,
                ));
            }
            i += 1;
        }
        proof {
            assert(self.data@.take(i as int) =~= self.data@);
        }
        ids
    }

    /// The starts of the `num` weekly windows that end `offset` weeks before
    /// `now`, earliest first: one start for each week asked for.
    pub fn week_starts(now: u64, offset: u64, num: u64) -> (r: Vec<u64>)
        requires
            weeks_fit(now, offset, num),
        ensures
            r@.len() == num,
            forall|i: int| 0 <= i < num ==> (#[trigger] r@[i]) == week_start(now, offset, num, i),
    {
        proof {
            assert(offset * WEEK_SECONDS + num * WEEK_SECONDS == (offset + num) * WEEK_SECONDS)
                by (nonlinear_arith);
        }
        let end: u64 = now - offset * WEEK_SECONDS;
        let mut start: u64 = end - num * WEEK_SECONDS;
        let mut starts: Vec<u64> = Vec::new();
        let mut i: u64 = 0;
        while i < num
            invariant
                i <= num,
                num <= usize::MAX,
                (offset + num) * WEEK_SECONDS <= now,
                starts@.len() == i,
                start == week_start(now, offset, num, i as int),
                forall|k: int|
                    0 <= k < i ==> (#[trigger] starts@[k]) == week_start(now, offset, num, k),
            decreases num - i,
        {
            proof {
                assert((offset + num - (i + 1)) * WEEK_SECONDS == (offset + num - i) * WEEK_SECONDS
                    - WEEK_SECONDS) by (nonlinear_arith);
                assert((offset + num - (i + 1)) * WEEK_SECONDS >= 0) by (nonlinear_arith)
                    requires
                        offset + num - (i + 1) >= 0,
                ;
            }
            starts.push(start);
            start = start + WEEK_SECONDS;
            i = i + 1;
        }
        starts
    }

    /// The weekly window starts for a clock reading: the seconds since the
    /// epoch, or why there are none. There are no starts when the clock
    /// could not be read against the epoch, nor when the earliest window
    /// would start before it.
    pub fn weeks_at(clock: Result<u64, String>, offset: u64, num: u64) -> (r: Result<
        Vec<u64>,
        TvdbError,
    >)
        ensures
            weeks_outcome(clock, offset, num, r),
    {
        match clock {
            Err(cause) => Err(TvdbError::Validation(cause)),
            Ok(now) => {
                let weeks: u128 = offset as u128 + num as u128;
                proof {
                    assert(weeks * WEEK_SECONDS <= 0x2_0000_0000_0000_0000 * 604800)
                        by (nonlinear_arith)
                        requires
                            0 <= weeks <= 0x2_0000_0000_0000_0000,
                            WEEK_SECONDS == 604800,
                    ;
                }
                let span: u128 = weeks * (WEEK_SECONDS as u128);
                if span <= now as u128 && num <= usize::MAX as u64 {
                    Ok(Self::week_starts(now, offset, num))
                } else {
                    Err(
                        TvdbError::Validation(
                            String::from_str("the weeks asked for start before the epoch"),
                        ),
                    )
                }
            },
        }
    }

    /// The weekly window starts counted back from the present time, as the
    /// system clock gives it.
    pub fn weeks_until_now(offset: u64, num: u64) -> (r: Result<Vec<u64>, TvdbError>)
        ensures
            exists|clock: Result<u64, String>| weeks_outcome(clock, offset, num, r),
    {
        let now = system_now();
        let clock = seconds_since_epoch(&now);
        let r = Self::weeks_at(clock, offset, num);
        assert(weeks_outcome(clock, offset, num, r));
        r
    }

    /// Ends a run over the weekly windows, given the outcome of each window
    /// in the order asked: the merged feed, or the failure of the first
    /// window that failed.
    pub fn from_windows(outcomes: Vec<Result<Updated, TvdbError>>) -> (r: Result<Updated, TvdbError>)
        ensures
            is_feed(outcomes@, r),
    {
        let ghost whole = outcomes@;
        let mut rest = outcomes;
        let mut windows: Vec<Updated> = Vec::new();
        let mut done: usize = 0;
        let total: usize = rest.len();
        while done < total
            invariant
                whole == outcomes@,
                total == whole.len(),
                done <= total,
                rest@ == whole.skip(done as int),
                arrived_well_before(whole, done as int),
                windows@.len() == done,
                forall|j: int| 0 <= j < done ==> (#[trigger] whole[j]) == Ok::<Updated, TvdbError>(windows@[j]),
            decreases total - done,
        {
            let outcome = rest.remove(0);
            proof {
                assert(outcome == whole[done as int]);
                assert(whole.skip(done as int).remove(0) =~= whole.skip(done + 1));
            }
            match outcome {
                Ok(window) => {
                    windows.push(window);
                },
                Err(e) => {
                    proof {
                        assert forall|k: int|
                            0 <= k < whole.len() && (#[trigger] whole[k]) is Err
                                && arrived_well_before(whole, k) implies k == done by {
                            if k > done {
                                assert(whole[done as int] is Ok);
                            }
                        }
                    }
                    return Err(e);
                },
            }
            done += 1;
        }
        let merged = Self::merged(&windows);
        proof {
            assert forall|id: usize| #[trigger]
                merged@.contains(id) <==> some_answer_lists(whole, id) by {
                if some_window_lists(windows@, id) {
                    let w = choose|w: int|
                        0 <= w < windows@.len() && (#[trigger] windows@[w])@.contains(id);
                    assert(whole[w] == Ok::<Updated, TvdbError>(windows@[w]));
                }
                if some_answer_lists(whole, id) {
                    let w = choose|w: int|
                        0 <= w < whole.len() && (#[trigger] whole[w]) is Ok
                            && whole[w]->Ok_0@.contains(id);
                    assert(windows@[w]@.contains(id));
                }
            }
        }
        Ok(merged)
    }

    /// Merges the answers for several windows into one: every id that some
    /// window lists, once, in ascending order.
    pub fn merged(windows: &Vec<Updated>) -> (r: Self)
        ensures
            strictly_ascending(r@),
            forall|id: usize| #[trigger] r@.contains(id) <==> some_window_lists(windows@, id),
    {
        let mut ids: Vec<usize> = Vec::new();
        let mut w: usize = 0;
        while w < windows.len()
            invariant
                w <= windows.len(),
                strictly_ascending(ids@),
                forall|id: usize| #[trigger]
                    ids@.contains(id) <==> some_window_lists(windows@.take(w as int), id),
            decreases windows.len() - w,
        {
            let window = &windows[w];
            let ghost at_start = ids@;
            let mut i: usize = 0;
            while i < window.data.len()
                invariant
                    i <= window.data.len(),
                    strictly_ascending(ids@),
                    forall|id: usize| #[trigger]
                        ids@.contains(id) <==> at_start.contains(id) || window.data@.take(
                            i as int,
                        ).contains(id),
                decreases window.data.len() - i,
            {
                let ghost before = ids@;
                insert_id(&mut ids, window.data[i]);
                proof {
                    let seen = window.data@.take(i as int);
                    let next = window.data@.take(i + 1);
                    assert(next =~= seen.push(window.data@[i as int]));
                    assert forall|id: usize| #[trigger]
                        ids@.contains(id) <==> at_start.contains(id) || next.contains(id) by {
                        if seen.contains(id) {
                            let j = choose|j: int| 0 <= j < seen.len() && seen[j] == id;
                            assert(next[j] == id);
                        }
                        if next.contains(id) {
                            let j = choose|j: int| 0 <= j < next.len() && next[j] == id;
                            if j < i {
                                assert(seen[j] == id);
                            }
                        }
                        assert(next[i as int] == window.data@[i as int]);
                    }
                }
                i += 1;
            }
            proof {
                assert(window.data@.take(i as int) =~= window.data@);
                let earlier = windows@.take(w as int);
                let now = windows@.take(w + 1);
                assert(now =~= earlier.push(*window));
                assert forall|id: usize| #[trigger]
                    ids@.contains(id) <==> some_window_lists(now, id) by {
                    if some_window_lists(earlier, id) {
                        let k = choose|k: int|
                            0 <= k < earlier.len() && (#[trigger] earlier[k])@.contains(id);
                        assert(now[k]@.contains(id));
                    }
                    if window@.contains(id) {
                        assert(now[w as int]@.contains(id));
                    }
                    if some_window_lists(now, id) {
                        let k = choose|k: int| 0 <= k < now.len() && (#[trigger] now[k])@.contains(id);
                        if k < w {
                            assert(earlier[k]@.contains(id));
                        }
                    }
                }
            }
            w += 1;
        }
        proof {
            assert(windows@.take(w as int) =~= windows@);
        }
        Updated { data: ids }
    }
}

/// Compares two strings for equality of their text.
fn str_eq(a: &str, b: &str) -> (r: bool)
    ensures
        r == (a@ == b@),
{
    let left = String::from_str(a);
    let right = String::from_str(b);
    left == right
}

/// A point in time as the system clock gives it.
#[verifier::external_type_specification]
#[verifier::external_body]
pub struct ExSystemTime(std::time::SystemTime);

/// Reads the system clock with `SystemTime::now`. Nothing is claimed of the
/// reading.
#[verifier::external_body]
fn system_now() -> (r: std::time::SystemTime) {
    std::time::SystemTime::now()
}

/// Measures `time` against the epoch with `SystemTime::duration_since`, and
/// gives the whole seconds of the duration, or, for a time before the
/// epoch, the text of the error. Nothing is claimed of the result.
#[verifier::external_body]
fn seconds_since_epoch(time: &std::time::SystemTime) -> (r: Result<u64, String>) {
    match time.duration_since(std::time::UNIX_EPOCH) {
        Ok(elapsed) => Ok(elapsed.as_secs()),
        Err(e) => Err(e.to_string()),
    }
}

/// The updated feed is asked by the time from which changes count.
impl TvdbFrom for Updated {
    open spec fn resource_url(id: Seq<char>) -> Seq<char> {
        BASE_URL@ + "/updated/query?fromTime="@ + id
    }

    fn url_from_id(id: &str) -> (r: String) {
        String::from_str(BASE_URL).concat("/updated/query?fromTime=").concat(id)
    }
}

/// A search is asked by its query string.
impl TvdbFrom for SeriesSearch {
    open spec fn resource_url(id: Seq<char>) -> Seq<char> {
        BASE_URL@ + "/search/series?"@ + id
    }

    fn url_from_id(id: &str) -> (r: String) {
        String::from_str(BASE_URL).concat("/search/series?").concat(id)
    }
}

impl SeriesSearch {
    /// The address to ask for a search with the given parameters; fails
    /// when no parameter is set.
    pub fn url_from_params(params: &SeriesSearchParams) -> (r: Result<String, TvdbError>)
        ensures
            params@ is Some <==> r is Ok,
            r is Ok ==> r->Ok_0@ == Self::resource_url(params.query()),
            r is Err ==> r->Err_0 is Validation && r->Err_0->Validation_0@
                == "At least one search parameter should be set"@,
    {
        match params.get_str() {
            Ok(query) => Ok(Self::url_from_id(query.as_str())),
            Err(e) => Err(e),
        }
    }
}

/// The details of a series are asked by the series id.
impl TvdbFrom for SeriesDetailedInfo {
    open spec fn resource_url(id: Seq<char>) -> Seq<char> {
        BASE_URL@ + "/series/"@ + id
    }

    fn url_from_id(id: &str) -> (r: String) {
        String::from_str(BASE_URL).concat("/series/").concat(id)
    }
}

/// The episodes of a series are asked by the series id.
impl TvdbFrom for EpisodeList {
    open spec fn resource_url(id: Seq<char>) -> Seq<char> {
        BASE_URL@ + "/series/"@ + id + "/episodes"@
    }

    fn url_from_id(id: &str) -> (r: String) {
        String::from_str(BASE_URL).concat("/series/").concat(id).concat("/episodes")
    }
}

/// Episode lists come in pages; the last page's number is the page count.
impl TvdbFromMulti for EpisodeList {
    type Element = EpisodeInfo;

    open spec fn pages(&self) -> usize {
        self@.links.last
    }

    open spec fn elements(&self) -> Seq<EpisodeInfo> {
        self@.episodes
    }

    open spec fn with_elements(v: EpisodeListView, elements: Seq<EpisodeInfo>) -> EpisodeListView {
        EpisodeListView { episodes: elements, ..v }
    }

    proof fn with_elements_twice(v: EpisodeListView, a: Seq<EpisodeInfo>, b: Seq<EpisodeInfo>) {
    }

    proof fn with_elements_same(&self) {
    }

    fn num_pages(&self) -> (r: usize) {
        self.links.last
    }

    fn get_data(&self) -> (r: &[EpisodeInfo]) {
        self.data.as_slice()
    }

    fn get_data_mut(&mut self) -> (r: &mut Vec<EpisodeInfo>) {
        &mut self.data
    }

    fn into_data(self) -> (r: Vec<EpisodeInfo>) {
        self.data
    }
}

} // verus!
