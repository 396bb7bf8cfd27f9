//! The discovery stage: how the entries of a listing page become episodes,
//! and how newly found episodes join the records already known.

use chrono::TimeZone;
use vstd::prelude::*;
use vstd::string::StringExecFns;
use crate::episode::{opt_view, views, Episode, EpisodeView};
use crate::rw_json::{has_id, in_series, unique_ids, well_kept, RWJson};
use crate::series::Series;
use crate::text::{
    parse_number,
    spec_parse_number,
    spec_trim_start,
    spec_zero_padded,
    trim_number_prefix,
    zero_padded,
};

verus! {

/// The text that `chrono` gives for a moment in UTC which is written as
/// `text` in the `strftime` format `format`; none where `text` does not fit
/// the format or names no moment.
pub uninterp spec fn utc_datetime_text(text: Seq<char>, format: Seq<char>) -> Option<Seq<char>>;

/// Reads `text` with `chrono::NaiveDateTime::parse_from_str` in the given
/// format, takes the outcome as a time in UTC with
/// `chrono::Utc.from_utc_datetime` and formats that with its `Display`. The
/// outcome is a function of the two texts alone; nothing else is claimed of
/// it.
#[verifier::external_body]
fn format_utc_datetime(text: &str, format: &str) -> (res: Option<String>)
    ensures
        opt_view(res) == utc_datetime_text(text@, format@),
{
    match chrono::NaiveDateTime::parse_from_str(text, format) {
        Ok(naive) => Some(chrono::Utc.from_utc_datetime(&naive).to_string()),
        Err(_) => None,
    }
}

/// What a listing page shows of one episode, each part as far as the page
/// has it.
#[derive(Debug)]
pub struct ArchiveEntry {
    pub number: Option<String>,
    pub title: Option<String>,
    pub page_url: Option<String>,
    pub date: Option<String>,
}

/// The label of an episode: its number with zeros in front up to a width of
/// four where the page gives a number, else the text that the page gives,
/// either without the leading `"No. "`.
pub open spec fn spec_number_label(raw: Seq<char>) -> Seq<char> {
    let text = spec_trim_start(raw, "No. "@);
    match spec_parse_number(text) {
        Some(n) => spec_zero_padded(n),
        None => text,
    }
}

/// The stored form of a date that the page writes as month, day and
/// two-digit year: midnight UTC of that day.
pub open spec fn spec_published_at(date: Seq<char>) -> Option<Seq<char>> {
    utc_datetime_text(date + " 00:00:00"@, "%m/%d/%y %H:%M:%S"@)
}

/// The stored form of a date, once the moment it names has been formatted.
pub open spec fn spec_episode_with_date(
    series: Series,
    number: Seq<char>,
    title: Seq<char>,
    page_url: Seq<char>,
    published_at: Option<Seq<char>>,
) -> Option<EpisodeView> {
    match published_at {
        Some(date) => Some(Episode::spec_new(series, spec_number_label(number), title, date, page_url)),
        None => None,
    }
}

/// The episode that an entry describes: none where the entry lacks a part or
/// its date cannot be read.
pub open spec fn spec_episode_from_entry(series: Series, entry: ArchiveEntry) -> Option<
    EpisodeView,
> {
    if entry.number is Some && entry.title is Some && entry.page_url is Some && entry.date is Some {
        spec_episode_with_date(
            series,
            entry.number.unwrap()@,
            entry.title.unwrap()@,
            entry.page_url.unwrap()@,
            spec_published_at(entry.date.unwrap()@),
        )
    } else {
        None
    }
}

/// The episodes that the entries of a page describe, in page order.
pub open spec fn spec_episodes_from_entries(series: Series, entries: Seq<ArchiveEntry>) -> Seq<
    EpisodeView,
> {
    entries.filter_map(|entry: ArchiveEntry| spec_episode_from_entry(series, entry))
}

/// The records after discovery: those already known, untouched and in their
/// order, then each found episode whose identifier was not there before it,
/// in the order found.
pub open spec fn spec_merged(existing: Seq<EpisodeView>, scraped: Seq<EpisodeView>) -> Seq<
    EpisodeView,
>
    decreases scraped.len(),
{
    if scraped.len() == 0 {
        existing
    } else {
        let before = spec_merged(existing, scraped.drop_last());
        if has_id(before, scraped.last().id) {
            before
        } else {
            before.push(scraped.last())
        }
    }
}

/// The view of an optional episode.
pub open spec fn episode_opt_view(episode: Option<Episode>) -> Option<EpisodeView> {
    match episode {
        Some(e) => Some(e@),
        None => None,
    }
}

/// The label of an episode, from the text that the page gives for its number.
pub fn number_label(raw: &str) -> (res: String)
    ensures
        res@ == spec_number_label(raw@),
{
    let text = trim_number_prefix(raw);
    match parse_number(text) {
        Some(n) => zero_padded(n),
        None => String::from_str(text),
    }
}

/// The stored form of a date that the page writes as month, day and two-digit
/// year; none where the text is no such date.
pub fn published_at(date: &str) -> (res: Option<String>)
    ensures
        opt_view(res) == spec_published_at(date@),
{
    let mut text = String::from_str(date);
    text.append(" 00:00:00");
    format_utc_datetime(text.as_str(), "%m/%d/%y %H:%M:%S")
}

/// The episode with the given parts, once its date has been formatted; none
/// where the date could not be read.
pub fn episode_with_date(
    series: Series,
    number: &str,
    title: &str,
    page_url: &str,
    published_at: Option<String>,
) -> (res: Option<Episode>)
    ensures
        episode_opt_view(res) == spec_episode_with_date(
            series,
            number@,
            title@,
            page_url@,
            opt_view(published_at),
        ),
{
    match published_at {
        Some(date) => Some(
            Episode::new(
                series,
                number_label(number),
                String::from_str(title),
                date,
                String::from_str(page_url),
            ),
        ),
        None => None,
    }
}

/// Whether some episode of the list carries the identifier of `episode`.
pub fn contains_id(episodes: &Vec<Episode>, episode: &Episode) -> (res: bool)
    ensures
        res == has_id(views(episodes@), episode@.id),
{
    let mut i: usize = 0;
    while i < episodes.len()
        invariant
            i <= episodes.len(),
            forall|k: int| 0 <= k < i ==> (#[trigger] views(episodes@)[k]).id != episode@.id,
        decreases episodes.len() - i,
    {
        if episodes[i].same_id(episode) {
            proof {
                assert(views(episodes@)[i as int].id == episode@.id);
            }
            return true;
        }
        i += 1;
    }
    false
}

/// Lists the episodes of each series and adds the new ones to the store.
#[derive(Debug)]
pub struct EpisodeScraper {
    series_vec: Vec<Series>,
}

impl EpisodeScraper {
    pub closed spec fn spec_series_vec(&self) -> Seq<Series> {
        self.series_vec@
    }

    pub fn new(series_vec: Vec<Series>) -> (res: EpisodeScraper)
        ensures
            res.spec_series_vec() == series_vec@,
    {
        EpisodeScraper { series_vec }
    }

    /// The episode that an entry describes; none where the entry lacks a
    /// part or its date cannot be read.
    pub fn episode_from_entry(series: Series, entry: &ArchiveEntry) -> (res: Option<Episode>)
        ensures
            episode_opt_view(res) == spec_episode_from_entry(series, *entry),
    {
        match (&entry.number, &entry.title, &entry.page_url, &entry.date) {
            (Some(number), Some(title), Some(page_url), Some(date)) => episode_with_date(
                series,
                number.as_str(),
                title.as_str(),
                page_url.as_str(),
                published_at(date.as_str()),
            ),
            _ => None,
        }
    }

    /// The episodes that the entries of a listing page describe, in page
    /// order.
    pub fn scrape_episodes_by_series(series: Series, entries: &Vec<ArchiveEntry>) -> (res: Vec<
        Episode,
    >)
        ensures
            views(res@) == spec_episodes_from_entries(series, entries@),
            in_series(views(res@), series),
            forall|k: int|
                0 <= k < res@.len() ==> (#[trigger] res@[k])@.download_url is None
                    && res@[k]@.sha1 is None,
    {
        let mut out: Vec<Episode> = Vec::new();
        let mut i: usize = 0;
        while i < entries.len()
            invariant
                i <= entries.len(),
                views(out@) == spec_episodes_from_entries(series, entries@.take(i as int)),
                forall|k: int|
                    0 <= k < out@.len() ==> (#[trigger] out@[k])@.series == series
                        && out@[k]@.download_url is None && out@[k]@.sha1 is None,
            decreases entries.len() - i,
        {
            proof {
                assert(entries@.take(i + 1).drop_last() =~= entries@.take(i as int));
            }
            match EpisodeScraper::episode_from_entry(series, &entries[i]) {
                Some(episode) => {
                    out.push(episode);
                },
                None => {},
            }
            i += 1;
        }
        proof {
            assert(entries@.take(i as int) =~= entries@);
        }
        out
    }

    /// The records after discovery: the known ones followed by the found
    /// episodes that are new.
    pub fn merge_new(from_json: Vec<Episode>, scraped: Vec<Episode>) -> (res: Vec<Episode>)
        ensures
            views(res@) == spec_merged(views(from_json@), views(scraped@)),
    {
        let ghost existing = views(from_json@);
        let mut out = from_json;
        let mut i: usize = 0;
        while i < scraped.len()
            invariant
                i <= scraped.len(),
                views(out@) == spec_merged(existing, views(scraped@).take(i as int)),
            decreases scraped.len() - i,
        {
            let ghost found = views(scraped@);
            proof {
                assert(found.take(i + 1).drop_last() =~= found.take(i as int));
            }
            if !contains_id(&out, &scraped[i]) {
                out.push(scraped[i].duplicate());
            }
            i += 1;
        }
        proof {
            assert(views(scraped@).take(i as int) =~= views(scraped@));
        }
        out
    }

    /// Adds the episodes found for a series to its records: the store then
    /// holds the known records followed by those that are new. Returns the new
    /// ones, in the order found.
    pub fn scrape_and_write_episodes(rw_json: &mut RWJson, series: Series, scraped: Vec<Episode>) -> (res:
        Vec<Episode>)
        ensures
            final(rw_json).records(series) == spec_merged(
                old(rw_json).records(series),
                views(scraped@),
            ),
            final(rw_json).same_but(old(rw_json), series),
            unique_ids(old(rw_json).records(series)) ==> unique_ids(final(rw_json).records(series)),
            old(rw_json).wf() && in_series(views(scraped@), series) ==> final(rw_json).wf(),
            views(res@) == final(rw_json).records(series).skip(
                old(rw_json).records(series).len() as int,
            ),
    {
        let from_json = rw_json.read_all_episodes(&series);
        let known = from_json.len();
        proof {
            lemma_merged_keeps_existing(views(from_json@), views(scraped@));
            if unique_ids(views(from_json@)) {
                lemma_merged_unique(views(from_json@), views(scraped@));
            }
            if in_series(views(from_json@), series) && in_series(views(scraped@), series) {
                lemma_merged_in_series(views(from_json@), views(scraped@), series);
            }
        }
        let merged = EpisodeScraper::merge_new(from_json, scraped);
        let mut added: Vec<Episode> = Vec::new();
        let mut i: usize = known;
        while i < merged.len()
            invariant
                known <= i <= merged.len(),
                views(added@) =~= views(merged@).subrange(known as int, i as int),
            decreases merged.len() - i,
        {
            let ghost before = views(added@);
            added.push(merged[i].duplicate());
            proof {
                assert(views(added@) =~= before.push(merged@[i as int]@));
            }
            i += 1;
        }
        rw_json.overwrite_all_episodes(&series, merged);
        added
    }
}

/// Discovery deletes nothing and reorders nothing: the known records are the
/// beginning of the records after it.
pub proof fn lemma_merged_keeps_existing(existing: Seq<EpisodeView>, scraped: Seq<EpisodeView>)
    ensures
        existing.len() <= spec_merged(existing, scraped).len(),
        spec_merged(existing, scraped).take(existing.len() as int) == existing,
    decreases scraped.len(),
{
    if scraped.len() > 0 {
        lemma_merged_keeps_existing(existing, scraped.drop_last());
    }
}

/// Discovery of a series keeps its record set within the series.
pub proof fn lemma_merged_in_series(
    existing: Seq<EpisodeView>,
    scraped: Seq<EpisodeView>,
    series: Series,
)
    requires
        in_series(existing, series),
        in_series(scraped, series),
    ensures
        in_series(spec_merged(existing, scraped), series),
    decreases scraped.len(),
{
    if scraped.len() > 0 {
        assert forall|i: int| 0 <= i < scraped.drop_last().len() implies (
        #[trigger] scraped.drop_last()[i]).series == series by {}
        lemma_merged_in_series(existing, scraped.drop_last(), series);
    }
}

/// Where no identifier occurs twice among the known and the found episodes
/// together, discovery appends all that it found, in the order found. So
/// into an empty record set go exactly the found episodes.
pub proof fn lemma_merged_appends(existing: Seq<EpisodeView>, scraped: Seq<EpisodeView>)
    requires
        unique_ids(existing + scraped),
    ensures
        spec_merged(existing, scraped) == existing + scraped,
        existing.len() == 0 ==> spec_merged(existing, scraped) == scraped,
    decreases scraped.len(),
{
    let all = existing + scraped;
    if scraped.len() > 0 {
        let shorter = existing + scraped.drop_last();
        assert(shorter =~= all.drop_last());
        assert forall|i: int, j: int| 0 <= i < j < shorter.len() implies (#[trigger] shorter[i]).id
            != (#[trigger] shorter[j]).id by {}
        lemma_merged_appends(existing, scraped.drop_last());
        if has_id(shorter, scraped.last().id) {
            let i = choose|i: int|
                0 <= i < shorter.len() && (#[trigger] shorter[i]).id == scraped.last().id;
            assert(all[i].id != all[all.len() - 1].id);
        }
    }
}

/// Discovery never lets two records carry one identifier, even where the
/// page lists an episode twice.
pub proof fn lemma_merged_unique(existing: Seq<EpisodeView>, scraped: Seq<EpisodeView>)
    requires
        unique_ids(existing),
    ensures
        unique_ids(spec_merged(existing, scraped)),
    decreases scraped.len(),
{
    if scraped.len() > 0 {
        lemma_merged_unique(existing, scraped.drop_last());
        let before = spec_merged(existing, scraped.drop_last());
        let last = scraped.last();
        if !has_id(before, last.id) {
            let out = before.push(last);
            assert forall|i: int, j: int| 0 <= i < j < out.len() implies (#[trigger] out[i]).id != (
            #[trigger] out[j]).id by {}
        }
    }
}

/// After discovery every found episode is known by its identifier.
pub proof fn lemma_merged_covers(existing: Seq<EpisodeView>, scraped: Seq<EpisodeView>, i: int)
    requires
        0 <= i < scraped.len(),
    ensures
        has_id(spec_merged(existing, scraped), scraped[i].id),
    decreases scraped.len(),
{
    let before = spec_merged(existing, scraped.drop_last());
    let out = spec_merged(existing, scraped);
    if i < scraped.len() - 1 {
        lemma_merged_covers(existing, scraped.drop_last(), i);
        let k = choose|k: int| 0 <= k < before.len() && (#[trigger] before[k]).id == scraped[i].id;
        assert(out[k].id == scraped[i].id);
    } else if !has_id(before, scraped.last().id) {
        assert(out[out.len() - 1].id == scraped[i].id);
    }
}

/// Where every found episode is already known, discovery changes nothing.
pub proof fn lemma_merged_known(records: Seq<EpisodeView>, scraped: Seq<EpisodeView>)
    requires
        forall|i: int| 0 <= i < scraped.len() ==> has_id(records, (#[trigger] scraped[i]).id),
    ensures
        spec_merged(records, scraped) == records,
    decreases scraped.len(),
{
    if scraped.len() > 0 {
        assert forall|i: int| 0 <= i < scraped.drop_last().len() implies has_id(
            records,
            (#[trigger] scraped.drop_last()[i]).id,
        ) by {}
        lemma_merged_known(records, scraped.drop_last());
    }
}

/// Discovery with an unchanged listing is idempotent: a second pass over the
/// same found episodes leaves the records of the first pass as they are.
pub proof fn lemma_merged_twice(existing: Seq<EpisodeView>, scraped: Seq<EpisodeView>)
    ensures
        spec_merged(spec_merged(existing, scraped), scraped) == spec_merged(existing, scraped),
{
    let once = spec_merged(existing, scraped);
    assert forall|i: int| 0 <= i < scraped.len() implies has_id(once, (#[trigger] scraped[i]).id) by {
        lemma_merged_covers(existing, scraped, i);
    }
    lemma_merged_known(once, scraped);
}

} // verus!
