//! The resolution stage: which episodes still lack a download address, how
//! a scraped link becomes one, and what a finished job leaves in the store.

use vstd::prelude::*;
use vstd::string::{StrSliceExecFns, StringExecFns};
use crate::episode::{views, Episode, EpisodeView};
use crate::rw_json::{
    after_edits,
    edited,
    has_id,
    lemma_after_edits_len,
    lemma_after_edits_members,
    lemma_edit_survives,
    lemma_edited_id_replaced,
    lemma_edits_keep_others,
    lemma_filter_members,
    lemma_filter_none,
    unique_ids,
    RWJson,
};
use crate::series::Series;
use crate::worker::{pool_size, spec_pool_size};

verus! {

/// Whether the payload extension stands at position `i` of `url`.
pub open spec fn spec_mp3_at(url: Seq<char>, i: int) -> bool {
    &&& 0 <= i
    &&& i + 4 <= url.len()
    &&& url[i] == '.'
    &&& url[i + 1] == 'm'
    &&& url[i + 2] == 'p'
    &&& url[i + 3] == '3'
}

/// The first position at or after `from` where the payload extension stands.
pub open spec fn spec_find_mp3(url: Seq<char>, from: int) -> Option<int>
    decreases url.len() - from,
{
    if from < 0 || from + 4 > url.len() {
        None
    } else if spec_mp3_at(url, from) {
        Some(from)
    } else {
        spec_find_mp3(url, from + 1)
    }
}

/// A link cut off behind the first payload extension in it, if it has one.
pub open spec fn spec_truncated(url: Seq<char>) -> Option<Seq<char>> {
    match spec_find_mp3(url, 0) {
        Some(i) => Some(url.take(i + 4)),
        None => None,
    }
}

/// The download address that a scraped link stands for: the link cut off
/// behind its first payload extension, or the whole link where it has none.
pub open spec fn spec_download_url(href: Seq<char>) -> Seq<char> {
    match spec_truncated(href) {
        Some(cut) => cut,
        None => href,
    }
}

/// An episode is a job of this stage while it has no download address.
pub open spec fn spec_unresolved(episode: EpisodeView) -> bool {
    episode.download_url is None
}

/// The jobs of this stage among the records of a series, in storage order.
pub open spec fn spec_no_download_url(records: Seq<EpisodeView>) -> Seq<EpisodeView> {
    records.filter(|e: EpisodeView| spec_unresolved(e))
}

/// The jobs of this stage over the selected series: those of each series in
/// turn.
pub open spec fn spec_jobs(series_vec: Seq<Series>, store: RWJson) -> Seq<EpisodeView>
    decreases series_vec.len(),
{
    if series_vec.len() == 0 {
        Seq::<EpisodeView>::empty()
    } else {
        spec_jobs(series_vec.drop_last(), store) + spec_no_download_url(
            store.records(series_vec.last()),
        )
    }
}

/// An episode with the download address that a scraped link stands for.
pub open spec fn spec_resolved(episode: EpisodeView, href: Seq<char>) -> EpisodeView {
    EpisodeView { download_url: Some(spec_download_url(href)), ..episode }
}

/// The records of a series after one job: edited by the resolved episode
/// where a link was found, untouched where the job failed.
pub open spec fn spec_after_job(
    records: Seq<EpisodeView>,
    job: EpisodeView,
    href: Option<Seq<char>>,
) -> Seq<EpisodeView> {
    match href {
        Some(h) => edited(records, spec_resolved(job, h)),
        None => records,
    }
}

/// What a job leaves to write: the resolved episode where it found a link,
/// nothing where it failed.
pub open spec fn spec_outcome(job: EpisodeView, href: Option<Seq<char>>) -> Option<EpisodeView> {
    match href {
        Some(h) => Some(spec_resolved(job, h)),
        None => None,
    }
}

/// What the jobs leave to write, `hrefs[i]` being what job `i` found.
pub open spec fn spec_outcomes(jobs: Seq<EpisodeView>, hrefs: Seq<Option<Seq<char>>>) -> Seq<
    Option<EpisodeView>,
> {
    Seq::new(jobs.len(), |i: int| spec_outcome(jobs[i], hrefs[i]))
}

/// The records of a series after the jobs have finished in the given order,
/// `hrefs[i]` being what job `i` found.
pub open spec fn spec_after_jobs(
    records: Seq<EpisodeView>,
    jobs: Seq<EpisodeView>,
    hrefs: Seq<Option<Seq<char>>>,
) -> Seq<EpisodeView> {
    after_edits(records, spec_outcomes(jobs, hrefs))
}

/// A link cut off behind the first payload extension in it; none where the
/// link has no such extension.
pub fn try_truncate_url(url: &str) -> (res: Option<String>)
    ensures
        match res {
            Some(cut) => spec_truncated(url@) == Some(cut@),
            None => spec_truncated(url@) is None,
        },
{
    let n = url.unicode_len();
    let mut i: usize = 0;
    while i < n && n - i >= 4
        invariant
            n == url@.len(),
            i <= n,
            spec_find_mp3(url@, 0) == spec_find_mp3(url@, i as int),
        decreases n - i,
    {
        if url.get_char(i) == '.' && url.get_char(i + 1) == 'm' && url.get_char(i + 2) == 'p'
            && url.get_char(i + 3) == '3' {
            let cut = url.substring_char(0, i + 4);
            return Some(String::from_str(cut));
        }
        i += 1;
    }
    None
}

/// The download address that a scraped link stands for.
pub fn download_url_from(href: &str) -> (res: String)
    ensures
        res@ == spec_download_url(href@),
{
    match try_truncate_url(href) {
        Some(cut) => cut,
        None => String::from_str(href),
    }
}

/// Finds the episodes without a download address and settles their jobs.
#[derive(Debug)]
pub struct DownloadUrlScraper {
    thread_max: usize,
    series_vec: Vec<Series>,
}

impl DownloadUrlScraper {
    pub closed spec fn spec_thread_max(&self) -> nat {
        self.thread_max as nat
    }

    pub closed spec fn spec_series_vec(&self) -> Seq<Series> {
        self.series_vec@
    }

    pub fn new(thread_max: usize, series_vec: Vec<Series>) -> (res: DownloadUrlScraper)
        ensures
            res.spec_thread_max() == thread_max,
            res.spec_series_vec() == series_vec@,
    {
        DownloadUrlScraper { thread_max, series_vec }
    }

    /// How many workers to start for `job_count` jobs.
    pub fn worker_count(&self, job_count: usize) -> (res: usize)
        ensures
            res == spec_pool_size(self.spec_thread_max(), job_count as nat),
    {
        pool_size(self.thread_max, job_count)
    }

    /// The jobs of the stage: for each selected series in turn, its records
    /// without a download address, in storage order.
    pub fn no_download_url_episodes(&self, rw_json: &RWJson) -> (res: Vec<Episode>)
        ensures
            views(res@) == spec_jobs(self.spec_series_vec(), *rw_json),
    {
        let mut out: Vec<Episode> = Vec::new();
        let mut i: usize = 0;
        while i < self.series_vec.len()
            invariant
                i <= self.series_vec.len(),
                views(out@) == spec_jobs(self.series_vec@.take(i as int), *rw_json),
            decreases self.series_vec.len() - i,
        {
            let all = rw_json.read_all_episodes(&self.series_vec[i]);
            let mut jobs = DownloadUrlScraper::unresolved(&all);
            out.append(&mut jobs);
            proof {
                assert(self.series_vec@.take(i + 1).drop_last() =~= self.series_vec@.take(i as int));
            }
            i += 1;
        }
        proof {
            assert(self.series_vec@.take(i as int) =~= self.series_vec@);
        }
        out
    }

    /// The records that have no download address yet, in storage order.
    pub fn unresolved(all: &Vec<Episode>) -> (res: Vec<Episode>)
        ensures
            views(res@) == spec_no_download_url(views(all@)),
    {
        let mut out: Vec<Episode> = Vec::new();
        let mut i: usize = 0;
        proof {
            reveal(Seq::filter);
        }
        while i < all.len()
            invariant
                i <= all.len(),
                views(out@) == spec_no_download_url(views(all@).take(i as int)),
            decreases all.len() - i,
        {
            let ghost records = views(all@);
            proof {
                reveal(Seq::filter);
                assert(records.take(i + 1).drop_last() =~= records.take(i as int));
            }
            if all[i].download_url().is_none() {
                out.push(all[i].duplicate());
            }
            i += 1;
        }
        proof {
            assert(views(all@).take(i as int) =~= views(all@));
        }
        out
    }

    /// The episode with the download address that the scraped link stands
    /// for.
    pub fn scrape_download_url(episode: &mut Episode, href: &str)
        ensures
            final(episode)@ == spec_resolved(old(episode)@, href@),
    {
        episode.set_download_url(download_url_from(href));
    }

    /// Settles one job: where the page gave a link, the resolved episode is
    /// written to the store; where it gave none, the store stays as it is and
    /// the episode remains a job of the next run. Tells whether the job
    /// succeeded.
    pub fn finish_job(rw_json: &mut RWJson, episode: Episode, href: Option<String>) -> (res: bool)
        ensures
            res == href is Some,
            final(rw_json).records(episode@.series) == spec_after_job(
                old(rw_json).records(episode@.series),
                episode@,
                crate::episode::opt_view(href),
            ),
            final(rw_json).same_but(old(rw_json), episode@.series),
            unique_ids(old(rw_json).records(episode@.series)) ==> unique_ids(
                final(rw_json).records(episode@.series),
            ),
            old(rw_json).wf() ==> final(rw_json).wf(),
    {
        let mut episode = episode;
        match href {
            Some(link) => {
                DownloadUrlScraper::scrape_download_url(&mut episode, link.as_str());
                rw_json.edit_episode(&episode);
                true
            },
            None => false,
        }
    }
}

/// Jobs settle one by one: the records after a run of jobs and one more are
/// the records after the run, taken through that one job.
pub proof fn lemma_one_more_job(
    records: Seq<EpisodeView>,
    jobs: Seq<EpisodeView>,
    hrefs: Seq<Option<Seq<char>>>,
    job: EpisodeView,
    href: Option<Seq<char>>,
)
    requires
        jobs.len() == hrefs.len(),
    ensures
        spec_after_jobs(records, jobs.push(job), hrefs.push(href)) == spec_after_job(
            spec_after_jobs(records, jobs, hrefs),
            job,
            href,
        ),
{
    let more = spec_outcomes(jobs.push(job), hrefs.push(href));
    assert(more.drop_last() =~= spec_outcomes(jobs, hrefs));
}

/// A failed job does not hold up the others: a job that found a link is
/// resolved in the end, in whatever order the jobs finished and whichever
/// of the others failed.
pub proof fn lemma_failure_does_not_block(
    records: Seq<EpisodeView>,
    jobs: Seq<EpisodeView>,
    hrefs: Seq<Option<Seq<char>>>,
    k: int,
)
    requires
        jobs.len() == hrefs.len(),
        unique_ids(jobs),
        0 <= k < jobs.len(),
        hrefs[k] is Some,
    ensures
        spec_after_jobs(records, jobs, hrefs).contains(spec_resolved(jobs[k], hrefs[k].unwrap())),
{
    let edits = spec_outcomes(jobs, hrefs);
    assert forall|j: int| k < j < edits.len() && (#[trigger] edits[j]) is Some implies edits[j].unwrap().id
        != edits[k].unwrap().id by {}
    lemma_edit_survives(records, edits, k);
}

/// A failed job leaves its episode as it was, to be taken up by the next
/// run: where the identifiers are distinct, the record of a job that found
/// no link is in the end what it was before.
pub proof fn lemma_failed_job_unadvanced(
    records: Seq<EpisodeView>,
    jobs: Seq<EpisodeView>,
    hrefs: Seq<Option<Seq<char>>>,
    k: int,
)
    requires
        jobs.len() == hrefs.len(),
        unique_ids(jobs),
        0 <= k < jobs.len(),
        hrefs[k] is None,
    ensures
        spec_after_jobs(records, jobs, hrefs).contains(jobs[k]) <==> records.contains(jobs[k]),
{
    let edits = spec_outcomes(jobs, hrefs);
    assert forall|j: int| 0 <= j < edits.len() && (#[trigger] edits[j]) is Some implies edits[j].unwrap().id
        != jobs[k].id by {}
    lemma_edits_keep_others(records, edits, jobs[k]);
}

/// A run takes up only what is left to do: an episode that already has its
/// download address is no job, and it is after the stage what it was before.
pub proof fn lemma_resolved_untouched(
    records: Seq<EpisodeView>,
    hrefs: Seq<Option<Seq<char>>>,
    episode: EpisodeView,
)
    requires
        unique_ids(records),
        records.contains(episode),
        episode.download_url is Some,
        hrefs.len() == spec_no_download_url(records).len(),
    ensures
        !spec_no_download_url(records).contains(episode),
        spec_after_jobs(records, spec_no_download_url(records), hrefs).contains(episode),
{
    let pred = |e: EpisodeView| spec_unresolved(e);
    let jobs = records.filter(pred);
    let edits = spec_outcomes(jobs, hrefs);
    lemma_filter_members(records, pred);
    assert forall|j: int| 0 <= j < edits.len() && (#[trigger] edits[j]) is Some implies edits[j].unwrap().id
        != episode.id by {}
    lemma_edits_keep_others(records, edits, episode);
}

/// Where every job found its link, nothing is left for the stage to do: a
/// second run finds no job and so changes nothing.
pub proof fn lemma_all_resolved(records: Seq<EpisodeView>, hrefs: Seq<Option<Seq<char>>>)
    requires
        hrefs.len() == spec_no_download_url(records).len(),
        forall|i: int| 0 <= i < hrefs.len() ==> (#[trigger] hrefs[i]) is Some,
    ensures
        spec_no_download_url(spec_after_jobs(records, spec_no_download_url(records), hrefs))
            == Seq::<EpisodeView>::empty(),
{
    let pred = |e: EpisodeView| spec_unresolved(e);
    let jobs = records.filter(pred);
    let edits = spec_outcomes(jobs, hrefs);
    let out = after_edits(records, edits);
    lemma_filter_members(records, pred);
    lemma_after_edits_members(records, edits);
    assert forall|i: int| 0 <= i < out.len() implies !pred(#[trigger] out[i]) by {
        if pred(out[i]) {
            if !edits.contains(Some(out[i])) {
                let k = choose|k: int| 0 <= k < jobs.len() && jobs[k] == out[i];
                lemma_edited_id_replaced(records, edits, k, i);
            }
        }
    }
    lemma_filter_none(out, pred);
}

/// What a whole run of the stage leaves, in whatever order its jobs
/// finished: the set has the records it had, each identifier once; the
/// episode of each job that found its link stands advanced; the episode of each
/// job that found no link, and each record that was no job, stands as it was.
pub proof fn lemma_stage_outcome(
    records: Seq<EpisodeView>,
    jobs: Seq<EpisodeView>,
    hrefs: Seq<Option<Seq<char>>>,
)
    requires
        unique_ids(records),
        unique_ids(jobs),
        jobs.len() == hrefs.len(),
        forall|k: int| 0 <= k < jobs.len() ==> records.contains(#[trigger] jobs[k]),
    ensures
        spec_after_jobs(records, jobs, hrefs).len() == records.len(),
        unique_ids(spec_after_jobs(records, jobs, hrefs)),
        forall|k: int|
            0 <= k < jobs.len() && hrefs[k] is Some ==> spec_after_jobs(records, jobs, hrefs).contains(
                spec_resolved(#[trigger] jobs[k], hrefs[k].unwrap()),
            ),
        forall|k: int|
            0 <= k < jobs.len() && hrefs[k] is None ==> spec_after_jobs(records, jobs, hrefs).contains(
                #[trigger] jobs[k],
            ),
        forall|i: int|
            0 <= i < records.len() && !has_id(jobs, records[i].id) ==> spec_after_jobs(
                records,
                jobs,
                hrefs,
            ).contains(#[trigger] records[i]),
{
    let edits = spec_outcomes(jobs, hrefs);
    let out = after_edits(records, edits);
    assert forall|j: int| 0 <= j < edits.len() && (#[trigger] edits[j]) is Some implies has_id(
        records,
        edits[j].unwrap().id,
    ) by {}
    lemma_after_edits_len(records, edits);
    lemma_after_edits_members(records, edits);
    assert forall|k: int| 0 <= k < jobs.len() && hrefs[k] is Some implies out.contains(
        spec_resolved(#[trigger] jobs[k], hrefs[k].unwrap()),
    ) by {
        lemma_failure_does_not_block(records, jobs, hrefs, k);
    }
    assert forall|k: int| 0 <= k < jobs.len() && hrefs[k] is None implies out.contains(
        #[trigger] jobs[k],
    ) by {
        lemma_failed_job_unadvanced(records, jobs, hrefs, k);
    }
    assert forall|i: int| 0 <= i < records.len() && !has_id(jobs, records[i].id) implies out.contains(
        #[trigger] records[i],
    ) by {
        assert forall|j: int| 0 <= j < edits.len() && (#[trigger] edits[j]) is Some implies edits[j].unwrap().id
            != records[i].id by {}
        lemma_edits_keep_others(records, edits, records[i]);
    }
}

} // verus!
