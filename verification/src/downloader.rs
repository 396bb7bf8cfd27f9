//! The retrieval stage: which episodes still have to be downloaded, and what
//! a finished download leaves in the store.

use vstd::prelude::*;
use vstd::string::StringExecFns;
use crate::episode::{opt_view, views, Episode, EpisodeView};
use crate::hasher::Sha1Hasher;
use crate::rw_json::{
    after_edits,
    edited,
    has_id,
    lemma_after_edits_len,
    lemma_after_edits_members,
    lemma_edit_survives,
    lemma_edited_id_replaced,
    lemma_edits_keep_others,
    lemma_filter_members,
    lemma_filter_none,
    unique_ids,
    well_kept,
    RWJson,
};
use crate::rw_mp3::{texts, Sha1Index};
use crate::series::Series;
use crate::worker::{pool_size, spec_pool_size};

verus! {

/// Why a download did not come about.
#[derive(Debug)]
pub enum DownloadError {
    /// The episode has no download address yet.
    MissingDownloadUrl(Episode),
    /// The request to the given address failed.
    GetRequest(String),
}

/// A text as the `Debug` formatting of std writes it: between double quotes,
/// with its special characters escaped.
pub uninterp spec fn debug_text(text: Seq<char>) -> Seq<char>;

/// Formats a text with `{:?}`, the `Debug` implementation of std for `str`.
/// The outcome is a function of the text alone; nothing else is claimed of
/// it.
#[verifier::external_body]
fn debug_format(text: &str) -> (res: String)
    ensures
        res@ == debug_text(text@),
{
    format!("{:?}", text)
}

impl DownloadError {
    /// The message of an error, once the failed address has been formatted.
    pub open spec fn spec_message_with(self, quoted: Seq<char>) -> Seq<char> {
        match self {
            DownloadError::MissingDownloadUrl(episode) => "DownloadError::MissingDownloadUrl: "@
                + episode@.series.spec_name() + " "@ + episode@.number + " "@ + episode@.title,
            DownloadError::GetRequest(_) => "DownloadError::GetRequest: "@ + quoted,
        }
    }

    /// The address that an error quotes; empty where it names none.
    pub open spec fn spec_quoted_url(self) -> Seq<char> {
        match self {
            DownloadError::MissingDownloadUrl(_) => Seq::<char>::empty(),
            DownloadError::GetRequest(url) => url@,
        }
    }

    /// The message of an error: its kind, then the series, number and title
    /// of the episode without an address, or the address that failed.
    pub open spec fn spec_message(self) -> Seq<char> {
        self.spec_message_with(debug_text(self.spec_quoted_url()))
    }

    /// The message of an error, given the formatted form of the address it
    /// quotes.
    pub fn message_with(&self, quoted: &str) -> (res: String)
        ensures
            res@ == self.spec_message_with(quoted@),
    {
        match self {
            DownloadError::MissingDownloadUrl(episode) => {
                let mut out = String::from_str("DownloadError::MissingDownloadUrl: ");
                let name = episode.series().name();
                out.append(name.as_str());
                out.append(" ");
                out.append(episode.number());
                out.append(" ");
                out.append(episode.title());
                out
            },
            DownloadError::GetRequest(_) => {
                let mut out = String::from_str("DownloadError::GetRequest: ");
                out.append(quoted);
                out
            },
        }
    }

    /// The message of an error.
    pub fn message(&self) -> (res: String)
        ensures
            res@ == self.spec_message(),
    {
        match self {
            DownloadError::MissingDownloadUrl(_) => self.message_with(""),
            DownloadError::GetRequest(url) => {
                let quoted = debug_format(url.as_str());
                self.message_with(quoted.as_str())
            },
        }
    }
}

/// An episode is a job of this stage when it has a download address and the
/// fingerprint recorded for it, if any, belongs to no file that is present.
pub open spec fn spec_needs_download(episode: EpisodeView, present: Seq<Seq<char>>) -> bool {
    &&& episode.download_url is Some
    &&& match episode.sha1 {
        Some(sha1) => !present.contains(sha1),
        None => true,
    }
}

/// The jobs of this stage among the records of a series, in storage order.
pub open spec fn spec_not_downloaded(
    records: Seq<EpisodeView>,
    present: Seq<Seq<char>>,
) -> Seq<EpisodeView> {
    records.filter(|e: EpisodeView| spec_needs_download(e, present))
}

/// The jobs of this stage over the selected series: those of each series in
/// turn, judged by the files present for that series.
pub open spec fn spec_jobs(series_vec: Seq<Series>, store: RWJson, index: Sha1Index) -> Seq<
    EpisodeView,
>
    decreases series_vec.len(),
{
    if series_vec.len() == 0 {
        Seq::<EpisodeView>::empty()
    } else {
        spec_jobs(series_vec.drop_last(), store, index) + spec_not_downloaded(
            store.records(series_vec.last()),
            index.present(series_vec.last()),
        )
    }
}

/// An episode with the fingerprint of its payload recorded.
pub open spec fn spec_downloaded(episode: EpisodeView, payload: Seq<u8>) -> EpisodeView {
    EpisodeView { sha1: Some(Sha1Hasher::spec_sha1(payload)), ..episode }
}

/// The records of a series after one job: edited by the fingerprinted
/// episode where the payload arrived, untouched where the job failed.
pub open spec fn spec_after_job(
    records: Seq<EpisodeView>,
    job: EpisodeView,
    payload: Option<Seq<u8>>,
) -> Seq<EpisodeView> {
    match payload {
        Some(bytes) => edited(records, spec_downloaded(job, bytes)),
        None => records,
    }
}

/// What a job leaves to write: the fingerprinted episode where the payload
/// arrived, nothing where it failed.
pub open spec fn spec_outcome(job: EpisodeView, payload: Option<Seq<u8>>) -> Option<EpisodeView> {
    match payload {
        Some(bytes) => Some(spec_downloaded(job, bytes)),
        None => None,
    }
}

/// What the jobs leave to write, `payloads[i]` being what job `i` fetched.
pub open spec fn spec_outcomes(jobs: Seq<EpisodeView>, payloads: Seq<Option<Seq<u8>>>) -> Seq<
    Option<EpisodeView>,
> {
    Seq::new(jobs.len(), |i: int| spec_outcome(jobs[i], payloads[i]))
}

/// The records of a series after the jobs have finished in the given order,
/// `payloads[i]` being what job `i` fetched.
pub open spec fn spec_after_jobs(
    records: Seq<EpisodeView>,
    jobs: Seq<EpisodeView>,
    payloads: Seq<Option<Seq<u8>>>,
) -> Seq<EpisodeView> {
    after_edits(records, spec_outcomes(jobs, payloads))
}

/// The view of an optional payload.
pub open spec fn payload_view(payload: Option<Vec<u8>>) -> Option<Seq<u8>> {
    match payload {
        Some(bytes) => Some(bytes@),
        None => None,
    }
}

/// Whether a fingerprint is among those of the files present.
pub fn is_present(downloaded_sha1s: &Vec<String>, sha1: &String) -> (res: bool)
    ensures
        res == texts(downloaded_sha1s@).contains(sha1@),
{
    let mut i: usize = 0;
    while i < downloaded_sha1s.len()
        invariant
            i <= downloaded_sha1s.len(),
            forall|k: int| 0 <= k < i ==> texts(downloaded_sha1s@)[k] != sha1@,
        decreases downloaded_sha1s.len() - i,
    {
        if downloaded_sha1s[i] == *sha1 {
            proof {
                assert(texts(downloaded_sha1s@)[i as int] == sha1@);
            }
            return true;
        }
        i += 1;
    }
    false
}

/// Finds the episodes that still have to be downloaded and settles their
/// jobs.
#[derive(Debug)]
pub struct Downloader {
    thread_max: usize,
    series_vec: Vec<Series>,
}

impl Downloader {
    pub closed spec fn spec_thread_max(&self) -> nat {
        self.thread_max as nat
    }

    pub closed spec fn spec_series_vec(&self) -> Seq<Series> {
        self.series_vec@
    }

    pub fn new(thread_max: usize, series_vec: Vec<Series>) -> (res: Downloader)
        ensures
            res.spec_thread_max() == thread_max,
            res.spec_series_vec() == series_vec@,
    {
        Downloader { thread_max, series_vec }
    }

    /// How many workers to start for `job_count` jobs.
    pub fn worker_count(&self, job_count: usize) -> (res: usize)
        ensures
            res == spec_pool_size(self.spec_thread_max(), job_count as nat),
    {
        pool_size(self.thread_max, job_count)
    }

    /// Whether an episode still has to be downloaded, given the fingerprints
    /// of the files present.
    pub fn needs_download(episode: &Episode, downloaded_sha1s: &Vec<String>) -> (res: bool)
        ensures
            res == spec_needs_download(episode@, texts(downloaded_sha1s@)),
    {
        if episode.download_url().is_none() {
            return false;
        }
        match episode.sha1() {
            Some(sha1) => !is_present(downloaded_sha1s, &sha1),
            None => true,
        }
    }

    /// The jobs of the stage: for each selected series in turn, its records
    /// that still have to be downloaded, in storage order.
    pub fn scan_not_downloaded_mp3s(&self, rw_json: &RWJson, index: &Sha1Index) -> (res: Vec<
        Episode,
    >)
        ensures
            views(res@) == spec_jobs(self.spec_series_vec(), *rw_json, *index),
    {
        let mut out: Vec<Episode> = Vec::new();
        let mut i: usize = 0;
        while i < self.series_vec.len()
            invariant
                i <= self.series_vec.len(),
                views(out@) == spec_jobs(self.series_vec@.take(i as int), *rw_json, *index),
            decreases self.series_vec.len() - i,
        {
            let series = self.series_vec[i];
            let all = rw_json.read_all_episodes(&series);
            let mut jobs = Downloader::not_downloaded(&all, index.get(series));
            out.append(&mut jobs);
            proof {
                assert(self.series_vec@.take(i + 1).drop_last() =~= self.series_vec@.take(i as int));
            }
            i += 1;
        }
        proof {
            assert(self.series_vec@.take(i as int) =~= self.series_vec@);
        }
        out
    }

    /// The records that still have to be downloaded, in storage order.
    pub fn not_downloaded(all: &Vec<Episode>, downloaded_sha1s: &Vec<String>) -> (res: Vec<
        Episode,
    >)
        ensures
            views(res@) == spec_not_downloaded(views(all@), texts(downloaded_sha1s@)),
            forall|k: int| 0 <= k < res@.len() ==> (#[trigger] res@[k])@.download_url is Some,
    {
        let mut out: Vec<Episode> = Vec::new();
        let mut i: usize = 0;
        proof {
            reveal(Seq::filter);
        }
        while i < all.len()
            invariant
                i <= all.len(),
                views(out@) == spec_not_downloaded(
                    views(all@).take(i as int),
                    texts(downloaded_sha1s@),
                ),
            decreases all.len() - i,
        {
            let ghost records = views(all@);
            proof {
                reveal(Seq::filter);
                assert(records.take(i + 1).drop_last() =~= records.take(i as int));
            }
            if Downloader::needs_download(&all[i], downloaded_sha1s) {
                out.push(all[i].duplicate());
            }
            i += 1;
        }
        proof {
            assert(views(all@).take(i as int) =~= views(all@));
            lemma_filter_members(
                views(all@),
                |e: EpisodeView| spec_needs_download(e, texts(downloaded_sha1s@)),
            );
            assert forall|k: int| 0 <= k < out@.len() implies (#[trigger] out@[k])@.download_url is Some by {
                assert(views(out@)[k] == out@[k]@);
            }
        }
        out
    }

    /// The address to fetch an episode's payload from.
    pub fn download_url_of(episode: &Episode) -> (res: Result<String, DownloadError>)
        ensures
            match res {
                Ok(url) => episode@.download_url == Some(url@),
                Err(DownloadError::MissingDownloadUrl(e)) => episode@.download_url is None && e@
                    == episode@,
                Err(DownloadError::GetRequest(_)) => false,
            },
    {
        match episode.download_url() {
            Some(url) => Ok(url),
            None => Err(DownloadError::MissingDownloadUrl(episode.duplicate())),
        }
    }

    /// Records on the episode the fingerprint of the payload fetched for it.
    pub fn download_mp3(hasher: &mut Sha1Hasher, episode: &mut Episode, payload: &[u8])
        ensures
            final(episode)@ == spec_downloaded(old(episode)@, payload@),
    {
        let sha1 = hasher.create_sha1(payload);
        episode.set_sha1(sha1);
    }

    /// Settles one job: where the payload arrived, the episode is written to
    /// the store with its fingerprint; where the request failed, the store
    /// stays as it is and the episode remains a job of the next run. The
    /// error names the address that failed.
    pub fn finish_job(
        hasher: &mut Sha1Hasher,
        rw_json: &mut RWJson,
        episode: Episode,
        url: String,
        payload: Option<Vec<u8>>,
    ) -> (res: Result<Episode, DownloadError>)
        ensures
            final(rw_json).records(episode@.series) == spec_after_job(
                old(rw_json).records(episode@.series),
                episode@,
                payload_view(payload),
            ),
            final(rw_json).same_but(old(rw_json), episode@.series),
            unique_ids(old(rw_json).records(episode@.series)) ==> unique_ids(
                final(rw_json).records(episode@.series),
            ),
            old(rw_json).wf() ==> final(rw_json).wf(),
            match res {
                Ok(done) => payload is Some && done@ == spec_downloaded(
                    episode@,
                    payload.unwrap()@,
                ),
                Err(DownloadError::GetRequest(failed)) => payload is None && failed@ == url@,
                Err(DownloadError::MissingDownloadUrl(_)) => false,
            },
    {
        let mut episode = episode;
        match payload {
            Some(bytes) => {
                Downloader::download_mp3(hasher, &mut episode, bytes.as_slice());
                rw_json.edit_episode(&episode);
                Ok(episode)
            },
            None => Err(DownloadError::GetRequest(url)),
        }
    }
}

/// A payload that is present is not fetched again: an episode whose recorded
/// fingerprint belongs to a file that is there is no job of the stage.
pub proof fn lemma_present_is_not_downloaded_again(
    records: Seq<EpisodeView>,
    present: Seq<Seq<char>>,
    episode: EpisodeView,
)
    requires
        episode.sha1 is Some,
        present.contains(episode.sha1.unwrap()),
    ensures
        !spec_not_downloaded(records, present).contains(episode),
{
    let pred = |e: EpisodeView| spec_needs_download(e, present);
    lemma_filter_members(records, pred);
}

/// An episode without a download address is never handed to the stage.
pub proof fn lemma_unresolved_is_no_job(
    records: Seq<EpisodeView>,
    present: Seq<Seq<char>>,
    episode: EpisodeView,
)
    requires
        episode.download_url is None,
    ensures
        !spec_not_downloaded(records, present).contains(episode),
{
    let pred = |e: EpisodeView| spec_needs_download(e, present);
    lemma_filter_members(records, pred);
}

/// Jobs settle one by one: the records after a run of jobs and one more are
/// the records after the run, taken through that one job.
pub proof fn lemma_one_more_job(
    records: Seq<EpisodeView>,
    jobs: Seq<EpisodeView>,
    payloads: Seq<Option<Seq<u8>>>,
    job: EpisodeView,
    payload: Option<Seq<u8>>,
)
    requires
        jobs.len() == payloads.len(),
    ensures
        spec_after_jobs(records, jobs.push(job), payloads.push(payload)) == spec_after_job(
            spec_after_jobs(records, jobs, payloads),
            job,
            payload,
        ),
{
    let more = spec_outcomes(jobs.push(job), payloads.push(payload));
    assert(more.drop_last() =~= spec_outcomes(jobs, payloads));
}

/// A failed job does not hold up the others: a job whose payload arrived
/// carries its fingerprint in the end, in whatever order the jobs finished
/// and whichever of the others failed.
pub proof fn lemma_failure_does_not_block(
    records: Seq<EpisodeView>,
    jobs: Seq<EpisodeView>,
    payloads: Seq<Option<Seq<u8>>>,
    k: int,
)
    requires
        jobs.len() == payloads.len(),
        unique_ids(jobs),
        0 <= k < jobs.len(),
        payloads[k] is Some,
    ensures
        spec_after_jobs(records, jobs, payloads).contains(
            spec_downloaded(jobs[k], payloads[k].unwrap()),
        ),
{
    let edits = spec_outcomes(jobs, payloads);
    assert forall|j: int| k < j < edits.len() && (#[trigger] edits[j]) is Some implies edits[j].unwrap().id
        != edits[k].unwrap().id by {}
    lemma_edit_survives(records, edits, k);
}

/// A failed job leaves its episode as it was, to be taken up by the next
/// run: where the identifiers are distinct, the record of a job whose
/// payload did not arrive is in the end what it was before.
pub proof fn lemma_failed_job_unadvanced(
    records: Seq<EpisodeView>,
    jobs: Seq<EpisodeView>,
    payloads: Seq<Option<Seq<u8>>>,
    k: int,
)
    requires
        jobs.len() == payloads.len(),
        unique_ids(jobs),
        0 <= k < jobs.len(),
        payloads[k] is None,
    ensures
        spec_after_jobs(records, jobs, payloads).contains(jobs[k]) <==> records.contains(jobs[k]),
{
    let edits = spec_outcomes(jobs, payloads);
    assert forall|j: int| 0 <= j < edits.len() && (#[trigger] edits[j]) is Some implies edits[j].unwrap().id
        != jobs[k].id by {}
    lemma_edits_keep_others(records, edits, jobs[k]);
}

/// A run takes up only what is left to do: an episode that is no job,
/// because its payload is present or because it has no download address
/// yet, is after the stage what it was before.
pub proof fn lemma_retrieved_untouched(
    records: Seq<EpisodeView>,
    present: Seq<Seq<char>>,
    payloads: Seq<Option<Seq<u8>>>,
    episode: EpisodeView,
)
    requires
        unique_ids(records),
        records.contains(episode),
        !spec_needs_download(episode, present),
        payloads.len() == spec_not_downloaded(records, present).len(),
    ensures
        spec_after_jobs(records, spec_not_downloaded(records, present), payloads).contains(
            episode,
        ),
{
    let pred = |e: EpisodeView| spec_needs_download(e, present);
    let jobs = records.filter(pred);
    let edits = spec_outcomes(jobs, payloads);
    lemma_filter_members(records, pred);
    assert forall|j: int| 0 <= j < edits.len() && (#[trigger] edits[j]) is Some implies edits[j].unwrap().id
        != episode.id by {}
    lemma_edits_keep_others(records, edits, episode);
}

/// Where every payload arrived and was stored, nothing is left for the stage
/// to do: with the files that were present still there and the new ones
/// beside them, a second run finds no job and so changes nothing.
pub proof fn lemma_all_retrieved(
    records: Seq<EpisodeView>,
    present: Seq<Seq<char>>,
    payloads: Seq<Option<Seq<u8>>>,
    present_after: Seq<Seq<char>>,
)
    requires
        payloads.len() == spec_not_downloaded(records, present).len(),
        forall|i: int| 0 <= i < payloads.len() ==> (#[trigger] payloads[i]) is Some,
        forall|i: int| 0 <= i < present.len() ==> present_after.contains(#[trigger] present[i]),
        forall|i: int|
            0 <= i < payloads.len() ==> present_after.contains(
                Sha1Hasher::spec_sha1((#[trigger] payloads[i]).unwrap()),
            ),
    ensures
        spec_not_downloaded(
            spec_after_jobs(records, spec_not_downloaded(records, present), payloads),
            present_after,
        ) == Seq::<EpisodeView>::empty(),
{
    let pred = |e: EpisodeView| spec_needs_download(e, present);
    let pred_after = |e: EpisodeView| spec_needs_download(e, present_after);
    let jobs = records.filter(pred);
    let edits = spec_outcomes(jobs, payloads);
    let out = after_edits(records, edits);
    lemma_filter_members(records, pred);
    lemma_after_edits_members(records, edits);
    assert forall|i: int| 0 <= i < out.len() implies !pred_after(#[trigger] out[i]) by {
        if pred_after(out[i]) {
            if !edits.contains(Some(out[i])) {
                let b = choose|b: int| 0 <= b < records.len() && records[b] == out[i];
                if pred(records[b]) {
                    let k = choose|k: int| 0 <= k < jobs.len() && jobs[k] == out[i];
                    lemma_edited_id_replaced(records, edits, k, i);
                }
            }
        }
    }
    lemma_filter_none(out, pred_after);
}

/// What a whole run of the stage leaves, in whatever order its jobs
/// finished: the set has the records it had, each identifier once; the
/// episode of each job that fetched its payload stands advanced; the episode of each
/// job that fetched nothing, and each record that was no job, stands as it was.
pub proof fn lemma_stage_outcome(
    records: Seq<EpisodeView>,
    jobs: Seq<EpisodeView>,
    payloads: Seq<Option<Seq<u8>>>,
)
    requires
        unique_ids(records),
        unique_ids(jobs),
        jobs.len() == payloads.len(),
        forall|k: int| 0 <= k < jobs.len() ==> records.contains(#[trigger] jobs[k]),
    ensures
        spec_after_jobs(records, jobs, payloads).len() == records.len(),
        unique_ids(spec_after_jobs(records, jobs, payloads)),
        forall|k: int|
            0 <= k < jobs.len() && payloads[k] is Some ==> spec_after_jobs(records, jobs, payloads).contains(
                spec_downloaded(#[trigger] jobs[k], payloads[k].unwrap()),
            ),
        forall|k: int|
            0 <= k < jobs.len() && payloads[k] is None ==> spec_after_jobs(records, jobs, payloads).contains(
                #[trigger] jobs[k],
            ),
        forall|i: int|
            0 <= i < records.len() && !has_id(jobs, records[i].id) ==> spec_after_jobs(
                records,
                jobs,
                payloads,
            ).contains(#[trigger] records[i]),
{
    let edits = spec_outcomes(jobs, payloads);
    let out = after_edits(records, edits);
    assert forall|j: int| 0 <= j < edits.len() && (#[trigger] edits[j]) is Some implies has_id(
        records,
        edits[j].unwrap().id,
    ) by {}
    lemma_after_edits_len(records, edits);
    lemma_after_edits_members(records, edits);
    assert forall|k: int| 0 <= k < jobs.len() && payloads[k] is Some implies out.contains(
        spec_downloaded(#[trigger] jobs[k], payloads[k].unwrap()),
    ) by {
        lemma_failure_does_not_block(records, jobs, payloads, k);
    }
    assert forall|k: int| 0 <= k < jobs.len() && payloads[k] is None implies out.contains(
        #[trigger] jobs[k],
    ) by {
        lemma_failed_job_unadvanced(records, jobs, payloads, k);
    }
    assert forall|i: int| 0 <= i < records.len() && !has_id(jobs, records[i].id) implies out.contains(
        #[trigger] records[i],
    ) by {
        assert forall|j: int| 0 <= j < edits.len() && (#[trigger] edits[j]) is Some implies edits[j].unwrap().id
            != records[i].id by {}
        lemma_edits_keep_others(records, edits, records[i]);
    }
}

/// A payload that is present is not fetched again, whichever series are
/// scanned: in a well-kept store, an episode whose recorded fingerprint
/// belongs to a file present for its series is no job of the stage.
pub proof fn lemma_present_is_no_job(
    series_vec: Seq<Series>,
    store: RWJson,
    index: Sha1Index,
    episode: EpisodeView,
)
    requires
        store.wf(),
        store.records(episode.series).contains(episode),
        episode.sha1 is Some,
        index.present(episode.series).contains(episode.sha1.unwrap()),
    ensures
        forall|k: int|
            0 <= k < spec_jobs(series_vec, store, index).len() ==> !({
                &&& (#[trigger] spec_jobs(series_vec, store, index)[k]).series == episode.series
                &&& spec_jobs(series_vec, store, index)[k].id == episode.id
            }),
    decreases series_vec.len(),
{
    if series_vec.len() > 0 {
        let series = series_vec.last();
        let records = store.records(series);
        let pred = |e: EpisodeView| spec_needs_download(e, index.present(series));
        let jobs = spec_jobs(series_vec, store, index);
        lemma_present_is_no_job(series_vec.drop_last(), store, index, episode);
        lemma_filter_members(records, pred);
        assert forall|k: int| 0 <= k < jobs.len() implies !({
            &&& (#[trigger] jobs[k]).series == episode.series
            &&& jobs[k].id == episode.id
        }) by {}
    }
}

} // verus!
