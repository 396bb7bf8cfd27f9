//! The pipeline driver: three stages in a fixed order, each entered only
//! while no cancellation has been observed.

use vstd::prelude::*;
use crate::canceller::Canceller;
use crate::config::Config;
use crate::download_url_scraper::DownloadUrlScraper;
use crate::downloader::Downloader;
use crate::episode::EpisodeView;
use crate::episode_scraper::{lemma_merged_covers, lemma_merged_known, spec_merged, EpisodeScraper};
use crate::hasher::Sha1Hasher;
use crate::rw_json::{
    after_edits,
    has_id,
    lemma_after_edits_members,
    lemma_edits_delete_nothing,
    lemma_filter_members,
    lemma_filter_none,
};
use crate::rw_mp3::RWMp3;

verus! {

/// Where the driver stands.
#[derive(Debug, Clone, Copy, PartialEq, Eq, Structural)]
pub enum Stage {
    DiscoveryPending,
    ResolutionPending,
    RetrievalPending,
    Done,
}

impl Stage {
    /// The state that follows once the pending stage has run.
    pub open spec fn spec_next(self) -> Stage {
        match self {
            Stage::DiscoveryPending => Stage::ResolutionPending,
            Stage::ResolutionPending => Stage::RetrievalPending,
            Stage::RetrievalPending => Stage::Done,
            Stage::Done => Stage::Done,
        }
    }

    /// The state after a step: with cancellation observed the pending stage
    /// and all that follow are skipped.
    pub open spec fn spec_step(self, cancelled: bool) -> Stage {
        if cancelled {
            Stage::Done
        } else {
            self.spec_next()
        }
    }

    /// Whether a step runs the pending stage.
    pub open spec fn spec_runs(self, cancelled: bool) -> bool {
        !cancelled && self != Stage::Done
    }

    pub fn next(self) -> (res: Stage)
        ensures
            res == self.spec_next(),
    {
        match self {
            Stage::DiscoveryPending => Stage::ResolutionPending,
            Stage::ResolutionPending => Stage::RetrievalPending,
            Stage::RetrievalPending => Stage::Done,
            Stage::Done => Stage::Done,
        }
    }
}

/// Calls `num_cpus::get`, the number of logical processors that the machine
/// reports; it differs from machine to machine, so nothing is claimed of it.
#[verifier::external_body]
fn cpu_count() -> (res: usize) {
    num_cpus::get()
}

/// The driver and the three stages it runs.
#[derive(Debug)]
pub struct Fconx {
    stage: Stage,
    episode_scraper: EpisodeScraper,
    download_url_scraper: DownloadUrlScraper,
    downloader: Downloader,
    rw_mp3: RWMp3,
}

impl Fconx {
    /// How many workers fingerprint the files that are present.
    pub const FINGERPRINT_WORKERS: usize = 64;

    /// How many workers download at most.
    pub const DOWNLOAD_WORKERS: usize = 8;

    pub closed spec fn spec_stage(&self) -> Stage {
        self.stage
    }

    /// The series that discovery lists.
    pub closed spec fn spec_series_vec(&self) -> Seq<crate::series::Series> {
        self.episode_scraper.spec_series_vec()
    }

    pub closed spec fn spec_resolution_workers(&self) -> nat {
        self.download_url_scraper.spec_thread_max()
    }

    pub closed spec fn spec_download_workers(&self) -> nat {
        self.downloader.spec_thread_max()
    }

    pub closed spec fn spec_fingerprint_workers(&self) -> nat {
        self.rw_mp3.spec_workers()
    }

    /// A driver before its first stage. Resolution gets one worker per
    /// processor of the machine.
    pub fn new(config: &Config) -> (res: Fconx)
        ensures
            res.spec_stage() == Stage::DiscoveryPending,
            res.spec_series_vec() == config.spec_series_vec(),
            res.spec_download_workers() == 8,
            res.spec_fingerprint_workers() == 64,
    {
        Fconx::with_resolution_workers(config, cpu_count())
    }

    /// A driver before its first stage, with the given number of resolution
    /// workers.
    pub fn with_resolution_workers(config: &Config, resolution_workers: usize) -> (res: Fconx)
        ensures
            res.spec_stage() == Stage::DiscoveryPending,
            res.spec_series_vec() == config.spec_series_vec(),
            res.spec_resolution_workers() == resolution_workers,
            res.spec_download_workers() == 8,
            res.spec_fingerprint_workers() == 64,
    {
        Fconx {
            stage: Stage::DiscoveryPending,
            episode_scraper: EpisodeScraper::new(config.series_vec()),
            download_url_scraper: DownloadUrlScraper::new(resolution_workers, config.series_vec()),
            downloader: Downloader::new(Fconx::DOWNLOAD_WORKERS, config.series_vec()),
            rw_mp3: RWMp3::new(config, Fconx::FINGERPRINT_WORKERS),
        }
    }

    pub fn stage(&self) -> (res: Stage)
        ensures
            res == self.spec_stage(),
    {
        self.stage
    }

    pub fn episode_scraper(&self) -> (res: &EpisodeScraper)
        ensures
            res.spec_series_vec() == self.spec_series_vec(),
    {
        &self.episode_scraper
    }

    pub fn download_url_scraper(&self) -> (res: &DownloadUrlScraper)
        ensures
            res.spec_thread_max() == self.spec_resolution_workers(),
    {
        &self.download_url_scraper
    }

    pub fn downloader(&self) -> (res: &Downloader)
        ensures
            res.spec_thread_max() == self.spec_download_workers(),
    {
        &self.downloader
    }

    pub fn rw_mp3(&self) -> (res: &RWMp3)
        ensures
            res.spec_workers() == self.spec_fingerprint_workers(),
    {
        &self.rw_mp3
    }

    /// One step of the driver, taken where `wanted` is the pending stage:
    /// tells whether that stage is to run now and moves on. With
    /// cancellation observed the driver is done and nothing runs; a stage
    /// that is not pending does not run and leaves the driver where it is.
    fn enter(&mut self, wanted: Stage, canceller: &Canceller) -> (res: bool)
        ensures
            old(self).spec_stage() == wanted ==> {
                &&& res == wanted.spec_runs(canceller.spec_is_cancel())
                &&& final(self).spec_stage() == wanted.spec_step(canceller.spec_is_cancel())
            },
            old(self).spec_stage() != wanted ==> {
                &&& !res
                &&& final(self).spec_stage() == if canceller.spec_is_cancel() {
                    Stage::Done
                } else {
                    old(self).spec_stage()
                }
            },
            final(self).spec_series_vec() == old(self).spec_series_vec(),
            final(self).spec_resolution_workers() == old(self).spec_resolution_workers(),
            final(self).spec_download_workers() == old(self).spec_download_workers(),
            final(self).spec_fingerprint_workers() == old(self).spec_fingerprint_workers(),
    {
        if canceller.is_cancel() {
            self.stage = Stage::Done;
            return false;
        }
        if self.stage == wanted {
            self.stage = wanted.next();
            wanted != Stage::Done
        } else {
            false
        }
    }

    /// Enters discovery: tells whether it is to run now.
    pub fn scrape_episodes(&mut self, canceller: &Canceller) -> (res: bool)
        ensures
            res == (old(self).spec_stage() == Stage::DiscoveryPending
                && !canceller.spec_is_cancel()),
            final(self).spec_stage() == if canceller.spec_is_cancel() {
                Stage::Done
            } else if res {
                Stage::ResolutionPending
            } else {
                old(self).spec_stage()
            },
            final(self).spec_series_vec() == old(self).spec_series_vec(),
            final(self).spec_resolution_workers() == old(self).spec_resolution_workers(),
            final(self).spec_download_workers() == old(self).spec_download_workers(),
            final(self).spec_fingerprint_workers() == old(self).spec_fingerprint_workers(),
    {
        self.enter(Stage::DiscoveryPending, canceller)
    }

    /// Enters resolution: tells whether it is to run now.
    pub fn scrape_download_url(&mut self, canceller: &Canceller) -> (res: bool)
        ensures
            res == (old(self).spec_stage() == Stage::ResolutionPending
                && !canceller.spec_is_cancel()),
            final(self).spec_stage() == if canceller.spec_is_cancel() {
                Stage::Done
            } else if res {
                Stage::RetrievalPending
            } else {
                old(self).spec_stage()
            },
            final(self).spec_series_vec() == old(self).spec_series_vec(),
            final(self).spec_resolution_workers() == old(self).spec_resolution_workers(),
            final(self).spec_download_workers() == old(self).spec_download_workers(),
            final(self).spec_fingerprint_workers() == old(self).spec_fingerprint_workers(),
    {
        self.enter(Stage::ResolutionPending, canceller)
    }

    /// Enters retrieval: tells whether it is to run now.
    pub fn download_mp3(&mut self, canceller: &Canceller) -> (res: bool)
        ensures
            res == (old(self).spec_stage() == Stage::RetrievalPending
                && !canceller.spec_is_cancel()),
            final(self).spec_stage() == if canceller.spec_is_cancel() || res {
                Stage::Done
            } else {
                old(self).spec_stage()
            },
            final(self).spec_series_vec() == old(self).spec_series_vec(),
            final(self).spec_resolution_workers() == old(self).spec_resolution_workers(),
            final(self).spec_download_workers() == old(self).spec_download_workers(),
            final(self).spec_fingerprint_workers() == old(self).spec_fingerprint_workers(),
    {
        self.enter(Stage::RetrievalPending, canceller)
    }
}

/// The driver never goes back and is done after three steps at most,
/// cancelled or not.
pub proof fn lemma_driver_ends(stage: Stage, first: bool, second: bool, third: bool)
    ensures
        stage.spec_step(first).spec_step(second).spec_step(third) == Stage::Done,
        Stage::Done.spec_step(first) == Stage::Done,
        !Stage::Done.spec_runs(first),
{
}

/// Once cancellation is observed, the pending stage and every later one is
/// skipped, and the driver is done.
pub proof fn lemma_cancelled_skips(stage: Stage, later: bool)
    ensures
        !stage.spec_runs(true),
        stage.spec_step(true) == Stage::Done,
        !stage.spec_step(true).spec_runs(later),
{
}

/// The records of a series after discovery and resolution: the found
/// episodes that are new join the known ones, then every episode without a
/// download address is a job, `hrefs[i]` being what job `i` found.
pub open spec fn spec_resolved_records(
    records: Seq<EpisodeView>,
    scraped: Seq<EpisodeView>,
    hrefs: Seq<Option<Seq<char>>>,
) -> Seq<EpisodeView> {
    let found = spec_merged(records, scraped);
    crate::download_url_scraper::spec_after_jobs(
        found,
        crate::download_url_scraper::spec_no_download_url(found),
        hrefs,
    )
}

/// The records of a series after a whole run, the three stages in their
/// order: after discovery and resolution, every episode that still has to be
/// downloaded, judged by the fingerprints of the files present, is a job,
/// `payloads[i]` being what job `i` fetched.
pub open spec fn spec_run(
    records: Seq<EpisodeView>,
    present: Seq<Seq<char>>,
    scraped: Seq<EpisodeView>,
    hrefs: Seq<Option<Seq<char>>>,
    payloads: Seq<Option<Seq<u8>>>,
) -> Seq<EpisodeView> {
    let resolved = spec_resolved_records(records, scraped, hrefs);
    crate::downloader::spec_after_jobs(
        resolved,
        crate::downloader::spec_not_downloaded(resolved, present),
        payloads,
    )
}

/// A run is idempotent: after a run in which no job failed, with the files
/// that were present still there and the fetched payloads beside them, and
/// with the same listing, every found episode is known, no stage finds a
/// job, and a second run leaves the records exactly as the first left them.
pub proof fn lemma_second_run_changes_nothing(
    records: Seq<EpisodeView>,
    present: Seq<Seq<char>>,
    scraped: Seq<EpisodeView>,
    hrefs: Seq<Option<Seq<char>>>,
    payloads: Seq<Option<Seq<u8>>>,
    present_after: Seq<Seq<char>>,
)
    requires
        hrefs.len() == crate::download_url_scraper::spec_no_download_url(
            spec_merged(records, scraped),
        ).len(),
        forall|i: int| 0 <= i < hrefs.len() ==> (#[trigger] hrefs[i]) is Some,
        payloads.len() == crate::downloader::spec_not_downloaded(
            spec_resolved_records(records, scraped, hrefs),
            present,
        ).len(),
        forall|i: int| 0 <= i < payloads.len() ==> (#[trigger] payloads[i]) is Some,
        forall|i: int| 0 <= i < present.len() ==> present_after.contains(#[trigger] present[i]),
        forall|i: int|
            0 <= i < payloads.len() ==> present_after.contains(
                Sha1Hasher::spec_sha1((#[trigger] payloads[i]).unwrap()),
            ),
    ensures
        spec_merged(spec_run(records, present, scraped, hrefs, payloads), scraped) == spec_run(
            records,
            present,
            scraped,
            hrefs,
            payloads,
        ),
        crate::download_url_scraper::spec_no_download_url(
            spec_run(records, present, scraped, hrefs, payloads),
        ) == Seq::<EpisodeView>::empty(),
        crate::downloader::spec_not_downloaded(
            spec_run(records, present, scraped, hrefs, payloads),
            present_after,
        ) == Seq::<EpisodeView>::empty(),
        spec_run(
            spec_run(records, present, scraped, hrefs, payloads),
            present_after,
            scraped,
            Seq::empty(),
            Seq::empty(),
        ) == spec_run(records, present, scraped, hrefs, payloads),
{
    let found = spec_merged(records, scraped);
    let unresolved = |e: EpisodeView| crate::download_url_scraper::spec_unresolved(e);
    let resolved = spec_resolved_records(records, scraped, hrefs);
    let wanted = |e: EpisodeView| crate::downloader::spec_needs_download(e, present);
    let jobs = resolved.filter(wanted);
    let edits = crate::downloader::spec_outcomes(jobs, payloads);
    let after = spec_run(records, present, scraped, hrefs, payloads);

    // Every found episode is known after the run.
    assert forall|i: int| 0 <= i < scraped.len() implies has_id(after, (#[trigger] scraped[i]).id) by {
        lemma_merged_covers(records, scraped, i);
        lemma_edits_delete_nothing(
            found,
            crate::download_url_scraper::spec_outcomes(found.filter(unresolved), hrefs),
            scraped[i].id,
        );
        lemma_edits_delete_nothing(resolved, edits, scraped[i].id);
    }
    lemma_merged_known(after, scraped);

    // Every record has its download address.
    crate::download_url_scraper::lemma_all_resolved(found, hrefs);
    lemma_filter_members(resolved, unresolved);
    lemma_filter_members(resolved, wanted);
    lemma_after_edits_members(resolved, edits);
    assert forall|i: int| 0 <= i < after.len() implies !unresolved(#[trigger] after[i]) by {}
    lemma_filter_none(after, unresolved);

    // Every payload is there.
    crate::downloader::lemma_all_retrieved(resolved, present, payloads, present_after);

}

} // verus!
