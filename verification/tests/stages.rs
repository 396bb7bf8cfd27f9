use fconx::canceller::Canceller;
use fconx::config::Config;
use fconx::download_url_scraper::{download_url_from, try_truncate_url, DownloadUrlScraper};
use fconx::downloader::{is_present, DownloadError, Downloader};
use fconx::episode::Episode;
use fconx::episode_scraper::{
    contains_id, episode_with_date, number_label, published_at, ArchiveEntry, EpisodeScraper,
};
use fconx::fconx::{Fconx, Stage};
use fconx::hasher::Sha1Hasher;
use fconx::rw_json::RWJson;
use fconx::rw_mp3::{RWMp3, Sha1Index};
use fconx::series::Series;
use fconx::text::{digits, parse_number, trim_number_prefix, zero_padded};
use fconx::worker::JobList;

fn episode(number: &str, page_url: &str) -> Episode {
    Episode::new(
        Series::FR,
        number.to_string(),
        format!("Title {}", number),
        "2021-03-04 00:00:00 UTC".to_string(),
        page_url.to_string(),
    )
}

fn entry(number: Option<&str>, title: Option<&str>, url: Option<&str>, date: Option<&str>) -> ArchiveEntry {
    ArchiveEntry {
        number: number.map(|s| s.to_string()),
        title: title.map(|s| s.to_string()),
        page_url: url.map(|s| s.to_string()),
        date: date.map(|s| s.to_string()),
    }
}

fn numbers(episodes: &Vec<Episode>) -> Vec<String> {
    episodes.iter().map(|e| e.number().to_string()).collect()
}

#[test]
fn number_prefix_is_trimmed_repeatedly() {
    assert_eq!(trim_number_prefix("No. 12"), "12");
    assert_eq!(trim_number_prefix("No. No. 12"), "12");
    assert_eq!(trim_number_prefix("No.12"), "No.12");
    assert_eq!(trim_number_prefix("12 No. "), "12 No. ");
    assert_eq!(trim_number_prefix("No. "), "");
    assert_eq!(trim_number_prefix(""), "");
    assert_eq!(trim_number_prefix("No"), "No");
}

#[test]
fn numbers_are_read_as_usize_reads_them() {
    assert_eq!(parse_number("12"), Some(12));
    assert_eq!(parse_number("0012"), Some(12));
    assert_eq!(parse_number("+7"), Some(7));
    assert_eq!(parse_number("0"), Some(0));
    assert_eq!(parse_number(""), None);
    assert_eq!(parse_number("+"), None);
    assert_eq!(parse_number("-3"), None);
    assert_eq!(parse_number("12a"), None);
    assert_eq!(parse_number(" 12"), None);
    assert_eq!(parse_number("1+2"), None);
    assert_eq!(parse_number("٣"), None);
    let max = usize::MAX.to_string();
    assert_eq!(parse_number(&max), Some(usize::MAX));
    assert_eq!(parse_number(&format!("{}0", max)), None);
    assert_eq!(parse_number("99999999999999999999999999"), None);
    for text in ["12", "+7", "", "+", "-3", "12a", "007", "18446744073709551616"] {
        assert_eq!(parse_number(text), text.parse::<usize>().ok());
    }
}

#[test]
fn numbers_are_padded_to_four_digits() {
    assert_eq!(zero_padded(0), "0000");
    assert_eq!(zero_padded(7), "0007");
    assert_eq!(zero_padded(42), "0042");
    assert_eq!(zero_padded(999), "0999");
    assert_eq!(zero_padded(1000), "1000");
    assert_eq!(zero_padded(12345), "12345");
    assert_eq!(digits(0), "0");
    assert_eq!(digits(90210), "90210");
    assert_eq!(digits(usize::MAX), usize::MAX.to_string());
    for n in [0usize, 9, 10, 99, 100, 9999, 10000, usize::MAX] {
        assert_eq!(zero_padded(n), format!("{:04}", n));
    }
}

#[test]
fn number_label_pads_numbers_and_keeps_other_text() {
    assert_eq!(number_label("No. 12"), "0012");
    assert_eq!(number_label("No. 1234"), "1234");
    assert_eq!(number_label("No. 12345"), "12345");
    assert_eq!(number_label("7"), "0007");
    assert_eq!(number_label("No. Bonus"), "Bonus");
    assert_eq!(number_label("Extra"), "Extra");
    assert_eq!(number_label("No. 12 (Rebroadcast)"), "12 (Rebroadcast)");
    assert_eq!(number_label("No. 99999999999999999999999999"), "99999999999999999999999999");
    assert_eq!(number_label(""), "");
}

#[test]
fn listing_dates_become_midnight_utc() {
    assert_eq!(published_at("03/04/21"), Some("2021-03-04 00:00:00 UTC".to_string()));
    assert_eq!(published_at("12/31/99"), Some("1999-12-31 00:00:00 UTC".to_string()));
    assert_eq!(published_at("1/2/05"), Some("2005-01-02 00:00:00 UTC".to_string()));
    assert_eq!(published_at("13/01/21"), None);
    assert_eq!(published_at("02/30/21"), None);
    assert_eq!(published_at("yesterday"), None);
    assert_eq!(published_at(""), None);
}

#[test]
fn entries_become_episodes_in_page_order() {
    let entries = vec![
        entry(Some("No. 3"), Some("Three"), Some("https://freakonomics.com/podcast/e3/"), Some("03/04/21")),
        entry(None, Some("No number"), Some("u"), Some("03/04/21")),
        entry(Some("No. 2"), None, Some("u"), Some("03/04/21")),
        entry(Some("No. 2"), Some("No link"), None, Some("03/04/21")),
        entry(Some("No. 2"), Some("No date"), Some("u"), None),
        entry(Some("No. 2"), Some("Bad date"), Some("u"), Some("soon")),
        entry(Some("Bonus"), Some("Extra"), Some("https://freakonomics.com/podcast/e1/"), Some("01/02/20")),
    ];
    let out = EpisodeScraper::scrape_episodes_by_series(Series::NSQ, &entries);
    assert_eq!(out.len(), 2);
    assert_eq!(out[0].number(), "0003");
    assert_eq!(out[0].title(), "Three");
    assert_eq!(out[0].series(), Series::NSQ);
    assert_eq!(out[0].date(), "2021-03-04 00:00:00 UTC");
    assert_eq!(out[0].page_url(), "https://freakonomics.com/podcast/e3/");
    assert_eq!(out[0].id(), "f74070de-170c-5647-8529-f265020a060c");
    assert_eq!(out[0].download_url(), None);
    assert_eq!(out[0].sha1(), None);
    assert_eq!(out[1].number(), "Bonus");
    assert_eq!(out[1].id(), "ae7f4f75-3c47-5a3d-bea6-ea5d7ead8494");
    assert_eq!(out[1].date(), "2020-01-02 00:00:00 UTC");
    assert!(EpisodeScraper::episode_from_entry(Series::FR, &entries[1]).is_none());
    assert!(episode_with_date(Series::FR, "1", "t", "u", None).is_none());
    let made = episode_with_date(Series::FR, "No. 1", "t", "python.org", Some("d".to_string())).unwrap();
    assert_eq!(made.number(), "0001");
    assert_eq!(made.date(), "d");
    assert_eq!(made.id(), "886313e1-3b8a-5372-9b90-0c9aee199e5d");
}

#[test]
fn discovery_adds_only_unknown_episodes() {
    let mut known_one = episode("1", "u1");
    known_one.set_download_url("https://cdn/1.mp3".to_string());
    let existing = vec![known_one, episode("2", "u2")];
    let scraped = vec![episode("3", "u3"), episode("1", "u1"), episode("4", "u4"), episode("3", "u3")];
    assert!(contains_id(&existing, &scraped[1]));
    assert!(!contains_id(&existing, &scraped[0]));
    let merged = EpisodeScraper::merge_new(existing, scraped);
    assert_eq!(numbers(&merged), vec!["1", "2", "3", "4"]);
    assert_eq!(merged[0].download_url(), Some("https://cdn/1.mp3".to_string()));
}

#[test]
fn discovery_twice_changes_nothing() {
    let mut store = RWJson::new("/d");
    let found = || vec![episode("1", "u1"), episode("2", "u2"), episode("3", "u3")];
    let added = EpisodeScraper::scrape_and_write_episodes(&mut store, Series::FR, found());
    assert_eq!(numbers(&added), vec!["1", "2", "3"]);
    let first = store.read_all_episodes(&Series::FR);
    let added = EpisodeScraper::scrape_and_write_episodes(&mut store, Series::FR, found());
    assert!(added.is_empty());
    let more = EpisodeScraper::scrape_and_write_episodes(
        &mut store,
        Series::FR,
        vec![episode("2", "u2"), episode("9", "u9")],
    );
    assert_eq!(numbers(&more), vec!["9"]);
    store.overwrite_all_episodes(&Series::FR, first);
    let first = store.read_all_episodes(&Series::FR);
    EpisodeScraper::scrape_and_write_episodes(&mut store, Series::FR, found());
    let second = store.read_all_episodes(&Series::FR);
    assert_eq!(numbers(&first), vec!["1", "2", "3"]);
    assert_eq!(numbers(&second), numbers(&first));
    assert!(store.read_all_episodes(&Series::NSQ).is_empty());
    let scraper = EpisodeScraper::new(vec![Series::FR]);
    assert!(format!("{:?}", scraper).contains("FR"));
}

#[test]
fn links_are_cut_behind_the_first_mp3() {
    assert_eq!(try_truncate_url("https://cdn/a.mp3?x=1"), Some("https://cdn/a.mp3".to_string()));
    assert_eq!(try_truncate_url("https://cdn/a.mp3"), Some("https://cdn/a.mp3".to_string()));
    assert_eq!(try_truncate_url("a.mp3.b.mp3"), Some("a.mp3".to_string()));
    assert_eq!(try_truncate_url(".mp3"), Some(".mp3".to_string()));
    assert_eq!(try_truncate_url("https://cdn/a.mp4"), None);
    assert_eq!(try_truncate_url("mp3"), None);
    assert_eq!(try_truncate_url(""), None);
    assert_eq!(try_truncate_url("é.mp3é"), Some("é.mp3".to_string()));
    assert_eq!(download_url_from("https://cdn/a.mp3?x=1"), "https://cdn/a.mp3");
    assert_eq!(download_url_from("https://cdn/a.ogg?x=1"), "https://cdn/a.ogg?x=1");
}

#[test]
fn resolution_takes_up_the_unresolved_only() {
    let mut resolved = episode("1", "u1");
    resolved.set_download_url("https://cdn/1.mp3".to_string());
    let all = vec![episode("0", "u0"), resolved, episode("2", "u2")];
    let jobs = DownloadUrlScraper::unresolved(&all);
    assert_eq!(numbers(&jobs), vec!["0", "2"]);
    let scraper = DownloadUrlScraper::new(32, vec![Series::FR]);
    assert_eq!(scraper.worker_count(jobs.len()), 2);
    assert_eq!(scraper.worker_count(50), 32);
    let mut e = episode("5", "u5");
    DownloadUrlScraper::scrape_download_url(&mut e, "https://cdn/5.mp3?token=1");
    assert_eq!(e.download_url(), Some("https://cdn/5.mp3".to_string()));
}

#[test]
fn retrieval_skips_present_payloads_and_unresolved_episodes() {
    let present = vec!["aaa".to_string(), "bbb".to_string()];
    let mut there = episode("1", "u1");
    there.set_download_url("https://cdn/1.mp3".to_string());
    there.set_sha1("bbb".to_string());
    let mut gone = episode("2", "u2");
    gone.set_download_url("https://cdn/2.mp3".to_string());
    gone.set_sha1("ccc".to_string());
    let mut fresh = episode("3", "u3");
    fresh.set_download_url("https://cdn/3.mp3".to_string());
    let unresolved = episode("4", "u4");
    assert!(is_present(&present, &"aaa".to_string()));
    assert!(!is_present(&present, &"ccc".to_string()));
    assert!(!Downloader::needs_download(&there, &present));
    assert!(Downloader::needs_download(&gone, &present));
    assert!(Downloader::needs_download(&fresh, &present));
    assert!(!Downloader::needs_download(&unresolved, &present));
    let all = vec![there, gone, fresh, unresolved];
    let jobs = Downloader::not_downloaded(&all, &present);
    assert_eq!(numbers(&jobs), vec!["2", "3"]);
    assert_eq!(numbers(&Downloader::not_downloaded(&all, &vec!["ccc".to_string()])), vec!["1", "3"]);
    let downloader = Downloader::new(8, vec![Series::FR]);
    assert_eq!(downloader.worker_count(2), 2);
    assert_eq!(downloader.worker_count(20), 8);
}

#[test]
fn download_errors_name_their_cause() {
    let unresolved = episode("4", "u4");
    match Downloader::download_url_of(&unresolved) {
        Err(DownloadError::MissingDownloadUrl(e)) => assert_eq!(e.id(), unresolved.id()),
        other => panic!("unexpected: {:?}", other),
    }
    let mut resolved = episode("5", "u5");
    resolved.set_download_url("https://cdn/5.mp3".to_string());
    assert_eq!(Downloader::download_url_of(&resolved).unwrap(), "https://cdn/5.mp3");
    let mut store = RWJson::new("/d");
    let mut hasher = Sha1Hasher::new();
    match Downloader::finish_job(&mut hasher, &mut store, resolved, "https://cdn/5.mp3".to_string(), None) {
        Err(DownloadError::GetRequest(url)) => assert_eq!(url, "https://cdn/5.mp3"),
        other => panic!("unexpected: {:?}", other),
    }
    assert!(store.read_all_episodes(&Series::FR).is_empty());
}

#[test]
fn a_failed_job_does_not_block_its_siblings() {
    let mut store = RWJson::new("/d");
    store.overwrite_all_episodes(&Series::FR, vec![episode("a", "ua"), episode("b", "ub"), episode("c", "uc")]);
    let jobs = DownloadUrlScraper::unresolved(&store.read_all_episodes(&Series::FR));
    let canceller = Canceller::new();
    let mut list = JobList::new(jobs);
    let mut done = 0;
    while let Some(job) = list.next(&canceller) {
        let href = if job.number() == "a" { None } else { Some(format!("https://cdn/{}.mp3?s=1", job.number())) };
        if DownloadUrlScraper::finish_job(&mut store, job, href) {
            done += 1;
        }
    }
    assert_eq!(done, 2);
    let all = store.read_all_episodes(&Series::FR);
    assert_eq!(all.len(), 3);
    for e in all.iter() {
        match e.number() {
            "a" => assert_eq!(e.download_url(), None),
            n => assert_eq!(e.download_url(), Some(format!("https://cdn/{}.mp3", n))),
        }
    }
    let left = DownloadUrlScraper::unresolved(&all);
    assert_eq!(numbers(&left), vec!["a"]);
}

#[test]
fn driver_runs_the_stages_in_order() {
    let config = Config::new_rc("/music".to_string(), vec![Series::FR]);
    let canceller = Canceller::new();
    let mut fconx = Fconx::with_resolution_workers(&config, 4);
    assert_eq!(fconx.stage(), Stage::DiscoveryPending);
    assert!(!fconx.scrape_download_url(&canceller));
    assert!(!fconx.download_mp3(&canceller));
    assert_eq!(fconx.stage(), Stage::DiscoveryPending);
    assert!(fconx.scrape_episodes(&canceller));
    assert_eq!(fconx.stage(), Stage::ResolutionPending);
    assert!(!fconx.scrape_episodes(&canceller));
    assert!(fconx.scrape_download_url(&canceller));
    assert_eq!(fconx.stage(), Stage::RetrievalPending);
    assert!(fconx.download_mp3(&canceller));
    assert_eq!(fconx.stage(), Stage::Done);
    assert!(!fconx.download_mp3(&canceller));
    assert_eq!(fconx.stage(), Stage::Done);
    assert_eq!(fconx.download_url_scraper().worker_count(100), 4);
    assert_eq!(fconx.downloader().worker_count(100), 8);
    assert_eq!(fconx.rw_mp3().worker_count(100), 64);
    assert_eq!(Fconx::DOWNLOAD_WORKERS, 8);
    assert_eq!(Fconx::FINGERPRINT_WORKERS, 64);
    assert_eq!(Stage::DiscoveryPending.next(), Stage::ResolutionPending);
    assert_eq!(Stage::Done.next(), Stage::Done);
    let sized_by_machine = Fconx::new(&config);
    assert_eq!(sized_by_machine.stage(), Stage::DiscoveryPending);
    assert_eq!(sized_by_machine.downloader().worker_count(100), 8);
    assert!(format!("{:?}", sized_by_machine.episode_scraper()).contains("FR"));
}

#[test]
fn cancellation_skips_every_later_stage() {
    let config = Config::new_rc("/music".to_string(), vec![Series::FR]);
    let mut canceller = Canceller::new();
    let mut fconx = Fconx::with_resolution_workers(&config, 4);
    assert!(fconx.scrape_episodes(&canceller));
    canceller.cancel();
    assert!(!fconx.scrape_download_url(&canceller));
    assert_eq!(fconx.stage(), Stage::Done);
    assert!(!fconx.download_mp3(&canceller));
    assert_eq!(fconx.stage(), Stage::Done);
}

#[test]
fn three_found_two_resolved_two_retrieved() {
    let config = Config::new_rc("/music".to_string(), vec![Series::FR]);
    let rw_mp3 = RWMp3::new(&config, 64);
    let canceller = Canceller::new();
    let mut store = RWJson::new(&config.data_dir_path());
    assert!(store.read_all_episodes(&Series::FR).is_empty());

    let entries = vec![
        entry(Some("No. 1"), Some("One"), Some("https://freakonomics.com/podcast/e1/"), Some("01/01/21")),
        entry(Some("No. 2"), Some("Two"), Some("https://freakonomics.com/podcast/e2/"), Some("01/08/21")),
        entry(Some("No. 3"), Some("Three"), Some("https://freakonomics.com/podcast/e3/"), Some("01/15/21")),
    ];
    let found = EpisodeScraper::scrape_episodes_by_series(Series::FR, &entries);
    EpisodeScraper::scrape_and_write_episodes(&mut store, Series::FR, found);
    let after_discovery = store.read_all_episodes(&Series::FR);
    assert_eq!(numbers(&after_discovery), vec!["0001", "0002", "0003"]);
    assert!(after_discovery.iter().all(|e| e.download_url().is_none() && e.sha1().is_none()));

    let mut jobs = JobList::new(DownloadUrlScraper::unresolved(&after_discovery));
    assert_eq!(jobs.len(), 3);
    while let Some(job) = jobs.next(&canceller) {
        let href = match job.number() {
            "0003" => None,
            n => Some(format!("https://cdn.example/{}.mp3?utm=feed", n)),
        };
        DownloadUrlScraper::finish_job(&mut store, job, href);
    }
    let after_resolution = store.read_all_episodes(&Series::FR);
    assert_eq!(after_resolution.len(), 3);
    for e in after_resolution.iter() {
        match e.number() {
            "0003" => assert_eq!(e.download_url(), None),
            n => assert_eq!(e.download_url(), Some(format!("https://cdn.example/{}.mp3", n))),
        }
    }

    let mut files: Vec<Vec<u8>> = Vec::new();
    let mut names: Vec<String> = Vec::new();
    let present = RWMp3::read_mp3s_and_to_sha1(&files);
    let mut jobs = JobList::new(Downloader::not_downloaded(&after_resolution, &present));
    assert_eq!(jobs.len(), 2);
    let mut hasher = Sha1Hasher::new();
    while let Some(job) = jobs.next(&canceller) {
        let url = Downloader::download_url_of(&job).unwrap();
        let payload = if job.number() == "0001" { b"payload-one".to_vec() } else { b"payload-two".to_vec() };
        names.push(rw_mp3.dest_file_path(&job));
        files.push(payload.clone());
        let done = Downloader::finish_job(&mut hasher, &mut store, job, url, Some(payload)).unwrap();
        assert!(done.sha1().is_some());
    }
    names.sort();
    assert_eq!(
        names,
        vec![
            "/music/Freakonomics Radio/0001 - One.mp3".to_string(),
            "/music/Freakonomics Radio/0002 - Two.mp3".to_string(),
        ]
    );
    let end = store.read_all_episodes(&Series::FR);
    assert_eq!(end.len(), 3);
    for e in end.iter() {
        match e.number() {
            "0001" => assert_eq!(e.sha1(), Some("4b4a7ddbb6acab8e795e92b212c78fdab2cb8cb9".to_string())),
            "0002" => assert_eq!(e.sha1(), Some("7e5b1049a4b542b5b3ce0cb641be02b222208add".to_string())),
            _ => {
                assert_eq!(e.sha1(), None);
                assert_eq!(e.download_url(), None);
            }
        }
    }

    let present = RWMp3::read_mp3s_and_to_sha1(&files);
    assert!(Downloader::not_downloaded(&end, &present).is_empty());
    assert_eq!(numbers(&DownloadUrlScraper::unresolved(&end)), vec!["0003"]);
}

#[test]
fn a_second_run_finds_nothing_to_do() {
    let mut store = RWJson::new("/d");
    let canceller = Canceller::new();
    let found = || vec![episode("1", "u1"), episode("2", "u2")];
    let mut files: Vec<Vec<u8>> = Vec::new();
    let mut snapshots: Vec<Vec<(String, Option<String>, Option<String>)>> = Vec::new();
    for _ in 0..2 {
        EpisodeScraper::scrape_and_write_episodes(&mut store, Series::FR, found());
        let all = store.read_all_episodes(&Series::FR);
        let mut jobs = JobList::new(DownloadUrlScraper::unresolved(&all));
        while let Some(job) = jobs.next(&canceller) {
            let href = format!("https://cdn/{}.mp3", job.number());
            DownloadUrlScraper::finish_job(&mut store, job, Some(href));
        }
        let all = store.read_all_episodes(&Series::FR);
        let present = RWMp3::read_mp3s_and_to_sha1(&files);
        let mut jobs = JobList::new(Downloader::not_downloaded(&all, &present));
        let mut hasher = Sha1Hasher::new();
        while let Some(job) = jobs.next(&canceller) {
            let url = Downloader::download_url_of(&job).unwrap();
            let payload = format!("bytes of {}", job.number()).into_bytes();
            files.push(payload.clone());
            Downloader::finish_job(&mut hasher, &mut store, job, url, Some(payload)).unwrap();
        }
        snapshots.push(
            store
                .read_all_episodes(&Series::FR)
                .iter()
                .map(|e| (e.id().to_string(), e.download_url(), e.sha1()))
                .collect(),
        );
    }
    assert_eq!(files.len(), 2);
    assert_eq!(snapshots[0].len(), 2);
    assert_eq!(snapshots[0], snapshots[1]);
}

#[test]
fn a_run_after_cancellation_takes_up_what_was_left() {
    let config = Config::new_rc("/music".to_string(), vec![Series::FR]);
    let mut store = RWJson::new("/d");
    let mut canceller = Canceller::new();
    let mut first = Fconx::with_resolution_workers(&config, 2);
    assert!(first.scrape_episodes(&canceller));
    let mut known = episode("1", "u1");
    known.set_download_url("https://cdn/1.mp3".to_string());
    known.set_sha1("kept".to_string());
    store.overwrite_all_episodes(&Series::FR, vec![known]);
    EpisodeScraper::scrape_and_write_episodes(&mut store, Series::FR, vec![episode("1", "u1"), episode("2", "u2")]);
    canceller.cancel();
    assert!(!first.scrape_download_url(&canceller));
    assert!(!first.download_mp3(&canceller));

    let canceller = Canceller::new();
    let mut second = Fconx::with_resolution_workers(&config, 2);
    assert!(second.scrape_episodes(&canceller));
    EpisodeScraper::scrape_and_write_episodes(&mut store, Series::FR, vec![episode("1", "u1"), episode("2", "u2")]);
    assert!(second.scrape_download_url(&canceller));
    let mut jobs = JobList::new(DownloadUrlScraper::unresolved(&store.read_all_episodes(&Series::FR)));
    assert_eq!(jobs.len(), 1);
    while let Some(job) = jobs.next(&canceller) {
        assert_eq!(job.number(), "2");
        DownloadUrlScraper::finish_job(&mut store, job, Some("https://cdn/2.mp3".to_string()));
    }
    assert!(second.download_mp3(&canceller));
    let present = vec!["kept".to_string()];
    let jobs = Downloader::not_downloaded(&store.read_all_episodes(&Series::FR), &present);
    assert_eq!(numbers(&jobs), vec!["2"]);
    let all = store.read_all_episodes(&Series::FR);
    let one = all.iter().find(|e| e.number() == "1").unwrap();
    assert_eq!(one.download_url(), Some("https://cdn/1.mp3".to_string()));
    assert_eq!(one.sha1(), Some("kept".to_string()));
}

fn episode_of(series: Series, number: &str, page_url: &str) -> Episode {
    Episode::new(series, number.to_string(), "t".to_string(), "d".to_string(), page_url.to_string())
}

#[test]
fn job_lists_go_through_the_selected_series_in_turn() {
    let mut store = RWJson::new("/d");
    let mut fr_done = episode_of(Series::FR, "f1", "uf1");
    fr_done.set_download_url("https://cdn/f1.mp3".to_string());
    fr_done.set_sha1("on-disk".to_string());
    let mut fr_lost = episode_of(Series::FR, "f2", "uf2");
    fr_lost.set_download_url("https://cdn/f2.mp3".to_string());
    fr_lost.set_sha1("lost".to_string());
    store.overwrite_all_episodes(&Series::FR, vec![fr_done, episode_of(Series::FR, "f3", "uf3"), fr_lost]);
    let mut ol_new = episode_of(Series::OL, "o1", "uo1");
    ol_new.set_download_url("https://cdn/o1.mp3".to_string());
    store.overwrite_all_episodes(&Series::OL, vec![episode_of(Series::OL, "o0", "uo0"), ol_new]);
    store.overwrite_all_episodes(&Series::NSQ, vec![episode_of(Series::NSQ, "n1", "un1")]);

    let scraper = DownloadUrlScraper::new(4, vec![Series::OL, Series::FR]);
    assert_eq!(numbers(&scraper.no_download_url_episodes(&store)), vec!["o0", "f3"]);
    let none = DownloadUrlScraper::new(4, Vec::new());
    assert!(none.no_download_url_episodes(&store).is_empty());

    let mut index = Sha1Index::new();
    assert!(index.get(Series::FR).is_empty());
    index.set(Series::FR, vec!["on-disk".to_string()]);
    index.set(Series::OL, vec!["lost".to_string()]);
    assert_eq!(index.get(Series::FR), &vec!["on-disk".to_string()]);
    assert!(index.get(Series::NSQ).is_empty());
    let downloader = Downloader::new(8, vec![Series::FR, Series::NSQ, Series::OL]);
    assert_eq!(numbers(&downloader.scan_not_downloaded_mp3s(&store, &index)), vec!["f2", "o1"]);
    let reversed = Downloader::new(8, vec![Series::OL, Series::FR]);
    assert_eq!(numbers(&reversed.scan_not_downloaded_mp3s(&store, &index)), vec!["o1", "f2"]);
}
