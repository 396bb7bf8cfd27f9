use fconx::canceller::Canceller;
use fconx::config::Config;
use fconx::config_model::{deserialize, serialize, ConfigModel};
use fconx::downloader::DownloadError;
use fconx::logger::Log;
use fconx::episode::Episode;
use fconx::hasher::Sha1Hasher;
use fconx::rw_json::{duplicate_all, episodes_without_id, RWJson, RW};
use fconx::rw_mp3::{is_reserved, sanitized, RWMp3};
use fconx::series::Series;
use fconx::text::join_path;
use fconx::worker::{pool_size, JobList};

fn episode(series: Series, number: &str, title: &str, page_url: &str) -> Episode {
    Episode::new(
        series,
        number.to_string(),
        title.to_string(),
        "2021-03-04 00:00:00 UTC".to_string(),
        page_url.to_string(),
    )
}

fn ids(episodes: &Vec<Episode>) -> Vec<String> {
    episodes.iter().map(|e| e.id().to_string()).collect()
}

#[test]
fn series_names_and_files() {
    assert_eq!(Series::FR.name(), "FR");
    assert_eq!(Series::PIMA.name(), "PIMA");
    assert_eq!(Series::FR.data_json_filename(), "fr.json");
    assert_eq!(Series::NSQ.data_json_filename(), "nsq.json");
    assert_eq!(Series::FMD.data_json_filename(), "fmd.json");
    assert_eq!(Series::PIMA.data_json_filename(), "pima.json");
    assert_eq!(Series::OL.data_json_filename(), "ol.json");
    assert_eq!(Series::FR.mp3_dirname(), "Freakonomics Radio");
    assert_eq!(Series::NSQ.mp3_dirname(), "No Stupid Question");
    assert_eq!(Series::FMD.mp3_dirname(), "Freakonomics MD");
    assert_eq!(Series::PIMA.mp3_dirname(), "People I Mostly Admire");
    assert_eq!(Series::OL.mp3_dirname(), "Off Leash");
    assert_eq!(Series::FMD.address(), "https://freakonomics.com/series-full/bapu/");
    assert_eq!(Series::OL.address(), "https://freakonomics.com/series-full/off-leash/");
    assert_eq!(Series::FR.index(), 0);
    assert_eq!(Series::OL.index(), 4);
}

#[test]
fn series_urls_are_written_as_urls() {
    assert_eq!(
        Series::FR.url(),
        Some("https://freakonomics.com/series-full/freakonomics-radio/".to_string())
    );
    assert_eq!(Series::NSQ.url(), Some("https://freakonomics.com/series-full/nsq/".to_string()));
    assert_eq!(Series::FMD.url(), Some("https://freakonomics.com/series-full/bapu/".to_string()));
    assert_eq!(
        Series::PIMA.url(),
        Some("https://freakonomics.com/series-full/people-i-mostly-admire/".to_string())
    );
    assert_eq!(Series::OL.url(), Some("https://freakonomics.com/series-full/off-leash/".to_string()));
    for series in [Series::FR, Series::NSQ, Series::FMD, Series::PIMA, Series::OL] {
        let expected = url::Url::parse(&series.address()).unwrap().to_string();
        assert_eq!(series.url(), Some(expected));
    }
}

#[test]
fn paths_get_a_separator_only_where_one_is_needed() {
    assert_eq!(join_path("a", "b"), "a/b");
    assert_eq!(join_path("a/", "b"), "a/b");
    assert_eq!(join_path("", "b"), "b");
    assert_eq!(join_path("/", "b"), "/b");
    assert_eq!(join_path("a", ""), "a/");
    assert_eq!(join_path("", ""), "");
    assert_eq!(join_path("/music/fconx", ".data"), "/music/fconx/.data");
    for (dir, name) in [("a", "b"), ("a/", "b"), ("", "b"), ("/", "b"), ("a", ""), ("a/b/", "c.mp3")] {
        let expected = std::path::Path::new(dir).join(name).to_string_lossy().to_string();
        assert_eq!(join_path(dir, name), expected);
    }
}

#[test]
fn an_empty_base_directory_gives_relative_directories() {
    let config = Config::new_rc(String::new(), vec![Series::OL]);
    assert_eq!(config.dir_path(), "");
    assert_eq!(config.data_dir_path(), ".data");
    assert_eq!(config.temp_dir_path(), ".temp");
    assert_eq!(
        config.required_dirs(),
        vec!["".to_string(), ".data".to_string(), ".temp".to_string(), "Off Leash".to_string()]
    );
    let store = RWJson::new(&config.data_dir_path());
    assert_eq!(store.path(&Series::OL), ".data/ol.json");
    let rw_mp3 = RWMp3::new(&config, 1);
    assert_eq!(rw_mp3.dir_path(Series::OL), "Off Leash");
    let e = episode(Series::OL, "0001", "T", "u");
    assert_eq!(rw_mp3.dest_file_path(&e), "Off Leash/0001 - T.mp3");
    assert_eq!(rw_mp3.temp_file_path(&e), ".temp/0001 - T.mp3");
}

#[test]
fn a_base_directory_that_ends_in_a_separator_gets_no_second_one() {
    let config = Config::new_arc(ConfigModel::default_in("/home/me"));
    assert_eq!(config.dir_path(), "/home/me/Music/fconx/");
    assert_eq!(config.data_dir_path(), "/home/me/Music/fconx/.data");
    assert_eq!(config.temp_dir_path(), "/home/me/Music/fconx/.temp");
    let rw_mp3 = RWMp3::new(&config, 1);
    assert_eq!(rw_mp3.dir_path(Series::FR), "/home/me/Music/fconx/Freakonomics Radio");
    assert_eq!(ConfigModel::default_in("/home/me/").dir_path, "/home/me/Music/fconx/");
    assert_eq!(ConfigModel::default_in("").dir_path, "Music/fconx/");
}

#[test]
fn series_is_read_from_its_name() {
    for series in [Series::FR, Series::NSQ, Series::FMD, Series::PIMA, Series::OL] {
        assert_eq!(Series::try_from(series.name()).unwrap(), series);
    }
}

#[test]
fn unknown_series_name_is_rejected() {
    let err = Series::try_from("SBTI".to_string()).unwrap_err();
    assert_eq!(err.0, "SBTI");
    assert!(Series::try_from("fr".to_string()).is_err());
    assert!(Series::try_from(String::new()).is_err());
}

#[test]
fn episode_id_is_the_dns_uuid_of_its_page() {
    let e = episode(Series::FR, "0001", "One", "python.org");
    assert_eq!(e.id(), "886313e1-3b8a-5372-9b90-0c9aee199e5d");
    let again = episode(Series::NSQ, "0002", "Other", "python.org");
    assert_eq!(again.id(), e.id());
    let other = episode(Series::FR, "0001", "One", "https://freakonomics.com/podcast/e1/");
    assert_eq!(other.id(), "ae7f4f75-3c47-5a3d-bea6-ea5d7ead8494");
}

#[test]
fn new_episode_is_unresolved_and_unretrieved() {
    let e = episode(Series::PIMA, "0042", "A Title", "https://freakonomics.com/podcast/e1/");
    assert_eq!(e.series(), Series::PIMA);
    assert_eq!(e.number(), "0042");
    assert_eq!(e.title(), "A Title");
    assert_eq!(e.date(), "2021-03-04 00:00:00 UTC");
    assert_eq!(e.page_url(), "https://freakonomics.com/podcast/e1/");
    assert_eq!(e.download_url(), None);
    assert_eq!(e.sha1(), None);
}

#[test]
fn episode_setters_fill_one_field() {
    let mut e = episode(Series::FR, "0001", "One", "https://freakonomics.com/podcast/e1/");
    e.set_download_url("https://cdn/e1.mp3".to_string());
    assert_eq!(e.download_url(), Some("https://cdn/e1.mp3".to_string()));
    assert_eq!(e.sha1(), None);
    e.set_sha1("abc".to_string());
    assert_eq!(e.sha1(), Some("abc".to_string()));
    assert_eq!(e.download_url(), Some("https://cdn/e1.mp3".to_string()));
    assert_eq!(e.title(), "One");
    let copy = e.duplicate();
    assert_eq!(copy.id(), e.id());
    assert_eq!(copy.sha1(), e.sha1());
    assert!(copy.same_id(&e));
}

#[test]
fn episode_from_parts_keeps_every_field() {
    let e = Episode::from_parts(
        "id-1".to_string(),
        Some("f".to_string()),
        Series::OL,
        "0003".to_string(),
        "T".to_string(),
        "d".to_string(),
        "p".to_string(),
        None,
    );
    assert_eq!(e.id(), "id-1");
    assert_eq!(e.sha1(), Some("f".to_string()));
    assert_eq!(e.series(), Series::OL);
    assert_eq!(e.download_url(), None);
    let f = Episode::with_id(
        "id-2".to_string(),
        Series::FR,
        "n".to_string(),
        "t".to_string(),
        "d".to_string(),
        "p".to_string(),
    );
    assert_eq!(f.id(), "id-2");
    assert_eq!(f.sha1(), None);
}

#[test]
fn fingerprint_is_sha1_in_hex() {
    let mut hasher = Sha1Hasher::new();
    assert_eq!(hasher.create_sha1(b"abc"), "a9993e364706816aba3e25717850c26c9cd0d89d");
    assert_eq!(hasher.create_sha1(b""), "da39a3ee5e6b4b0d3255bfef95601890afd80709");
    for payload in [&b""[..], &b"abc"[..], &[0u8; 5000][..], &[255u8; 7][..]] {
        let sha1 = hasher.create_sha1(payload);
        assert_eq!(sha1.chars().count(), 40);
        assert!(sha1.chars().all(|c| matches!(c, '0'..='9' | 'a'..='f')));
    }
    assert_eq!(hasher.create_sha1(b"abc"), "a9993e364706816aba3e25717850c26c9cd0d89d");
}

#[test]
fn fingerprint_covers_the_first_2048_bytes_only() {
    let mut hasher = Sha1Hasher::new();
    let exact = vec![7u8; 2048];
    let mut longer = vec![7u8; 2048];
    longer.extend_from_slice(b"tail that is not looked at");
    let mut other_tail = vec![7u8; 2048];
    other_tail.extend_from_slice(b"another tail");
    let expected = "ee9831b9685279eb698fde90bebf40e6ce098ab5";
    assert_eq!(hasher.create_sha1(&exact), expected);
    assert_eq!(hasher.create_sha1(&longer), expected);
    assert_eq!(hasher.create_sha1(&other_tail), expected);
    let mut differs_inside = vec![7u8; 2048];
    differs_inside[2047] = 8;
    assert_ne!(hasher.create_sha1(&differs_inside), expected);
    assert_eq!(Sha1Hasher::prefix(&longer).len(), 2048);
    assert_eq!(Sha1Hasher::prefix(b"abc"), b"abc");
    assert_eq!(Sha1Hasher::BYTES_LEN, 2048);
}

#[test]
fn store_is_empty_before_the_first_write() {
    let store = RWJson::new("/base/.data");
    for series in [Series::FR, Series::NSQ, Series::FMD, Series::PIMA, Series::OL] {
        assert!(store.read_all_episodes(&series).is_empty());
    }
    assert_eq!(store.path(&Series::FR), "/base/.data/fr.json");
    assert_eq!(store.path(&Series::PIMA), "/base/.data/pima.json");
    let shared = RWJson::new_arc("/base/.data");
    let again = RWJson::arc_clone(&shared);
    assert!(std::sync::Arc::ptr_eq(&shared, &again));
    assert_eq!(again.path(&Series::OL), "/base/.data/ol.json");
    assert!(again.read_all_episodes(&Series::OL).is_empty());
    let rw = RW::new(Series::OL, "/d");
    assert_eq!(rw.path(), "/d/ol.json");
    assert!(rw.read_all_episodes().is_empty());
}

#[test]
fn overwrite_all_replaces_one_series() {
    let mut store = RWJson::new("/d");
    store.overwrite_all_episodes(
        &Series::FR,
        vec![episode(Series::FR, "1", "a", "u1"), episode(Series::FR, "2", "b", "u2")],
    );
    store.overwrite_all_episodes(&Series::NSQ, vec![episode(Series::NSQ, "1", "n", "u9")]);
    store.overwrite_all_episodes(&Series::FR, vec![episode(Series::FR, "3", "c", "u3")]);
    let fr = store.read_all_episodes(&Series::FR);
    assert_eq!(fr.len(), 1);
    assert_eq!(fr[0].number(), "3");
    assert_eq!(store.read_all_episodes(&Series::NSQ).len(), 1);
    assert!(store.read_all_episodes(&Series::OL).is_empty());
}

#[test]
fn edit_by_id_keeps_only_the_latest() {
    let mut store = RWJson::new("/d");
    let first = episode(Series::FR, "1", "first", "u1");
    let other = episode(Series::FR, "2", "other", "u2");
    let mut second = episode(Series::FR, "1", "second", "u1");
    second.set_download_url("https://cdn/1.mp3".to_string());
    store.edit_episode(&first);
    store.edit_episode(&other);
    store.edit_episode(&second);
    let all = store.read_all_episodes(&Series::FR);
    assert_eq!(all.len(), 2);
    assert_eq!(all[0].title(), "other");
    assert_eq!(all[1].title(), "second");
    assert_eq!(all[1].download_url(), Some("https://cdn/1.mp3".to_string()));
    assert_eq!(all.iter().filter(|e| e.id() == first.id()).count(), 1);
}

#[test]
fn edit_by_id_appends_an_unknown_episode() {
    let mut rw = RW::new(Series::FR, "/d");
    rw.edit_episode(episode(Series::FR, "1", "a", "u1"));
    rw.edit_episode(episode(Series::FR, "2", "b", "u2"));
    let all = rw.read_all_episodes();
    assert_eq!(all.len(), 2);
    assert_eq!(all[0].number(), "1");
    assert_eq!(all[1].number(), "2");
}

#[test]
fn push_appends_without_looking() {
    let mut store = RWJson::new("/d");
    store.push_episode(episode(Series::OL, "1", "a", "u1"));
    store.push_episode(episode(Series::OL, "1", "a", "u1"));
    assert_eq!(store.read_all_episodes(&Series::OL).len(), 2);
    assert!(store.read_all_episodes(&Series::FR).is_empty());
}

#[test]
fn helpers_on_episode_lists() {
    let list = vec![
        episode(Series::FR, "1", "a", "u1"),
        episode(Series::FR, "2", "b", "u2"),
        episode(Series::FR, "3", "c", "u1"),
    ];
    let copy = duplicate_all(&list);
    assert_eq!(ids(&copy), ids(&list));
    let kept = episodes_without_id(&list, &episode(Series::NSQ, "9", "z", "u1"));
    assert_eq!(kept.len(), 1);
    assert_eq!(kept[0].number(), "2");
}

#[test]
fn file_name_drops_reserved_characters() {
    let e = episode(Series::FR, "0012", "What? \"Why\": a/b\\c <d> *e* |f|", "u");
    assert_eq!(RWMp3::get_filename(&e), "0012 - What Why abc d e f.mp3");
    let plain = episode(Series::FR, "0001", "Plain title", "u");
    assert_eq!(RWMp3::get_filename(&plain), "0001 - Plain title.mp3");
    assert_eq!(sanitized("a:b"), "ab");
    assert_eq!(sanitized(""), "");
    assert_eq!(sanitized("été?"), "été");
    for c in ['"', '*', '/', ':', '<', '>', '?', '\\', '|'] {
        assert!(is_reserved(c));
    }
    assert!(!is_reserved('a'));
    assert!(!is_reserved(' '));
    assert!(!is_reserved('.'));
}

#[test]
fn payload_paths_follow_the_layout() {
    let config = Config::new_rc("/music".to_string(), vec![Series::FR, Series::OL]);
    let rw_mp3 = RWMp3::new(&config, 64);
    let e = episode(Series::OL, "0007", "Dogs: a story", "u");
    assert_eq!(rw_mp3.dir_path(Series::OL), "/music/Off Leash");
    assert_eq!(rw_mp3.dest_file_path(&e), "/music/Off Leash/0007 - Dogs a story.mp3");
    assert_eq!(rw_mp3.temp_file_path(&e), "/music/.temp/0007 - Dogs a story.mp3");
    assert_eq!(rw_mp3.worker_count(3), 3);
    assert_eq!(rw_mp3.worker_count(100), 64);
    assert_eq!(rw_mp3.worker_count(0), 0);
}

#[test]
fn only_regular_mp3_files_count_as_payloads() {
    assert!(RWMp3::is_mp3_file(true, "0001 - a.mp3"));
    assert!(RWMp3::is_mp3_file(true, ".mp3"));
    assert!(!RWMp3::is_mp3_file(false, "0001 - a.mp3"));
    assert!(!RWMp3::is_mp3_file(true, "0001 - a.mp4"));
    assert!(!RWMp3::is_mp3_file(true, "mp3"));
    assert!(!RWMp3::is_mp3_file(true, "a.mp3.part"));
    assert!(!RWMp3::is_mp3_file(true, ""));
    assert!(!RWMp3::is_mp3_file(true, "a.MP3"));
}

#[test]
fn fingerprints_of_files_come_in_order() {
    let files = vec![b"abc".to_vec(), Vec::new(), vec![7u8; 5000]];
    let out = RWMp3::read_mp3s_and_to_sha1(&files);
    assert_eq!(
        out,
        vec![
            "a9993e364706816aba3e25717850c26c9cd0d89d".to_string(),
            "da39a3ee5e6b4b0d3255bfef95601890afd80709".to_string(),
            "ee9831b9685279eb698fde90bebf40e6ce098ab5".to_string(),
        ]
    );
    assert!(RWMp3::read_mp3s_and_to_sha1(&Vec::new()).is_empty());
}

#[test]
fn config_derives_its_directories() {
    let config = Config::new_rc("/music".to_string(), vec![Series::NSQ, Series::FMD]);
    assert_eq!(config.dir_path(), "/music");
    assert_eq!(config.data_dir_path(), "/music/.data");
    assert_eq!(config.temp_dir_path(), "/music/.temp");
    assert_eq!(config.series_vec(), vec![Series::NSQ, Series::FMD]);
    assert_eq!(
        config.required_dirs(),
        vec![
            "/music".to_string(),
            "/music/.data".to_string(),
            "/music/.temp".to_string(),
            "/music/No Stupid Question".to_string(),
            "/music/Freakonomics MD".to_string(),
        ]
    );
    let shared = Config::rc_clone(&config);
    assert_eq!(shared.dir_path(), "/music");
    assert!(std::rc::Rc::ptr_eq(&shared, &config));
    assert_eq!(join_path("a", "b"), "a/b");
}

#[test]
fn pool_is_never_larger_than_the_job_list() {
    assert_eq!(pool_size(8, 3), 3);
    assert_eq!(pool_size(8, 8), 8);
    assert_eq!(pool_size(8, 100), 8);
    assert_eq!(pool_size(0, 5), 0);
    assert_eq!(pool_size(4, 0), 0);
}

#[test]
fn workers_take_jobs_from_the_end_until_drained() {
    let canceller = Canceller::new();
    let mut jobs = JobList::new(vec![
        episode(Series::FR, "1", "a", "u1"),
        episode(Series::FR, "2", "b", "u2"),
    ]);
    assert_eq!(jobs.len(), 2);
    assert_eq!(jobs.next(&canceller).unwrap().number(), "2");
    assert_eq!(jobs.next(&canceller).unwrap().number(), "1");
    assert!(jobs.next(&canceller).is_none());
    assert_eq!(jobs.len(), 0);
}

#[test]
fn cancelled_workers_take_no_further_job() {
    let mut canceller = Canceller::new();
    assert!(!canceller.is_cancel());
    let mut jobs = JobList::new(vec![
        episode(Series::FR, "1", "a", "u1"),
        episode(Series::FR, "2", "b", "u2"),
    ]);
    assert!(jobs.next(&canceller).is_some());
    canceller.cancel();
    assert!(canceller.is_cancel());
    assert!(jobs.next(&canceller).is_none());
    assert_eq!(jobs.len(), 1);
    canceller.cancel();
    assert!(canceller.is_cancel());
}

#[test]
fn shared_settings_are_the_same_settings() {
    let model = ConfigModel { dir_path: "/music".to_string(), series_vec: vec![Series::PIMA] };
    let config = Config::new_arc(model);
    assert_eq!(config.dir_path(), "/music");
    assert_eq!(config.data_dir_path(), "/music/.data");
    assert_eq!(config.temp_dir_path(), "/music/.temp");
    assert_eq!(config.series_vec(), vec![Series::PIMA]);
    let shared = Config::arc_clone(&config);
    assert!(std::sync::Arc::ptr_eq(&shared, &config));
    let rw_mp3 = RWMp3::new_arc(&config, 64);
    let again = RWMp3::arc_clone(&rw_mp3);
    assert!(std::sync::Arc::ptr_eq(&again, &rw_mp3));
    assert_eq!(again.dir_path(Series::PIMA), "/music/People I Mostly Admire");
}

#[test]
fn default_settings_select_every_series() {
    let model = ConfigModel::default_in("/home/me");
    assert_eq!(model.dir_path, "/home/me/Music/fconx/");
    assert_eq!(model.series_vec, vec![Series::FR, Series::NSQ, Series::FMD, Series::PIMA, Series::OL]);
}

#[test]
fn series_lists_are_written_and_read_by_name() {
    let series_vec = vec![Series::OL, Series::FR, Series::OL];
    let names = serialize(&series_vec);
    assert_eq!(names, vec!["OL".to_string(), "FR".to_string(), "OL".to_string()]);
    assert_eq!(deserialize(names).unwrap(), series_vec);
    assert!(deserialize(Vec::new()).unwrap().is_empty());
    let err = deserialize(vec!["FR".to_string(), "XX".to_string(), "YY".to_string()]).unwrap_err();
    assert_eq!(err.0, "XX");
}

#[test]
fn download_error_messages() {
    let e = episode(Series::NSQ, "0012", "A Title", "u");
    let missing = DownloadError::MissingDownloadUrl(e);
    assert_eq!(missing.message(), "DownloadError::MissingDownloadUrl: NSQ 0012 A Title");
    let failed = DownloadError::GetRequest("https://cdn/a \"b\".mp3".to_string());
    assert_eq!(failed.message(), "DownloadError::GetRequest: \"https://cdn/a \\\"b\\\".mp3\"");
    assert_eq!(failed.message_with("<url>"), "DownloadError::GetRequest: <url>");
    assert_eq!(missing.message_with("<url>"), "DownloadError::MissingDownloadUrl: NSQ 0012 A Title");
}

#[test]
fn events_carry_their_subject() {
    let log = Log::DownloadDone { idx: 3, episode: episode(Series::FR, "1", "a", "u1") };
    match log {
        Log::DownloadDone { idx, episode } => {
            assert_eq!(idx, 3);
            assert_eq!(episode.number(), "1");
        }
        other => panic!("unexpected: {:?}", other),
    }
}
