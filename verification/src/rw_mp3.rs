//! The payload files: their names, their places, and the fingerprints of the
//! files that are there.

use std::sync::Arc;
use vstd::prelude::*;
use vstd::string::{StrSliceExecFns, StringExecFns};
use crate::config::Config;
use crate::episode::{Episode, EpisodeView};
use crate::hasher::Sha1Hasher;
use crate::series::Series;
use crate::share::share_arc;
use crate::text::{join_path, spec_join_path};
use crate::worker::{pool_size, spec_pool_size};

verus! {

/// The characters that may not stand in a file name on common file systems.
pub open spec fn spec_is_reserved(c: char) -> bool {
    c == '"' || c == '*' || c == '/' || c == ':' || c == '<' || c == '>' || c == '?' || c == '\\'
        || c == '|'
}

pub fn is_reserved(c: char) -> (res: bool)
    ensures
        res == spec_is_reserved(c),
{
    c == '"' || c == '*' || c == '/' || c == ':' || c == '<' || c == '>' || c == '?' || c == '\\'
        || c == '|'
}

/// A title without its reserved characters.
pub open spec fn spec_sanitized(title: Seq<char>) -> Seq<char> {
    title.filter(|c: char| !spec_is_reserved(c))
}

/// The file name of an episode's payload.
pub open spec fn spec_filename(episode: EpisodeView) -> Seq<char> {
    episode.number + " - "@ + spec_sanitized(episode.title) + ".mp3"@
}

/// Whether a name ends in the payload extension.
pub open spec fn spec_has_mp3_extension(name: Seq<char>) -> bool {
    name.len() >= 4 && name.skip(name.len() - 4) == ".mp3"@
}

/// The fingerprints of the given file contents, in order.
pub open spec fn spec_fingerprints(files: Seq<Vec<u8>>) -> Seq<Seq<char>> {
    Seq::new(files.len(), |i: int| Sha1Hasher::spec_sha1(files[i]@))
}

/// The texts of a list, in order.
pub open spec fn texts(list: Seq<String>) -> Seq<Seq<char>> {
    Seq::new(list.len(), |i: int| list[i]@)
}

/// A title without its reserved characters.
pub fn sanitized(title: &str) -> (res: String)
    ensures
        res@ == spec_sanitized(title@),
{
    let mut out = String::new();
    let n = title.unicode_len();
    let mut i: usize = 0;
    proof {
        reveal(Seq::filter);
    }
    while i < n
        invariant
            n == title@.len(),
            i <= n,
            out@ == spec_sanitized(title@.take(i as int)),
        decreases n - i,
    {
        let c = title.get_char(i);
        proof {
            reveal(Seq::filter);
            assert(title@.take(i + 1).drop_last() =~= title@.take(i as int));
        }
        if !is_reserved(c) {
            let piece = title.substring_char(i, i + 1);
            out.append(piece);
        }
        i += 1;
    }
    proof {
        assert(title@.take(n as int) =~= title@);
    }
    out
}

/// Where the payloads go and how many workers fingerprint the ones present.
#[derive(Debug)]
pub struct RWMp3 {
    dir_path: String,
    temp_dir_path: String,
    workers: usize,
}

impl RWMp3 {
    pub closed spec fn spec_base_dir(&self) -> Seq<char> {
        self.dir_path@
    }

    pub closed spec fn spec_temp_dir(&self) -> Seq<char> {
        self.temp_dir_path@
    }

    pub closed spec fn spec_workers(&self) -> nat {
        self.workers as nat
    }

    /// The directory of a series' payloads.
    pub open spec fn spec_dir_path(&self, series: Series) -> Seq<char> {
        spec_join_path(self.spec_base_dir(), series.spec_mp3_dirname())
    }

    pub fn new(config: &Config, workers: usize) -> (res: RWMp3)
        ensures
            res.spec_base_dir() == config.spec_dir_path(),
            res.spec_temp_dir() == config.spec_temp_dir_path(),
            res.spec_workers() == workers,
    {
        RWMp3 { dir_path: config.dir_path(), temp_dir_path: config.temp_dir_path(), workers }
    }

    /// The same, to be shared between tasks.
    pub fn new_arc(config: &Config, workers: usize) -> (res: Arc<RWMp3>)
        ensures
            res.spec_base_dir() == config.spec_dir_path(),
            res.spec_temp_dir() == config.spec_temp_dir_path(),
            res.spec_workers() == workers,
    {
        Arc::new(RWMp3::new(config, workers))
    }

    pub fn arc_clone(rw_mp3: &Arc<RWMp3>) -> (res: Arc<RWMp3>)
        ensures
            res == *rw_mp3,
    {
        share_arc(rw_mp3)
    }

    /// The file name of an episode's payload: its number, a separator, its
    /// sanitized title and the extension.
    pub fn get_filename(episode: &Episode) -> (res: String)
        ensures
            res@ == spec_filename(episode@),
    {
        let mut name = String::from_str(episode.number());
        name.append(" - ");
        let title = sanitized(episode.title());
        name.append(title.as_str());
        name.append(".mp3");
        name
    }

    /// The directory of a series' payloads.
    pub fn dir_path(&self, series: Series) -> (res: String)
        ensures
            res@ == self.spec_dir_path(series),
    {
        let name = series.mp3_dirname();
        join_path(self.dir_path.as_str(), name.as_str())
    }

    /// Where an episode's payload is kept.
    pub fn dest_file_path(&self, episode: &Episode) -> (res: String)
        ensures
            res@ == spec_join_path(self.spec_dir_path(episode@.series), spec_filename(episode@)),
    {
        let dir = self.dir_path(episode.series());
        let name = RWMp3::get_filename(episode);
        join_path(dir.as_str(), name.as_str())
    }

    /// Where an episode's payload is written before it is moved into place.
    pub fn temp_file_path(&self, episode: &Episode) -> (res: String)
        ensures
            res@ == spec_join_path(self.spec_temp_dir(), spec_filename(episode@)),
    {
        let name = RWMp3::get_filename(episode);
        join_path(self.temp_dir_path.as_str(), name.as_str())
    }

    /// Whether a directory entry counts as a payload: a regular file whose
    /// name ends in the payload extension.
    pub fn is_mp3_file(is_file: bool, filename: &str) -> (res: bool)
        ensures
            res == (is_file && spec_has_mp3_extension(filename@)),
    {
        if !is_file {
            return false;
        }
        let n = filename.unicode_len();
        if n < 4 {
            return false;
        }
        let tail = filename.substring_char(n - 4, n);
        proof {
            reveal_strlit(".mp3");
            assert(".mp3"@ =~= seq!['.', 'm', 'p', '3']);
        }
        let dot = tail.get_char(0);
        let m = tail.get_char(1);
        let p = tail.get_char(2);
        let three = tail.get_char(3);
        let res = dot == '.' && m == 'm' && p == 'p' && three == '3';
        proof {
            if res {
                assert(tail@ =~= seq!['.', 'm', 'p', '3']);
            }
        }
        res
    }

    /// How many workers fingerprint `file_count` files.
    pub fn worker_count(&self, file_count: usize) -> (res: usize)
        ensures
            res == spec_pool_size(self.spec_workers(), file_count as nat),
    {
        pool_size(self.workers, file_count)
    }

    /// The fingerprint of each of the given file contents, in order.
    pub fn read_mp3s_and_to_sha1(files: &Vec<Vec<u8>>) -> (res: Vec<String>)
        ensures
            texts(res@) == spec_fingerprints(files@),
    {
        let mut hasher = Sha1Hasher::new();
        let mut out: Vec<String> = Vec::new();
        let mut i: usize = 0;
        while i < files.len()
            invariant
                i <= files.len(),
                texts(out@) =~= spec_fingerprints(files@).take(i as int),
            decreases files.len() - i,
        {
            let ghost before = texts(out@);
            let sha1 = hasher.create_sha1(files[i].as_slice());
            out.push(sha1);
            proof {
                assert(texts(out@) =~= before.push(Sha1Hasher::spec_sha1(files@[i as int]@)));
            }
            i += 1;
        }
        out
    }
}

/// The fingerprints of the payload files that are present, series by
/// series.
#[derive(Debug)]
pub struct Sha1Index {
    fr: Vec<String>,
    nsq: Vec<String>,
    fmd: Vec<String>,
    pima: Vec<String>,
    ol: Vec<String>,
}

impl Sha1Index {
    /// The fingerprints of the files present for one series.
    pub closed spec fn present(&self, series: Series) -> Seq<Seq<char>> {
        match series {
            Series::FR => texts(self.fr@),
            Series::NSQ => texts(self.nsq@),
            Series::FMD => texts(self.fmd@),
            Series::PIMA => texts(self.pima@),
            Series::OL => texts(self.ol@),
        }
    }

    /// An index of directories without any payload file.
    pub fn new() -> (res: Sha1Index)
        ensures
            forall|s: Series| res.present(s) == Seq::<Seq<char>>::empty(),
    {
        let res = Sha1Index {
            fr: Vec::new(),
            nsq: Vec::new(),
            fmd: Vec::new(),
            pima: Vec::new(),
            ol: Vec::new(),
        };
        proof {
            assert forall|s: Series| res.present(s) == Seq::<Seq<char>>::empty() by {}
        }
        res
    }

    /// Records the fingerprints found in the directory of one series.
    pub fn set(&mut self, series: Series, sha1s: Vec<String>)
        ensures
            final(self).present(series) == texts(sha1s@),
            forall|s: Series| s != series ==> final(self).present(s) == old(self).present(s),
    {
        match series {
            Series::FR => self.fr = sha1s,
            Series::NSQ => self.nsq = sha1s,
            Series::FMD => self.fmd = sha1s,
            Series::PIMA => self.pima = sha1s,
            Series::OL => self.ol = sha1s,
        }
    }

    /// The fingerprints of the files present for one series.
    pub fn get(&self, series: Series) -> (res: &Vec<String>)
        ensures
            texts(res@) == self.present(series),
    {
        match series {
            Series::FR => &self.fr,
            Series::NSQ => &self.nsq,
            Series::FMD => &self.fmd,
            Series::PIMA => &self.pima,
            Series::OL => &self.ol,
        }
    }
}

} // verus!
