//! Episode records and their mathematical view.

use vstd::prelude::*;
use crate::series::Series;

verus! {

/// What an episode record holds, as plain mathematical values.
pub struct EpisodeView {
    pub id: Seq<char>,
    pub sha1: Option<Seq<char>>,
    pub series: Series,
    pub number: Seq<char>,
    pub title: Seq<char>,
    pub date: Seq<char>,
    pub page_url: Seq<char>,
    pub download_url: Option<Seq<char>>,
}

/// One content item, followed from discovery to retrieval.
///
/// `download_url` is absent until the item is resolved, `sha1` until its
/// payload has been stored.
#[derive(Debug, Clone)]
pub struct Episode {
    id: String,
    sha1: Option<String>,
    series: Series,
    number: String,
    title: String,
    date: String,
    page_url: String,
    download_url: Option<String>,
}

/// The view of an optional text.
pub open spec fn opt_view(text: Option<String>) -> Option<Seq<char>> {
    match text {
        Some(t) => Some(t@),
        None => None,
    }
}

/// The views of a sequence of episodes, in order.
pub open spec fn views(episodes: Seq<Episode>) -> Seq<EpisodeView> {
    Seq::new(episodes.len(), |i: int| episodes[i]@)
}

/// The version 5 (SHA-1, name-based) UUID of a name in the DNS namespace, in
/// its hyphenated lower-case text form.
pub uninterp spec fn uuid_v5_dns(name: Seq<char>) -> Seq<char>;

/// Calls `uuid::Uuid::new_v5` with `Uuid::NAMESPACE_DNS` on the UTF-8 bytes of
/// `name` and formats the result with its `Display`. The identifier is a
/// function of the name alone; nothing else is claimed of it.
#[verifier::external_body]
fn uuid_v5_dns_text(name: &str) -> (res: String)
    ensures
        res@ == uuid_v5_dns(name@),
{
    uuid::Uuid::new_v5(&uuid::Uuid::NAMESPACE_DNS, name.as_bytes()).to_string()
}

fn clone_opt(text: &Option<String>) -> (res: Option<String>)
    ensures
        res == *text,
{
    match text {
        Some(t) => Some(t.clone()),
        None => None,
    }
}

impl View for Episode {
    type V = EpisodeView;

    closed spec fn view(&self) -> EpisodeView {
        EpisodeView {
            id: self.id@,
            sha1: opt_view(self.sha1),
            series: self.series,
            number: self.number@,
            title: self.title@,
            date: self.date@,
            page_url: self.page_url@,
            download_url: opt_view(self.download_url),
        }
    }
}

impl Episode {
    /// The record of a newly discovered item: identified by its page address,
    /// not yet resolved, not yet retrieved.
    pub open spec fn spec_new(
        series: Series,
        number: Seq<char>,
        title: Seq<char>,
        date: Seq<char>,
        page_url: Seq<char>,
    ) -> EpisodeView {
        Episode::spec_with_id(uuid_v5_dns(page_url), series, number, title, date, page_url)
    }

    /// A fresh record under a given identifier.
    pub open spec fn spec_with_id(
        id: Seq<char>,
        series: Series,
        number: Seq<char>,
        title: Seq<char>,
        date: Seq<char>,
        page_url: Seq<char>,
    ) -> EpisodeView {
        EpisodeView {
            id,
            sha1: None,
            series,
            number,
            title,
            date,
            page_url,
            download_url: None,
        }
    }

    pub fn new(series: Series, number: String, title: String, date: String, page_url: String) -> (res:
        Episode)
        ensures
            res@ == Episode::spec_new(series, number@, title@, date@, page_url@),
    {
        let id = uuid_v5_dns_text(page_url.as_str());
        Episode::with_id(id, series, number, title, date, page_url)
    }

    /// A fresh record under an identifier computed elsewhere.
    pub fn with_id(
        id: String,
        series: Series,
        number: String,
        title: String,
        date: String,
        page_url: String,
    ) -> (res: Episode)
        ensures
            res@ == Episode::spec_with_id(id@, series, number@, title@, date@, page_url@),
    {
        Episode { id, sha1: None, series, number, title, date, page_url, download_url: None }
    }

    /// A record with every field given, as it is read back from storage.
    pub fn from_parts(
        id: String,
        sha1: Option<String>,
        series: Series,
        number: String,
        title: String,
        date: String,
        page_url: String,
        download_url: Option<String>,
    ) -> (res: Episode)
        ensures
            res@ == (EpisodeView {
                id: id@,
                sha1: opt_view(sha1),
                series,
                number: number@,
                title: title@,
                date: date@,
                page_url: page_url@,
                download_url: opt_view(download_url),
            }),
    {
        Episode { id, sha1, series, number, title, date, page_url, download_url }
    }

    pub fn id(&self) -> (res: &str)
        ensures
            res@ == self@.id,
    {
        self.id.as_str()
    }

    pub fn sha1(&self) -> (res: Option<String>)
        ensures
            opt_view(res) == self@.sha1,
    {
        clone_opt(&self.sha1)
    }

    pub fn number(&self) -> (res: &str)
        ensures
            res@ == self@.number,
    {
        self.number.as_str()
    }

    pub fn title(&self) -> (res: &str)
        ensures
            res@ == self@.title,
    {
        self.title.as_str()
    }

    pub fn date(&self) -> (res: &str)
        ensures
            res@ == self@.date,
    {
        self.date.as_str()
    }

    pub fn page_url(&self) -> (res: &str)
        ensures
            res@ == self@.page_url,
    {
        self.page_url.as_str()
    }

    pub fn download_url(&self) -> (res: Option<String>)
        ensures
            opt_view(res) == self@.download_url,
    {
        clone_opt(&self.download_url)
    }

    pub fn series(&self) -> (res: Series)
        ensures
            res == self@.series,
    {
        self.series
    }

    pub fn set_sha1(&mut self, sha1: String)
        ensures
            final(self)@ == (EpisodeView { sha1: Some(sha1@), ..old(self)@ }),
    {
        self.sha1 = Some(sha1);
    }

    pub fn set_download_url(&mut self, download_url: String)
        ensures
            final(self)@ == (EpisodeView { download_url: Some(download_url@), ..old(self)@ }),
    {
        self.download_url = Some(download_url);
    }

    /// Whether two records carry the same identifier.
    pub fn same_id(&self, other: &Episode) -> (res: bool)
        ensures
            res == (self@.id == other@.id),
    {
        self.id == other.id
    }

    /// An independent copy of the record.
    pub fn duplicate(&self) -> (res: Episode)
        ensures
            res@ == self@,
    {
        Episode {
            id: self.id.clone(),
            sha1: clone_opt(&self.sha1),
            series: self.series,
            number: self.number.clone(),
            title: self.title.clone(),
            date: self.date.clone(),
            page_url: self.page_url.clone(),
            download_url: clone_opt(&self.download_url),
        }
    }
}

} // verus!
