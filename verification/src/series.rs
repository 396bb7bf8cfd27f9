//! The closed catalogue of content series and the names each one carries.

use vstd::prelude::*;
use vstd::string::StringExecFns;

verus! {

/// A name that matches no series of the catalogue; holds the rejected text.
#[derive(Debug)]
pub struct ParseSeriesError(pub String);

/// The text by which the `url` crate writes the URL that it reads from
/// `text`; none where it reads none.
pub uninterp spec fn url_text(text: Seq<char>) -> Option<Seq<char>>;

/// Reads `text` with `url::Url::parse` and writes the outcome with its
/// `Display`, which gives the URL's serialization. The outcome is a function
/// of the text alone; nothing else is claimed of it.
#[verifier::external_body]
fn parse_url(text: &str) -> (res: Option<String>)
    ensures
        match res {
            Some(url) => url_text(text@) == Some(url@),
            None => url_text(text@) is None,
        },
{
    match url::Url::parse(text) {
        Ok(url) => Some(url.to_string()),
        Err(_) => None,
    }
}

/// One of the known content collections.
#[derive(Debug, Clone, Copy, Hash, PartialEq, Eq, Structural)]
pub enum Series {
    FR,
    NSQ,
    FMD,
    PIMA,
    OL,
}

impl Series {
    /// The short name under which a series is selected in a configuration.
    pub open spec fn spec_name(self) -> Seq<char> {
        match self {
            Series::FR => "FR"@,
            Series::NSQ => "NSQ"@,
            Series::FMD => "FMD"@,
            Series::PIMA => "PIMA"@,
            Series::OL => "OL"@,
        }
    }

    /// The address of the page that lists the episodes of a series, as it
    /// is configured.
    pub open spec fn spec_address(self) -> Seq<char> {
        match self {
            Series::FR => "https://freakonomics.com/series-full/freakonomics-radio/"@,
            Series::NSQ => "https://freakonomics.com/series-full/nsq/"@,
            Series::FMD => "https://freakonomics.com/series-full/bapu/"@,
            Series::PIMA => "https://freakonomics.com/series-full/people-i-mostly-admire/"@,
            Series::OL => "https://freakonomics.com/series-full/off-leash/"@,
        }
    }

    /// The URL of the page that lists the episodes of a series: its address
    /// as a URL is written; none where the address is no URL.
    pub open spec fn spec_url(self) -> Option<Seq<char>> {
        url_text(self.spec_address())
    }

    /// The file name of the record set of a series.
    pub open spec fn spec_data_json_filename(self) -> Seq<char> {
        match self {
            Series::FR => "fr.json"@,
            Series::NSQ => "nsq.json"@,
            Series::FMD => "fmd.json"@,
            Series::PIMA => "pima.json"@,
            Series::OL => "ol.json"@,
        }
    }

    /// The directory name under which the payloads of a series are kept.
    pub open spec fn spec_mp3_dirname(self) -> Seq<char> {
        match self {
            Series::FR => "Freakonomics Radio"@,
            Series::NSQ => "No Stupid Question"@,
            Series::FMD => "Freakonomics MD"@,
            Series::PIMA => "People I Mostly Admire"@,
            Series::OL => "Off Leash"@,
        }
    }

    /// Position of a series in the catalogue, from 0.
    pub open spec fn spec_index(self) -> nat {
        match self {
            Series::FR => 0,
            Series::NSQ => 1,
            Series::FMD => 2,
            Series::PIMA => 3,
            Series::OL => 4,
        }
    }

    pub fn name(&self) -> (res: String)
        ensures
            res@ == self.spec_name(),
    {
        match self {
            Series::FR => String::from_str("FR"),
            Series::NSQ => String::from_str("NSQ"),
            Series::FMD => String::from_str("FMD"),
            Series::PIMA => String::from_str("PIMA"),
            Series::OL => String::from_str("OL"),
        }
    }

    /// The URL of the page that lists the episodes of the series.
    pub fn url(&self) -> (res: Option<String>)
        ensures
            match res {
                Some(url) => self.spec_url() == Some(url@),
                None => self.spec_url() is None,
            },
    {
        let address = self.address();
        parse_url(address.as_str())
    }

    /// The address of the page that lists the episodes of the series, as it
    /// is configured.
    pub fn address(&self) -> (res: String)
        ensures
            res@ == self.spec_address(),
    {
        match self {
            Series::FR => String::from_str(
                "https://freakonomics.com/series-full/freakonomics-radio/",
            ),
            Series::NSQ => String::from_str("https://freakonomics.com/series-full/nsq/"),
            Series::FMD => String::from_str("https://freakonomics.com/series-full/bapu/"),
            Series::PIMA => String::from_str(
                "https://freakonomics.com/series-full/people-i-mostly-admire/",
            ),
            Series::OL => String::from_str("https://freakonomics.com/series-full/off-leash/"),
        }
    }

    pub fn data_json_filename(&self) -> (res: String)
        ensures
            res@ == self.spec_data_json_filename(),
    {
        match self {
            Series::FR => String::from_str("fr.json"),
            Series::NSQ => String::from_str("nsq.json"),
            Series::FMD => String::from_str("fmd.json"),
            Series::PIMA => String::from_str("pima.json"),
            Series::OL => String::from_str("ol.json"),
        }
    }

    pub fn mp3_dirname(&self) -> (res: String)
        ensures
            res@ == self.spec_mp3_dirname(),
    {
        match self {
            Series::FR => String::from_str("Freakonomics Radio"),
            Series::NSQ => String::from_str("No Stupid Question"),
            Series::FMD => String::from_str("Freakonomics MD"),
            Series::PIMA => String::from_str("People I Mostly Admire"),
            Series::OL => String::from_str("Off Leash"),
        }
    }

    /// Position of the series in the catalogue, from 0.
    pub fn index(&self) -> (res: usize)
        ensures
            res == self.spec_index(),
            res < 5,
    {
        match self {
            Series::FR => 0,
            Series::NSQ => 1,
            Series::FMD => 2,
            Series::PIMA => 3,
            Series::OL => 4,
        }
    }

    /// The series that a short name selects, if any.
    pub open spec fn spec_parse(value: Seq<char>) -> Option<Series> {
        if value == Series::FR.spec_name() {
            Some(Series::FR)
        } else if value == Series::NSQ.spec_name() {
            Some(Series::NSQ)
        } else if value == Series::FMD.spec_name() {
            Some(Series::FMD)
        } else if value == Series::PIMA.spec_name() {
            Some(Series::PIMA)
        } else if value == Series::OL.spec_name() {
            Some(Series::OL)
        } else {
            None
        }
    }

    /// Reads a short name. Any other text comes back in the error.
    pub fn try_from(value: String) -> (res: Result<Series, ParseSeriesError>)
        ensures
            match res {
                Ok(series) => Series::spec_parse(value@) == Some(series),
                Err(err) => Series::spec_parse(value@) is None && err.0@ == value@,
            },
    {
        if value == Series::FR.name() {
            Ok(Series::FR)
        } else if value == Series::NSQ.name() {
            Ok(Series::NSQ)
        } else if value == Series::FMD.name() {
            Ok(Series::FMD)
        } else if value == Series::PIMA.name() {
            Ok(Series::PIMA)
        } else if value == Series::OL.name() {
            Ok(Series::OL)
        } else {
            Err(ParseSeriesError(value))
        }
    }
}

/// Every series is read back from its own short name.
pub proof fn lemma_name_parses_back(series: Series)
    ensures
        Series::spec_parse(series.spec_name()) == Some(series),
{
    reveal_strlit("FR");
    reveal_strlit("NSQ");
    reveal_strlit("FMD");
    reveal_strlit("PIMA");
    reveal_strlit("OL");
    assert("FMD"@.len() == 3);
    assert("PIMA"@.len() == 4);
    assert("NSQ"@[0] == 'N');
    assert("FR"@[0] == 'F');
}

} // verus!
