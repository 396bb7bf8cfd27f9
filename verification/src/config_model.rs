//! The settings as a configuration file states them: the base directory and
//! the selected series by their short names.

use vstd::prelude::*;
use crate::rw_mp3::texts;
use crate::series::{ParseSeriesError, Series};
use crate::text::{join_path, spec_join_path};

verus! {

/// The settings of a configuration file.
#[derive(Debug)]
pub struct ConfigModel {
    pub dir_path: String,
    pub series_vec: Vec<Series>,
}

/// The whole catalogue, in its order.
pub open spec fn spec_all_series() -> Seq<Series> {
    seq![Series::FR, Series::NSQ, Series::FMD, Series::PIMA, Series::OL]
}

/// The short names of the series, in order.
pub open spec fn spec_names(series_vec: Seq<Series>) -> Seq<Seq<char>> {
    Seq::new(series_vec.len(), |i: int| series_vec[i].spec_name())
}

/// The first position whose name selects no series, if there is one.
pub open spec fn spec_first_unknown(names: Seq<Seq<char>>) -> Option<int>
    decreases names.len(),
{
    if names.len() == 0 {
        None
    } else {
        match spec_first_unknown(names.drop_last()) {
            Some(i) => Some(i),
            None => if Series::spec_parse(names.last()) is None {
                Some(names.len() - 1)
            } else {
                None
            },
        }
    }
}

impl ConfigModel {
    /// The settings used where no configuration file exists yet: a
    /// directory below the home directory, and every series.
    pub fn default_in(home: &str) -> (res: ConfigModel)
        ensures
            res.dir_path@ == spec_join_path(home@, "Music/fconx/"@),
            res.series_vec@ == spec_all_series(),
    {
        let mut series_vec: Vec<Series> = Vec::new();
        series_vec.push(Series::FR);
        series_vec.push(Series::NSQ);
        series_vec.push(Series::FMD);
        series_vec.push(Series::PIMA);
        series_vec.push(Series::OL);
        ConfigModel { dir_path: join_path(home, "Music/fconx/"), series_vec }
    }
}

/// The short names under which the series are written to a configuration
/// file, in order.
pub fn serialize(series_vec: &Vec<Series>) -> (res: Vec<String>)
    ensures
        texts(res@) == spec_names(series_vec@),
{
    let mut out: Vec<String> = Vec::new();
    let mut i: usize = 0;
    while i < series_vec.len()
        invariant
            i <= series_vec.len(),
            texts(out@) =~= spec_names(series_vec@).take(i as int),
        decreases series_vec.len() - i,
    {
        let ghost before = texts(out@);
        out.push(series_vec[i].name());
        proof {
            assert(texts(out@) =~= before.push(series_vec@[i as int].spec_name()));
        }
        i += 1;
    }
    out
}

/// The series that the short names of a configuration file select, in
/// order. The first name that selects none is rejected, and comes back in
/// the error.
pub fn deserialize(names: Vec<String>) -> (res: Result<Vec<Series>, ParseSeriesError>)
    ensures
        match res {
            Ok(series_vec) => {
                &&& spec_first_unknown(texts(names@)) is None
                &&& series_vec@.len() == names@.len()
                &&& forall|i: int|
                    0 <= i < names@.len() ==> Series::spec_parse(names@[i]@) == Some(
                        #[trigger] series_vec@[i],
                    )
            },
            Err(err) => {
                &&& spec_first_unknown(texts(names@)) is Some
                &&& err.0@ == names@[spec_first_unknown(texts(names@)).unwrap()]@
            },
        },
{
    let mut out: Vec<Series> = Vec::new();
    let mut i: usize = 0;
    while i < names.len()
        invariant
            i <= names.len(),
            out@.len() == i,
            spec_first_unknown(texts(names@).take(i as int)) is None,
            forall|k: int|
                0 <= k < i ==> Series::spec_parse(names@[k]@) == Some(#[trigger] out@[k]),
        decreases names.len() - i,
    {
        proof {
            let all = texts(names@);
            assert(all.take(i + 1).drop_last() =~= all.take(i as int));
        }
        match Series::try_from(names[i].clone()) {
            Ok(series) => {
                out.push(series);
            },
            Err(err) => {
                proof {
                    lemma_first_unknown_stays(texts(names@), i + 1);
                }
                return Err(err);
            },
        }
        i += 1;
    }
    proof {
        assert(texts(names@).take(i as int) =~= texts(names@));
    }
    Ok(out)
}

/// The first unknown name of a beginning of the list is the first unknown
/// name of the whole list.
pub proof fn lemma_first_unknown_stays(names: Seq<Seq<char>>, k: int)
    requires
        0 <= k <= names.len(),
        spec_first_unknown(names.take(k)) is Some,
    ensures
        spec_first_unknown(names) == spec_first_unknown(names.take(k)),
    decreases names.len(),
{
    if k == names.len() {
        assert(names.take(k) =~= names);
    } else {
        assert(names.drop_last().take(k) =~= names.take(k));
        lemma_first_unknown_stays(names.drop_last(), k);
    }
}

/// What is written to a configuration file is read back as it was.
pub proof fn lemma_names_read_back(series_vec: Seq<Series>)
    ensures
        spec_first_unknown(spec_names(series_vec)) is None,
        forall|i: int|
            0 <= i < series_vec.len() ==> Series::spec_parse(#[trigger] spec_names(series_vec)[i])
                == Some(series_vec[i]),
    decreases series_vec.len(),
{
    assert forall|i: int| 0 <= i < series_vec.len() implies Series::spec_parse(
        #[trigger] spec_names(series_vec)[i],
    ) == Some(series_vec[i]) by {
        crate::series::lemma_name_parses_back(series_vec[i]);
    }
    if series_vec.len() > 0 {
        lemma_names_read_back(series_vec.drop_last());
        assert(spec_names(series_vec).drop_last() =~= spec_names(series_vec.drop_last()));
    }
}

} // verus!
