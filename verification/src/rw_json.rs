//! The per-series record set: read all, overwrite all, edit by identifier.

use std::sync::Arc;
use vstd::prelude::*;
use crate::episode::{views, Episode, EpisodeView};
use crate::series::Series;
use crate::share::share_arc;
use crate::text::{join_path, spec_join_path};

verus! {

/// Whether some record carries the identifier.
pub open spec fn has_id(records: Seq<EpisodeView>, id: Seq<char>) -> bool {
    exists|i: int| 0 <= i < records.len() && (#[trigger] records[i]).id == id
}

/// The records that do not carry the identifier, in their order.
pub open spec fn without_id(records: Seq<EpisodeView>, id: Seq<char>) -> Seq<EpisodeView> {
    records.filter(|r: EpisodeView| r.id != id)
}

/// The record set after an edit by identifier: every record with the
/// identifier of `episode` leaves, and `episode` is appended.
pub open spec fn edited(records: Seq<EpisodeView>, episode: EpisodeView) -> Seq<EpisodeView> {
    without_id(records, episode.id).push(episode)
}

/// No two records carry the same identifier.
pub open spec fn unique_ids(records: Seq<EpisodeView>) -> bool {
    forall|i: int, j: int|
        0 <= i < j < records.len() ==> (#[trigger] records[i]).id != (#[trigger] records[j]).id
}

/// Every record belongs to the series.
pub open spec fn in_series(records: Seq<EpisodeView>, series: Series) -> bool {
    forall|i: int| 0 <= i < records.len() ==> (#[trigger] records[i]).series == series
}

/// A well-kept record set of a series: each record belongs to the series,
/// and no identifier occurs twice.
pub open spec fn well_kept(records: Seq<EpisodeView>, series: Series) -> bool {
    unique_ids(records) && in_series(records, series)
}

/// Filtering by identifier, one record further.
pub proof fn lemma_without_id_push(records: Seq<EpisodeView>, e: EpisodeView, id: Seq<char>)
    ensures
        without_id(records.push(e), id) == if e.id != id {
            without_id(records, id).push(e)
        } else {
            without_id(records, id)
        },
{
    reveal(Seq::filter);
    assert(records.push(e).drop_last() =~= records);
}

/// What filtering by identifier keeps: only records of the set, none with the
/// identifier, every other one, in the same order; a set without the
/// identifier is kept whole, and distinct identifiers stay distinct.
pub proof fn lemma_without_id(records: Seq<EpisodeView>, id: Seq<char>)
    ensures
        without_id(records, id).len() <= records.len(),
        !has_id(without_id(records, id), id),
        forall|k: int|
            0 <= k < without_id(records, id).len() ==> records.contains(
                #[trigger] without_id(records, id)[k],
            ),
        forall|i: int|
            0 <= i < records.len() && records[i].id != id ==> without_id(records, id).contains(
                #[trigger] records[i],
            ),
        !has_id(records, id) ==> without_id(records, id) == records,
        unique_ids(records) ==> unique_ids(without_id(records, id)),
{
    let pred = |r: EpisodeView| r.id != id;
    lemma_filter_members(records, pred);
    records.lemma_filter_len(pred);
    if !has_id(records, id) {
        lemma_filter_all(records, pred);
    }
}

/// A selection for which every record qualifies is the whole set.
pub proof fn lemma_filter_all(records: Seq<EpisodeView>, pred: spec_fn(EpisodeView) -> bool)
    requires
        forall|i: int| 0 <= i < records.len() ==> pred(#[trigger] records[i]),
    ensures
        records.filter(pred) == records,
    decreases records.len(),
{
    reveal(Seq::filter);
    if records.len() > 0 {
        assert forall|i: int| 0 <= i < records.drop_last().len() implies pred(
            #[trigger] records.drop_last()[i],
        ) by {}
        lemma_filter_all(records.drop_last(), pred);
    }
}

/// An edit leaves a set of distinct identifiers distinct, and the edited
/// record is the only one with its identifier.
pub proof fn lemma_edited_unique(records: Seq<EpisodeView>, episode: EpisodeView)
    requires
        unique_ids(records),
    ensures
        unique_ids(edited(records, episode)),
        has_id(edited(records, episode), episode.id),
{
    lemma_without_id(records, episode.id);
    let out = edited(records, episode);
    assert forall|i: int, j: int| 0 <= i < j < out.len() implies (#[trigger] out[i]).id != (
    #[trigger] out[j]).id by {}
    assert(out[out.len() - 1].id == episode.id);
}

/// An edit by an episode of the series leaves a well-kept record set well
/// kept.
pub proof fn lemma_edited_well_kept(records: Seq<EpisodeView>, episode: EpisodeView)
    requires
        well_kept(records, episode.series),
    ensures
        well_kept(edited(records, episode), episode.series),
{
    lemma_edited_unique(records, episode);
    lemma_without_id(records, episode.id);
    let out = edited(records, episode);
    assert forall|i: int| 0 <= i < out.len() implies (#[trigger] out[i]).series
        == episode.series by {}
}

/// Of two edits in a row under one identifier only the later one survives:
/// the record set is the one that the later edit alone would have left, so
/// the earlier record is gone unless the later one equals it.
pub proof fn lemma_latest_edit_survives(
    records: Seq<EpisodeView>,
    first: EpisodeView,
    second: EpisodeView,
)
    requires
        first.id == second.id,
    ensures
        edited(edited(records, first), second) == edited(records, second),
        edited(edited(records, first), second).last() == second,
        !has_id(edited(edited(records, first), second).drop_last(), second.id),
{
    let id = second.id;
    let kept = without_id(records, id);
    lemma_without_id(records, id);
    lemma_without_id_push(kept, first, id);
    lemma_without_id(kept, id);
}

/// An edit touches no record with another identifier: each one is in the set
/// after the edit exactly if it was there before.
pub proof fn lemma_edit_keeps_others(
    records: Seq<EpisodeView>,
    episode: EpisodeView,
    other: EpisodeView,
)
    requires
        other.id != episode.id,
    ensures
        edited(records, episode).contains(other) <==> records.contains(other),
{
    lemma_without_id(records, episode.id);
    let kept = without_id(records, episode.id);
    let out = edited(records, episode);
    if records.contains(other) {
        let k = choose|k: int| 0 <= k < kept.len() && kept[k] == other;
        assert(out[k] == other);
    }
}

/// Among distinct identifiers, filtering by one that is there takes out
/// exactly one record.
pub proof fn lemma_without_id_len(records: Seq<EpisodeView>, id: Seq<char>)
    requires
        unique_ids(records),
        has_id(records, id),
    ensures
        without_id(records, id).len() == records.len() - 1,
    decreases records.len(),
{
    let rest = records.drop_last();
    let last = records.last();
    lemma_without_id_push(rest, last, id);
    assert(rest.push(last) =~= records);
    assert forall|i: int, j: int| 0 <= i < j < rest.len() implies (#[trigger] rest[i]).id != (
    #[trigger] rest[j]).id by {}
    if last.id == id {
        lemma_without_id(rest, id);
    } else {
        lemma_without_id_len(rest, id);
    }
}

/// An edit under an identifier that is there replaces one record by one: the
/// set keeps its size. Under a new identifier it grows by one.
pub proof fn lemma_edited_len(records: Seq<EpisodeView>, episode: EpisodeView)
    requires
        unique_ids(records),
    ensures
        has_id(records, episode.id) ==> edited(records, episode).len() == records.len(),
        !has_id(records, episode.id) ==> edited(records, episode).len() == records.len() + 1,
{
    if has_id(records, episode.id) {
        lemma_without_id_len(records, episode.id);
    } else {
        lemma_without_id(records, episode.id);
    }
}

/// The record set after a run of jobs that finish in the given order: a job
/// that succeeded edits the set by its episode, a job that failed (`None`)
/// leaves the set as it was.
pub open spec fn after_edits(records: Seq<EpisodeView>, edits: Seq<Option<EpisodeView>>) -> Seq<
    EpisodeView,
>
    decreases edits.len(),
{
    if edits.len() == 0 {
        records
    } else {
        let before = after_edits(records, edits.drop_last());
        match edits.last() {
            Some(episode) => edited(before, episode),
            None => before,
        }
    }
}

/// A job that succeeded shows in the end, whatever became of the jobs around
/// it, failures included, as long as no later job carried its identifier.
pub proof fn lemma_edit_survives(
    records: Seq<EpisodeView>,
    edits: Seq<Option<EpisodeView>>,
    k: int,
)
    requires
        0 <= k < edits.len(),
        edits[k] is Some,
        forall|j: int|
            k < j < edits.len() && (#[trigger] edits[j]) is Some ==> edits[j].unwrap().id
                != edits[k].unwrap().id,
    ensures
        after_edits(records, edits).contains(edits[k].unwrap()),
    decreases edits.len(),
{
    let before = after_edits(records, edits.drop_last());
    let out = after_edits(records, edits);
    let wanted = edits[k].unwrap();
    if k == edits.len() - 1 {
        assert(out[out.len() - 1] == wanted);
    } else {
        assert forall|j: int|
            k < j < edits.drop_last().len() && (#[trigger] edits.drop_last()[j]) is Some implies edits.drop_last()[j].unwrap().id
            != wanted.id by {}
        lemma_edit_survives(records, edits.drop_last(), k);
        match edits.last() {
            Some(episode) => {
                lemma_edit_keeps_others(before, episode, wanted);
            },
            None => {},
        }
    }
}

/// A record whose identifier no successful job carried is in the end what
/// and where it was among the records.
pub proof fn lemma_edits_keep_others(
    records: Seq<EpisodeView>,
    edits: Seq<Option<EpisodeView>>,
    other: EpisodeView,
)
    requires
        forall|j: int|
            0 <= j < edits.len() && (#[trigger] edits[j]) is Some ==> edits[j].unwrap().id
                != other.id,
    ensures
        after_edits(records, edits).contains(other) <==> records.contains(other),
    decreases edits.len(),
{
    if edits.len() > 0 {
        assert forall|j: int|
            0 <= j < edits.drop_last().len() && (#[trigger] edits.drop_last()[j]) is Some implies edits.drop_last()[j].unwrap().id
            != other.id by {}
        lemma_edits_keep_others(records, edits.drop_last(), other);
        match edits.last() {
            Some(episode) => {
                lemma_edit_keeps_others(after_edits(records, edits.drop_last()), episode, other);
            },
            None => {},
        }
    }
}

/// Where every job failed, the record set is what it was.
pub proof fn lemma_failures_change_nothing(
    records: Seq<EpisodeView>,
    edits: Seq<Option<EpisodeView>>,
)
    requires
        forall|j: int| 0 <= j < edits.len() ==> (#[trigger] edits[j]) is None,
    ensures
        after_edits(records, edits) == records,
    decreases edits.len(),
{
    if edits.len() > 0 {
        assert forall|j: int| 0 <= j < edits.drop_last().len() implies (
        #[trigger] edits.drop_last()[j]) is None by {}
        lemma_failures_change_nothing(records, edits.drop_last());
    }
}

/// Every record in the end is one that was there before or the episode of a
/// job that succeeded; and distinct identifiers stay distinct.
pub proof fn lemma_after_edits_members(
    records: Seq<EpisodeView>,
    edits: Seq<Option<EpisodeView>>,
)
    ensures
        forall|i: int|
            0 <= i < after_edits(records, edits).len() ==> records.contains(
                #[trigger] after_edits(records, edits)[i],
            ) || edits.contains(Some(after_edits(records, edits)[i])),
        unique_ids(records) ==> unique_ids(after_edits(records, edits)),
    decreases edits.len(),
{
    let out = after_edits(records, edits);
    if edits.len() > 0 {
        let before = after_edits(records, edits.drop_last());
        lemma_after_edits_members(records, edits.drop_last());
        match edits.last() {
            Some(episode) => {
                lemma_without_id(before, episode.id);
                if unique_ids(records) {
                    lemma_edited_unique(before, episode);
                }
            },
            None => {},
        }
        assert forall|i: int| 0 <= i < out.len() implies records.contains(#[trigger] out[i])
            || edits.contains(Some(out[i])) by {}
    }
}

/// No job deletes a record: an identifier that the set holds before a run of
/// jobs is one that it holds after it.
pub proof fn lemma_edits_delete_nothing(
    records: Seq<EpisodeView>,
    edits: Seq<Option<EpisodeView>>,
    id: Seq<char>,
)
    requires
        has_id(records, id),
    ensures
        has_id(after_edits(records, edits), id),
    decreases edits.len(),
{
    if edits.len() > 0 {
        lemma_edits_delete_nothing(records, edits.drop_last(), id);
        let before = after_edits(records, edits.drop_last());
        let out = after_edits(records, edits);
        match edits.last() {
            Some(episode) => {
                if episode.id == id {
                    assert(out[out.len() - 1].id == id);
                } else {
                    lemma_without_id(before, episode.id);
                    let b = choose|b: int| 0 <= b < before.len() && (#[trigger] before[b]).id == id;
                    let kept = without_id(before, episode.id);
                    let k = choose|k: int| 0 <= k < kept.len() && kept[k] == before[b];
                    assert(out[k].id == id);
                }
            },
            None => {},
        }
    }
}

/// Jobs on episodes of the set neither add a record nor take one away.
pub proof fn lemma_after_edits_len(records: Seq<EpisodeView>, edits: Seq<Option<EpisodeView>>)
    requires
        unique_ids(records),
        forall|j: int|
            0 <= j < edits.len() && (#[trigger] edits[j]) is Some ==> has_id(
                records,
                edits[j].unwrap().id,
            ),
    ensures
        after_edits(records, edits).len() == records.len(),
    decreases edits.len(),
{
    if edits.len() > 0 {
        let before = after_edits(records, edits.drop_last());
        assert forall|j: int|
            0 <= j < edits.drop_last().len() && (#[trigger] edits.drop_last()[j]) is Some implies has_id(
            records,
            edits.drop_last()[j].unwrap().id,
        ) by {}
        lemma_after_edits_len(records, edits.drop_last());
        lemma_after_edits_members(records, edits.drop_last());
        match edits.last() {
            Some(episode) => {
                lemma_edits_delete_nothing(records, edits.drop_last(), episode.id);
                lemma_edited_len(before, episode);
            },
            None => {},
        }
    }
}

/// Once a job has succeeded under an identifier, every record with that
/// identifier in the end is the episode of a job that succeeded.
pub proof fn lemma_edited_id_replaced(
    records: Seq<EpisodeView>,
    edits: Seq<Option<EpisodeView>>,
    k: int,
    i: int,
)
    requires
        0 <= k < edits.len(),
        edits[k] is Some,
        0 <= i < after_edits(records, edits).len(),
        after_edits(records, edits)[i].id == edits[k].unwrap().id,
    ensures
        edits.contains(Some(after_edits(records, edits)[i])),
    decreases edits.len(),
{
    let before = after_edits(records, edits.drop_last());
    match edits.last() {
        Some(episode) => {
            lemma_without_id(before, episode.id);
            let kept = without_id(before, episode.id);
            if i < kept.len() {
                let b = choose|b: int| 0 <= b < before.len() && before[b] == kept[i];
                lemma_edited_id_replaced(records, edits.drop_last(), k, b);
            }
        },
        None => {
            lemma_edited_id_replaced(records, edits.drop_last(), k, i);
        },
    }
}

/// A selection in which no record qualifies is empty.
pub proof fn lemma_filter_none(records: Seq<EpisodeView>, pred: spec_fn(EpisodeView) -> bool)
    requires
        forall|i: int| 0 <= i < records.len() ==> !pred(#[trigger] records[i]),
    ensures
        records.filter(pred) == Seq::<EpisodeView>::empty(),
    decreases records.len(),
{
    reveal(Seq::filter);
    if records.len() > 0 {
        assert forall|i: int| 0 <= i < records.drop_last().len() implies !pred(
            #[trigger] records.drop_last()[i],
        ) by {}
        lemma_filter_none(records.drop_last(), pred);
    }
}

/// What a selection holds: only records of the set that qualify, each
/// qualifying record of the set, and no identifier twice where the set has
/// none twice.
pub proof fn lemma_filter_members(records: Seq<EpisodeView>, pred: spec_fn(EpisodeView) -> bool)
    ensures
        forall|k: int|
            0 <= k < records.filter(pred).len() ==> pred(#[trigger] records.filter(pred)[k])
                && records.contains(records.filter(pred)[k]),
        forall|i: int|
            0 <= i < records.len() && pred(records[i]) ==> records.filter(pred).contains(
                #[trigger] records[i],
            ),
        unique_ids(records) ==> unique_ids(records.filter(pred)),
    decreases records.len(),
{
    reveal(Seq::filter);
    let out = records.filter(pred);
    if records.len() > 0 {
        let rest = records.drop_last();
        let sub = rest.filter(pred);
        lemma_filter_members(rest, pred);
        assert forall|k: int| 0 <= k < out.len() implies pred(#[trigger] out[k])
            && records.contains(out[k]) by {}
        assert forall|i: int| 0 <= i < records.len() && pred(records[i]) implies out.contains(
            #[trigger] records[i],
        ) by {}
        if unique_ids(records) {
            assert forall|i: int, j: int| 0 <= i < j < rest.len() implies (#[trigger] rest[i]).id
                != (#[trigger] rest[j]).id by {}
            assert forall|i: int, j: int| 0 <= i < j < out.len() implies (#[trigger] out[i]).id
                != (#[trigger] out[j]).id by {}
        }
    }
}

/// Copies of the episodes, in order.
pub fn duplicate_all(episodes: &Vec<Episode>) -> (res: Vec<Episode>)
    ensures
        views(res@) == views(episodes@),
{
    let mut out: Vec<Episode> = Vec::new();
    let mut i: usize = 0;
    while i < episodes.len()
        invariant
            i <= episodes.len(),
            views(out@) =~= views(episodes@).take(i as int),
        decreases episodes.len() - i,
    {
        let ghost before = views(out@);
        out.push(episodes[i].duplicate());
        proof {
            assert(views(out@) =~= before.push(episodes@[i as int]@));
        }
        i += 1;
    }
    out
}

/// Copies of the episodes whose identifier differs from that of `episode`.
pub fn episodes_without_id(episodes: &Vec<Episode>, episode: &Episode) -> (res: Vec<Episode>)
    ensures
        views(res@) == without_id(views(episodes@), episode@.id),
{
    let mut out: Vec<Episode> = Vec::new();
    let mut i: usize = 0;
    proof {
        reveal(Seq::filter);
    }
    while i < episodes.len()
        invariant
            i <= episodes.len(),
            views(out@) == without_id(views(episodes@).take(i as int), episode@.id),
        decreases episodes.len() - i,
    {
        let ghost all = views(episodes@);
        if !episodes[i].same_id(episode) {
            out.push(episodes[i].duplicate());
        }
        proof {
            lemma_without_id_push(all.take(i as int), all[i as int], episode@.id);
            assert(all.take(i as int).push(all[i as int]) =~= all.take(i + 1));
        }
        i += 1;
    }
    proof {
        assert(views(episodes@).take(i as int) =~= views(episodes@));
    }
    out
}

/// The record set of one series and the file that backs it.
#[derive(Debug)]
pub struct RW {
    file_path: String,
    episodes: Vec<Episode>,
}

impl RW {
    /// The records held, in storage order.
    pub closed spec fn records(&self) -> Seq<EpisodeView> {
        views(self.episodes@)
    }

    /// The path of the backing file.
    pub closed spec fn spec_path(&self) -> Seq<char> {
        self.file_path@
    }

    /// An empty record set, backed by the file of `series` inside `dir_path`.
    pub fn new(series: Series, dir_path: &str) -> (res: RW)
        ensures
            res.spec_path() == spec_join_path(dir_path@, series.spec_data_json_filename()),
            res.records() == Seq::<EpisodeView>::empty(),
    {
        let name = series.data_json_filename();
        let file_path = join_path(dir_path, name.as_str());
        let episodes: Vec<Episode> = Vec::new();
        RW { file_path, episodes }
    }

    pub fn path(&self) -> (res: &str)
        ensures
            res@ == self.spec_path(),
    {
        self.file_path.as_str()
    }

    /// Replaces the whole record set.
    pub fn overwrite_all_episodes(&mut self, episodes: Vec<Episode>)
        ensures
            final(self).records() == views(episodes@),
            final(self).spec_path() == old(self).spec_path(),
    {
        self.episodes = episodes;
    }

    /// Every record, in storage order.
    pub fn read_all_episodes(&self) -> (res: Vec<Episode>)
        ensures
            views(res@) == self.records(),
    {
        duplicate_all(&self.episodes)
    }

    /// Appends a record, whatever the set already holds.
    pub fn push_episode(&mut self, episode: Episode)
        ensures
            final(self).records() == old(self).records().push(episode@),
            final(self).spec_path() == old(self).spec_path(),
    {
        self.episodes.push(episode);
    }

    /// Replaces the records that carry the identifier of `episode` by
    /// `episode`, which comes last.
    pub fn edit_episode(&mut self, episode: Episode)
        ensures
            final(self).records() == edited(old(self).records(), episode@),
            final(self).spec_path() == old(self).spec_path(),
            unique_ids(old(self).records()) ==> unique_ids(final(self).records()),
    {
        let mut filtered = episodes_without_id(&self.episodes, &episode);
        let ghost kept = views(filtered@);
        filtered.push(episode);
        proof {
            assert(views(filtered@) =~= kept.push(episode@));
            if unique_ids(views(self.episodes@)) {
                lemma_edited_unique(views(self.episodes@), episode@);
            }
        }
        self.episodes = filtered;
    }
}

/// The record sets of all series, each apart from the others.
#[derive(Debug)]
pub struct RWJson {
    fr: RW,
    nsq: RW,
    fmd: RW,
    pima: RW,
    ol: RW,
}

impl RWJson {
    /// The records of one series, in storage order.
    pub closed spec fn records(&self, series: Series) -> Seq<EpisodeView> {
        match series {
            Series::FR => self.fr.records(),
            Series::NSQ => self.nsq.records(),
            Series::FMD => self.fmd.records(),
            Series::PIMA => self.pima.records(),
            Series::OL => self.ol.records(),
        }
    }

    /// The path of the file that backs one series.
    pub closed spec fn spec_path(&self, series: Series) -> Seq<char> {
        match series {
            Series::FR => self.fr.spec_path(),
            Series::NSQ => self.nsq.spec_path(),
            Series::FMD => self.fmd.spec_path(),
            Series::PIMA => self.pima.spec_path(),
            Series::OL => self.ol.spec_path(),
        }
    }

    /// Every record set is well kept: its records belong to its series, and
    /// none of its identifiers occurs twice.
    pub open spec fn wf(&self) -> bool {
        forall|s: Series| well_kept(#[trigger] self.records(s), s)
    }

    /// Nothing but the records of `series` differs between two stores.
    pub open spec fn same_but(&self, before: &RWJson, series: Series) -> bool {
        &&& forall|s: Series| s != series ==> self.records(s) == before.records(s)
        &&& forall|s: Series| self.spec_path(s) == before.spec_path(s)
    }

    /// A store with no records yet, its files inside the data directory.
    pub fn new(data_dir_path: &str) -> (res: RWJson)
        ensures
            res.wf(),
            forall|s: Series| res.records(s) == Seq::<EpisodeView>::empty(),
            forall|s: Series|
                res.spec_path(s) == spec_join_path(data_dir_path@, s.spec_data_json_filename()),
    {
        RWJson {
            fr: RW::new(Series::FR, data_dir_path),
            nsq: RW::new(Series::NSQ, data_dir_path),
            fmd: RW::new(Series::FMD, data_dir_path),
            pima: RW::new(Series::PIMA, data_dir_path),
            ol: RW::new(Series::OL, data_dir_path),
        }
    }

    /// The same, to be read from several tasks.
    pub fn new_arc(data_dir_path: &str) -> (res: Arc<RWJson>)
        ensures
            res.wf(),
            forall|s: Series| res.records(s) == Seq::<EpisodeView>::empty(),
            forall|s: Series|
                res.spec_path(s) == spec_join_path(data_dir_path@, s.spec_data_json_filename()),
    {
        Arc::new(RWJson::new(data_dir_path))
    }

    pub fn arc_clone(rw_json: &Arc<RWJson>) -> (res: Arc<RWJson>)
        ensures
            res == *rw_json,
    {
        share_arc(rw_json)
    }

    pub fn path(&self, series: &Series) -> (res: &str)
        ensures
            res@ == self.spec_path(*series),
    {
        match series {
            Series::FR => self.fr.path(),
            Series::NSQ => self.nsq.path(),
            Series::FMD => self.fmd.path(),
            Series::PIMA => self.pima.path(),
            Series::OL => self.ol.path(),
        }
    }

    /// Replaces the whole record set of one series.
    pub fn overwrite_all_episodes(&mut self, series: &Series, episodes: Vec<Episode>)
        ensures
            final(self).records(*series) == views(episodes@),
            final(self).same_but(old(self), *series),
            old(self).wf() && well_kept(views(episodes@), *series) ==> final(self).wf(),
    {
        match series {
            Series::FR => self.fr.overwrite_all_episodes(episodes),
            Series::NSQ => self.nsq.overwrite_all_episodes(episodes),
            Series::FMD => self.fmd.overwrite_all_episodes(episodes),
            Series::PIMA => self.pima.overwrite_all_episodes(episodes),
            Series::OL => self.ol.overwrite_all_episodes(episodes),
        }
    }

    /// Appends a record to the set of its series.
    pub fn push_episode(&mut self, episode: Episode)
        ensures
            final(self).records(episode@.series) == old(self).records(episode@.series).push(
                episode@,
            ),
            final(self).same_but(old(self), episode@.series),
    {
        match episode.series() {
            Series::FR => self.fr.push_episode(episode),
            Series::NSQ => self.nsq.push_episode(episode),
            Series::FMD => self.fmd.push_episode(episode),
            Series::PIMA => self.pima.push_episode(episode),
            Series::OL => self.ol.push_episode(episode),
        }
    }

    /// Every record of one series, in storage order; none before the first
    /// write.
    pub fn read_all_episodes(&self, series: &Series) -> (res: Vec<Episode>)
        ensures
            views(res@) == self.records(*series),
    {
        match series {
            Series::FR => self.fr.read_all_episodes(),
            Series::NSQ => self.nsq.read_all_episodes(),
            Series::FMD => self.fmd.read_all_episodes(),
            Series::PIMA => self.pima.read_all_episodes(),
            Series::OL => self.ol.read_all_episodes(),
        }
    }

    /// Edits the record set of the episode's series by identifier.
    pub fn edit_episode(&mut self, episode: &Episode)
        ensures
            final(self).records(episode@.series) == edited(
                old(self).records(episode@.series),
                episode@,
            ),
            final(self).same_but(old(self), episode@.series),
            unique_ids(old(self).records(episode@.series)) ==> unique_ids(
                final(self).records(episode@.series),
            ),
            old(self).wf() ==> final(self).wf(),
    {
        let ghost before = *self;
        let copy = episode.duplicate();
        match episode.series() {
            Series::FR => self.fr.edit_episode(copy),
            Series::NSQ => self.nsq.edit_episode(copy),
            Series::FMD => self.fmd.edit_episode(copy),
            Series::PIMA => self.pima.edit_episode(copy),
            Series::OL => self.ol.edit_episode(copy),
        }
        proof {
            if before.wf() {
                assert forall|s: Series| well_kept(#[trigger] self.records(s), s) by {
                    assert(well_kept(before.records(s), s));
                    if s == episode@.series {
                        lemma_edited_well_kept(before.records(s), episode@);
                    }
                }
            }
        }
    }
}

} // verus!
