//! The validated settings that the stages work from.

use std::rc::Rc;
use std::sync::Arc;
use vstd::prelude::*;
use crate::config_model::ConfigModel;
use crate::series::Series;
use crate::share::{share_arc, share_rc};
use crate::text::{join_path, spec_join_path};

verus! {

/// The base directory, the directories derived from it, and the selected
/// series.
#[derive(Debug)]
pub struct Config {
    dir_path: String,
    data_dir_path: String,
    temp_dir_path: String,
    series_vec: Vec<Series>,
}

impl Config {
    pub closed spec fn spec_dir_path(&self) -> Seq<char> {
        self.dir_path@
    }

    pub closed spec fn spec_data_dir_path(&self) -> Seq<char> {
        self.data_dir_path@
    }

    pub closed spec fn spec_temp_dir_path(&self) -> Seq<char> {
        self.temp_dir_path@
    }

    pub closed spec fn spec_series_vec(&self) -> Seq<Series> {
        self.series_vec@
    }

    /// The derived directories lie directly inside the base directory.
    pub open spec fn wf(&self) -> bool {
        &&& self.spec_data_dir_path() == spec_join_path(self.spec_dir_path(), ".data"@)
        &&& self.spec_temp_dir_path() == spec_join_path(self.spec_dir_path(), ".temp"@)
    }

    /// The directories that have to exist before a run: the base directory,
    /// the two derived ones, then one per selected series, in order.
    pub open spec fn spec_required_dirs(&self) -> Seq<Seq<char>> {
        seq![self.spec_dir_path(), self.spec_data_dir_path(), self.spec_temp_dir_path()]
            + Seq::new(
            self.spec_series_vec().len(),
            |i: int| spec_join_path(self.spec_dir_path(), self.spec_series_vec()[i].spec_mp3_dirname()),
        )
    }

    pub fn new_rc(dir_path: String, series_vec: Vec<Series>) -> (res: Rc<Config>)
        ensures
            res.wf(),
            res.spec_dir_path() == dir_path@,
            res.spec_series_vec() == series_vec@,
    {
        let data_dir_path = join_path(dir_path.as_str(), ".data");
        let temp_dir_path = join_path(dir_path.as_str(), ".temp");
        Rc::new(Config { dir_path, data_dir_path, temp_dir_path, series_vec })
    }

    /// The settings of a configuration file, with the directories derived
    /// from them, to be shared between tasks.
    pub fn new_arc(config_model: ConfigModel) -> (res: Arc<Config>)
        ensures
            res.wf(),
            res.spec_dir_path() == config_model.dir_path@,
            res.spec_series_vec() == config_model.series_vec@,
    {
        let data_dir_path = join_path(config_model.dir_path.as_str(), ".data");
        let temp_dir_path = join_path(config_model.dir_path.as_str(), ".temp");
        Arc::new(
            Config {
                dir_path: config_model.dir_path,
                data_dir_path,
                temp_dir_path,
                series_vec: config_model.series_vec,
            },
        )
    }

    pub fn arc_clone(config: &Arc<Config>) -> (res: Arc<Config>)
        ensures
            res == *config,
    {
        share_arc(config)
    }

    pub fn rc_clone(config: &Rc<Config>) -> (res: Rc<Config>)
        ensures
            res == *config,
    {
        share_rc(config)
    }

    pub fn dir_path(&self) -> (res: String)
        ensures
            res@ == self.spec_dir_path(),
    {
        self.dir_path.clone()
    }

    pub fn data_dir_path(&self) -> (res: String)
        ensures
            res@ == self.spec_data_dir_path(),
    {
        self.data_dir_path.clone()
    }

    pub fn temp_dir_path(&self) -> (res: String)
        ensures
            res@ == self.spec_temp_dir_path(),
    {
        self.temp_dir_path.clone()
    }

    pub fn series_vec(&self) -> (res: Vec<Series>)
        ensures
            res@ == self.spec_series_vec(),
    {
        let mut out: Vec<Series> = Vec::new();
        let mut i: usize = 0;
        while i < self.series_vec.len()
            invariant
                i <= self.series_vec.len(),
                out@ == self.series_vec@.take(i as int),
            decreases self.series_vec.len() - i,
        {
            out.push(self.series_vec[i]);
            i += 1;
        }
        out
    }

    /// The directories that have to exist before a run.
    pub fn required_dirs(&self) -> (res: Vec<String>)
        ensures
            res@.len() == self.spec_required_dirs().len(),
            forall|i: int| 0 <= i < res@.len() ==> (#[trigger] res@[i])@ == self.spec_required_dirs()[i],
    {
        let mut out: Vec<String> = Vec::new();
        out.push(self.dir_path.clone());
        out.push(self.data_dir_path.clone());
        out.push(self.temp_dir_path.clone());
        let mut i: usize = 0;
        while i < self.series_vec.len()
            invariant
                i <= self.series_vec.len(),
                out@.len() == 3 + i,
                forall|k: int|
                    0 <= k < out@.len() ==> (#[trigger] out@[k])@ == self.spec_required_dirs()[k],
            decreases self.series_vec.len() - i,
        {
            let name = self.series_vec[i].mp3_dirname();
            out.push(join_path(self.dir_path.as_str(), name.as_str()));
            i += 1;
        }
        out
    }
}

} // verus!
