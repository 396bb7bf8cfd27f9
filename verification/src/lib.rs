//! Episode archive core: the series catalogue, episode records, the per-series
//! record set, content fingerprints, job selection for each pipeline stage and
//! the worker and driver state machines, each with a proved contract.

pub mod canceller;
pub mod config;
pub mod config_model;
pub mod download_url_scraper;
pub mod downloader;
pub mod episode;
pub mod episode_scraper;
pub mod fconx;
pub mod hasher;
pub mod logger;
pub mod rw_json;
pub mod rw_mp3;
pub mod series;
pub mod share;
pub mod text;
pub mod worker;
