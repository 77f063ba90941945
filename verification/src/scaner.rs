//! The indexer's state: configuration, settings snapshot and the last
//! background error.

use vstd::prelude::*;

use crate::config::BlkScrConfig;
use crate::scan::{batch_end, catch_up_target, sat_add};
use crate::server::{ApiCtx, ExplorerApi};
use crate::setting::ScanSettings;

verus! {

/// The explorer indexer.
#[derive(Debug)]
pub struct BlkScaner {
    pub cnf: BlkScrConfig,
    pub setting: ScanSettings,
    pub last_error: Option<String>,
}

impl BlkScaner {
    /// An indexer over a loaded settings snapshot, with no error pending.
    pub fn new(cnf: BlkScrConfig, setting: ScanSettings) -> (r: BlkScaner)
        ensures
            r.cnf == cnf,
            r.setting == setting,
            r.last_error is None,
    {
        BlkScaner { cnf, setting, last_error: None }
    }

    /// The scanner name.
    pub fn name(&self) -> (r: &'static str)
        ensures
            r@ == "hascan"@,
    {
        "hascan"
    }

    /// Records the outcome of the last catch-up: `None` after a success.
    pub fn set_error(&mut self, error: Option<String>)
        ensures
            final(self).last_error == error,
            final(self).cnf == old(self).cnf,
            final(self).setting == old(self).setting,
    {
        self.last_error = error;
    }

    /// The height the next catch-up works towards.
    pub fn catch_up_target(&self, stable_height: u64) -> (r: u64)
        ensures
            self.cnf.stop_at_height == 0 ==> r == stable_height,
            self.cnf.stop_at_height != 0 ==> r == (if stable_height < self.cnf.stop_at_height {
                stable_height
            } else {
                self.cnf.stop_at_height
            }),
    {
        catch_up_target(stable_height, self.cnf.stop_at_height)
    }

    /// The last height of the next batch from the checkpoint towards `target`.
    pub fn next_batch_end(&self, target: u64) -> (r: u64)
        ensures
            r == (if sat_add(self.setting.height, self.cnf.scan_batch_blocks) < target {
                sat_add(self.setting.height, self.cnf.scan_batch_blocks)
            } else {
                target
            }),
    {
        batch_end(self.setting.height, self.cnf.scan_batch_blocks, target)
    }

    /// Whether catch-up has work left below `target`.
    pub fn behind(&self, target: u64) -> (r: bool)
        ensures
            r == (self.setting.height < target),
    {
        self.setting.height < target
    }

    /// The view of the read-only explorer routes.
    pub fn api_ctx(&self) -> (r: ApiCtx<'_>)
        ensures
            r.setting == &self.setting,
            r.last_error == &self.last_error,
    {
        ApiCtx { setting: &self.setting, last_error: &self.last_error }
    }

    /// The explorer service of this indexer.
    pub fn api_service(&self) -> (r: ExplorerApi) {
        ExplorerApi {  }
    }
}

} // verus!
