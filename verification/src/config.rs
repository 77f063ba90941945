//! The `[hascan]` configuration section.

use vstd::prelude::*;

use crate::text::{ascii_upper, to_ascii_uppercase};

verus! {

/// `datadir` when the section does not set it.
pub const DEFAULT_DATADIR: &'static str = "hacash_scan_data";

/// `synchronous` when the section does not set it.
pub const DEFAULT_SYNCHRONOUS: &'static str = "NORMAL";

/// `scan_batch_blocks` when the section does not set it.
pub const DEFAULT_SCAN_BATCH_BLOCKS: u64 = 200;

/// `stop_at_height` when the section does not set it (0: never stop).
pub const DEFAULT_STOP_AT_HEIGHT: u64 = 0;

/// The indexer settings of the configuration file.
#[derive(Debug)]
pub struct BlkScrConfig {
    pub datadir: String,
    /// SQLite synchronous mode: OFF, NORMAL, FULL or EXTRA.
    pub synchronous: String,
    pub scan_batch_blocks: u64,
    pub stop_at_height: u64,
}

pub open spec fn is_synchronous_mode(s: Seq<char>) -> bool {
    s == "OFF"@ || s == "NORMAL"@ || s == "FULL"@ || s == "EXTRA"@
}

pub open spec fn clamp_batch(n: u64) -> u64 {
    if n < 1 {
        1
    } else if n > 1000 {
        1000
    } else {
        n
    }
}

impl BlkScrConfig {
    /// Builds the configuration from the section's values: the synchronous
    /// mode is taken in upper case and must be OFF, NORMAL, FULL or EXTRA;
    /// the batch size is kept within 1 through 1000.
    pub fn new(datadir: String, synchronous: &str, scan_batch_blocks: u64, stop_at_height: u64) -> (r:
        Result<BlkScrConfig, String>)
        ensures
            ({
                let mode = synchronous@.map_values(|c: char| ascii_upper(c));
                if is_synchronous_mode(mode) {
                    r matches Ok(c) && c.datadir@ == datadir@ && c.synchronous@ == mode
                        && c.scan_batch_blocks == clamp_batch(scan_batch_blocks) && c.stop_at_height
                        == stop_at_height
                } else {
                    r matches Err(e) && e@
                        == "config [hascan].synchronous must be OFF, NORMAL, FULL, or EXTRA"@
                }
            }),
    {
        let synchronous = to_ascii_uppercase(synchronous);
        let scan_batch_blocks = if scan_batch_blocks < 1 {
            1
        } else if scan_batch_blocks > 1000 {
            1000
        } else {
            scan_batch_blocks
        };
        let ok = synchronous == "OFF".to_owned() || synchronous == "NORMAL".to_owned() || synchronous
            == "FULL".to_owned() || synchronous == "EXTRA".to_owned();
        if !ok {
            return Err("config [hascan].synchronous must be OFF, NORMAL, FULL, or EXTRA".to_owned());
        }
        Ok(BlkScrConfig { datadir, synchronous, scan_batch_blocks, stop_at_height })
    }

    /// A copy of the configuration.
    pub fn duplicate(&self) -> (r: BlkScrConfig)
        ensures
            r.datadir@ == self.datadir@,
            r.synchronous@ == self.synchronous@,
            r.scan_batch_blocks == self.scan_batch_blocks,
            r.stop_at_height == self.stop_at_height,
    {
        BlkScrConfig {
            datadir: self.datadir.clone(),
            synchronous: self.synchronous.clone(),
            scan_batch_blocks: self.scan_batch_blocks,
            stop_at_height: self.stop_at_height,
        }
    }
}

impl Default for BlkScrConfig {
    fn default() -> (r: Self)
        ensures
            r.datadir@ == Seq::<char>::empty(),
            r.synchronous@ == Seq::<char>::empty(),
            r.scan_batch_blocks == 0,
            r.stop_at_height == 0,
    {
        BlkScrConfig {
            datadir: String::new(),
            synchronous: String::new(),
            scan_batch_blocks: 0,
            stop_at_height: 0,
        }
    }
}

} // verus!
