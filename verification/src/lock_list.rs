//! The lock-target list: records the feedback loop should lock when it
//! sees them.  A scanned record matches an entry when every field is equal
//! after trimming, in order.

use vstd::prelude::*;

use crate::parse::{spec_trim, trim_eq};
use crate::scan_result::GenshinArtifactScanResult;

verus! {

/// One target record: name, main stat, and the four sub-stat lines.
pub struct LockListEntry {
    /// Display name to match.
    pub name: String,
    /// Main-stat name to match.
    pub main_stat_name: String,
    /// Main-stat value to match.
    pub main_stat_value: String,
    /// Exactly four sub-stat strings; order matters.
    pub sub_stat: [String; 4],
}

/// The list of records to lock.
pub struct LockList(pub Vec<LockListEntry>);

/// Whether a scanned record matches one list entry: exact trimmed-string
/// equality on every field, in order.
pub open spec fn entry_matches(e: LockListEntry, r: GenshinArtifactScanResult) -> bool {
    &&& spec_trim(e.name@) == spec_trim(r.name@)
    &&& spec_trim(e.main_stat_name@) == spec_trim(r.main_stat_name@)
    &&& spec_trim(e.main_stat_value@) == spec_trim(r.main_stat_value@)
    &&& spec_trim(e.sub_stat[0]@) == spec_trim(r.sub_stat[0]@)
    &&& spec_trim(e.sub_stat[1]@) == spec_trim(r.sub_stat[1]@)
    &&& spec_trim(e.sub_stat[2]@) == spec_trim(r.sub_stat[2]@)
    &&& spec_trim(e.sub_stat[3]@) == spec_trim(r.sub_stat[3]@)
}

impl LockList {
    /// True exactly when some entry matches the scanned record on all
    /// trimmed fields.
    pub fn contains(&self, r: &GenshinArtifactScanResult) -> (b: bool)
        ensures
            b == exists|i: int| 0 <= i < self.0@.len() && entry_matches(self.0@[i], *r),
    {
        let n = self.0.len();
        let mut i: usize = 0;
        while i < n
            invariant
                n == self.0@.len(),
                i <= n,
                forall|k: int| 0 <= k < i ==> !entry_matches(self.0@[k], *r),
            decreases n - i,
        {
            let e = &self.0[i];
            let m = trim_eq(e.name.as_str(), r.name.as_str()) && trim_eq(
                e.main_stat_name.as_str(),
                r.main_stat_name.as_str(),
            ) && trim_eq(e.main_stat_value.as_str(), r.main_stat_value.as_str()) && trim_eq(
                e.sub_stat[0].as_str(),
                r.sub_stat[0].as_str(),
            ) && trim_eq(e.sub_stat[1].as_str(), r.sub_stat[1].as_str()) && trim_eq(
                e.sub_stat[2].as_str(),
                r.sub_stat[2].as_str(),
            ) && trim_eq(e.sub_stat[3].as_str(), r.sub_stat[3].as_str());
            if m {
                assert(entry_matches(self.0@[i as int], *r));
                return true;
            }
            i = i + 1;
        }
        false
    }
}

} // verus!
