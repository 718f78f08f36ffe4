//! One recognized record per grid cell.  Records are compared by their
//! recognized content alone — the lock flag (and the sampled rarity) ride
//! along for the feedback loop but never influence deduplication.

use vstd::prelude::*;

verus! {

/// The recognized content of a record: what deduplication compares.
#[verifier::ext_equal]
pub ghost struct ScanContent {
    pub name: Seq<char>,
    pub main_stat_name: Seq<char>,
    pub main_stat_value: Seq<char>,
    pub sub_stat: Seq<Seq<char>>,
    pub level: int,
    pub equip: Seq<char>,
}

/// One scanned record.
pub struct GenshinArtifactScanResult {
    /// Recognized display name.
    pub name: String,
    /// Recognized main-stat name.
    pub main_stat_name: String,
    /// Recognized main-stat value.
    pub main_stat_value: String,
    /// The four recognized sub-stat lines, in order.
    pub sub_stat: [String; 4],
    /// Level parsed from the recognized level text.
    pub level: i32,
    /// Recognized equip-state text.
    pub equip: String,
    /// Rarity tier sampled from the detail panel.
    pub star: i32,
    /// Whether the grid-list view showed this cell as locked.
    pub lock: bool,
}

impl GenshinArtifactScanResult {
    /// The content fields, the basis of record equality.
    pub open spec fn content(&self) -> ScanContent {
        ScanContent {
            name: self.name@,
            main_stat_name: self.main_stat_name@,
            main_stat_value: self.main_stat_value@,
            sub_stat: seq![
                self.sub_stat[0]@,
                self.sub_stat[1]@,
                self.sub_stat[2]@,
                self.sub_stat[3]@,
            ],
            level: self.level as int,
            equip: self.equip@,
        }
    }

    /// Whether two records carry the same recognized content; the lock
    /// flag and the rarity tier play no part.
    pub fn same_content(&self, other: &Self) -> (r: bool)
        ensures
            r == (self.content() == other.content()),
    {
        let r = self.name == other.name && self.main_stat_name == other.main_stat_name
            && self.main_stat_value == other.main_stat_value && self.sub_stat[0]
            == other.sub_stat[0] && self.sub_stat[1] == other.sub_stat[1] && self.sub_stat[2]
            == other.sub_stat[2] && self.sub_stat[3] == other.sub_stat[3] && self.level
            == other.level && self.equip == other.equip;
        proof {
            if r {
                assert(self.content().sub_stat =~= other.content().sub_stat);
                assert(self.content() =~= other.content());
            } else {
                if self.content() == other.content() {
                    assert(self.content().sub_stat[0] == other.content().sub_stat[0]);
                    assert(self.content().sub_stat[1] == other.content().sub_stat[1]);
                    assert(self.content().sub_stat[2] == other.content().sub_stat[2]);
                    assert(self.content().sub_stat[3] == other.content().sub_stat[3]);
                }
            }
        }
        r
    }

    /// An explicit deep copy.
    pub fn duplicate(&self) -> (r: Self)
        ensures
            r == *self,
    {
        let r = GenshinArtifactScanResult {
            name: self.name.clone(),
            main_stat_name: self.main_stat_name.clone(),
            main_stat_value: self.main_stat_value.clone(),
            sub_stat: [
                self.sub_stat[0].clone(),
                self.sub_stat[1].clone(),
                self.sub_stat[2].clone(),
                self.sub_stat[3].clone(),
            ],
            level: self.level,
            equip: self.equip.clone(),
            star: self.star,
            lock: self.lock,
        };
        proof {
            assert(r.sub_stat@ =~= self.sub_stat@);
            assert(r.sub_stat == self.sub_stat);
        }
        r
    }
}

/// No two records carry the same recognized content.
pub open spec fn content_unique(s: Seq<GenshinArtifactScanResult>) -> bool {
    forall|i: int, j: int|
        0 <= i < j < s.len() ==> (#[trigger] s[i]).content() != (#[trigger] s[j]).content()
}

/// Records with equal content fields and different lock flags are still
/// the same record for deduplication.
pub proof fn lemma_content_ignores_lock(
    a: GenshinArtifactScanResult,
    b: GenshinArtifactScanResult,
)
    requires
        a.name@ == b.name@,
        a.main_stat_name@ == b.main_stat_name@,
        a.main_stat_value@ == b.main_stat_value@,
        a.sub_stat[0]@ == b.sub_stat[0]@,
        a.sub_stat[1]@ == b.sub_stat[1]@,
        a.sub_stat[2]@ == b.sub_stat[2]@,
        a.sub_stat[3]@ == b.sub_stat[3]@,
        a.level == b.level,
        a.equip@ == b.equip@,
    ensures
        a.content() == b.content(),
{
    assert(a.content().sub_stat =~= b.content().sub_stat);
    assert(a.content() =~= b.content());
}

} // verus!
