//! Export shapes for scanned artifacts.  The extended format groups
//! artifacts by slot; its on-disk serialization lives with the embedding
//! program.

use vstd::prelude::*;

use crate::artifact::{ArtifactSlot, GenshinArtifact};

verus! {

/// The available export formats.
#[derive(Clone, Copy, PartialEq, Eq, Structural, Debug)]
pub enum GenshinArtifactExportFormat {
    Mona,
    MonaExtended,
    MingyuLab,
    Good,
    CSV,
    All,
}

impl Default for GenshinArtifactExportFormat {
    /// The default export format.
    fn default() -> (r: Self)
        ensures
            r == GenshinArtifactExportFormat::Mona,
    {
        GenshinArtifactExportFormat::Mona
    }
}

/// One artifact as the extended format carries it.
pub struct MonaExtendedArtifact(pub GenshinArtifact);

/// The artifacts of one slot, in input order.
pub open spec fn slot_filter(s: Seq<GenshinArtifact>, slot: ArtifactSlot) -> Seq<
    GenshinArtifact,
>
    decreases s.len(),
{
    if s.len() == 0 {
        Seq::empty()
    } else {
        let r = slot_filter(s.drop_last(), slot);
        if s.last().slot == slot {
            r.push(s.last())
        } else {
            r
        }
    }
}

/// The artifacts wrapped in one bucket.
pub open spec fn bucket_artifacts(s: Seq<MonaExtendedArtifact>) -> Seq<GenshinArtifact> {
    s.map_values(|m: MonaExtendedArtifact| m.0)
}

/// The extended export format: artifacts bucketed by slot.
pub struct MonaExtendedFormat {
    /// Format version.
    pub version: String,
    /// Flower-slot artifacts.
    pub flower: Vec<MonaExtendedArtifact>,
    /// Feather-slot artifacts.
    pub feather: Vec<MonaExtendedArtifact>,
    /// Goblet-slot artifacts.
    pub cup: Vec<MonaExtendedArtifact>,
    /// Sand-slot artifacts.
    pub sand: Vec<MonaExtendedArtifact>,
    /// Head-slot artifacts.
    pub head: Vec<MonaExtendedArtifact>,
}

impl MonaExtendedFormat {
    /// Group the artifacts by slot, keeping input order inside each
    /// bucket.
    pub fn new(results: Vec<GenshinArtifact>) -> (r: MonaExtendedFormat)
        ensures
            bucket_artifacts(r.flower@) == slot_filter(results@, ArtifactSlot::Flower),
            bucket_artifacts(r.feather@) == slot_filter(results@, ArtifactSlot::Feather),
            bucket_artifacts(r.sand@) == slot_filter(results@, ArtifactSlot::Sand),
            bucket_artifacts(r.cup@) == slot_filter(results@, ArtifactSlot::Goblet),
            bucket_artifacts(r.head@) == slot_filter(results@, ArtifactSlot::Head),
            r.version@ == "1"@,
    {
        let mut flower: Vec<MonaExtendedArtifact> = Vec::new();
        let mut feather: Vec<MonaExtendedArtifact> = Vec::new();
        let mut cup: Vec<MonaExtendedArtifact> = Vec::new();
        let mut sand: Vec<MonaExtendedArtifact> = Vec::new();
        let mut head: Vec<MonaExtendedArtifact> = Vec::new();
        let ghost all = results@;
        for art in it: results.into_iter()
            invariant
                it.seq() == all,
                bucket_artifacts(flower@) == slot_filter(
                    all.take(it.index() as int),
                    ArtifactSlot::Flower,
                ),
                bucket_artifacts(feather@) == slot_filter(
                    all.take(it.index() as int),
                    ArtifactSlot::Feather,
                ),
                bucket_artifacts(sand@) == slot_filter(
                    all.take(it.index() as int),
                    ArtifactSlot::Sand,
                ),
                bucket_artifacts(cup@) == slot_filter(
                    all.take(it.index() as int),
                    ArtifactSlot::Goblet,
                ),
                bucket_artifacts(head@) == slot_filter(
                    all.take(it.index() as int),
                    ArtifactSlot::Head,
                ),
        {
            let ghost i = it.index() as int;
            let ghost f0 = flower@;
            let ghost fe0 = feather@;
            let ghost sa0 = sand@;
            let ghost cu0 = cup@;
            let ghost he0 = head@;
            let wrapper = MonaExtendedArtifact(art);
            match wrapper.0.slot {
                ArtifactSlot::Flower => flower.push(wrapper),
                ArtifactSlot::Feather => feather.push(wrapper),
                ArtifactSlot::Sand => sand.push(wrapper),
                ArtifactSlot::Goblet => cup.push(wrapper),
                ArtifactSlot::Head => head.push(wrapper),
            }
            proof {
                assert(all.take(i + 1).drop_last() =~= all.take(i));
                assert(all.take(i + 1).last() == all[i]);
                assert(bucket_artifacts(f0.push(MonaExtendedArtifact(all[i]))) =~= bucket_artifacts(
                    f0,
                ).push(all[i]));
                assert(bucket_artifacts(fe0.push(MonaExtendedArtifact(all[i])))
                    =~= bucket_artifacts(fe0).push(all[i]));
                assert(bucket_artifacts(sa0.push(MonaExtendedArtifact(all[i])))
                    =~= bucket_artifacts(sa0).push(all[i]));
                assert(bucket_artifacts(cu0.push(MonaExtendedArtifact(all[i])))
                    =~= bucket_artifacts(cu0).push(all[i]));
                assert(bucket_artifacts(he0.push(MonaExtendedArtifact(all[i])))
                    =~= bucket_artifacts(he0).push(all[i]));
            }
        }
        proof {
            assert(all.take(all.len() as int) =~= all);
        }
        MonaExtendedFormat { version: String::from_str("1"), flower, feather, cup, sand, head }
    }
}

} // verus!
