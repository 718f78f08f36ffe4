//! Calibrated UI geometry, keyed by control name, reference resolution,
//! UI flavor and platform, and its rescaling to a live window size.
//!
//! Resolution independence works by selecting the calibration whose
//! reference aspect ratio is nearest the target's (exact match preferred,
//! by the cross difference |tw*rh - rw*th|) and scaling every geometry
//! value by the single factor `target_width / reference_width`; invariant
//! integers pass through unchanged.

use vstd::prelude::*;

use crate::error::ScanError;
use crate::game_info::{Platform, UI};
use crate::geometry::{
    cal_in_bounds, scale_mp, scale_pair_in_bounds, Pos, Rect, Size, SCALED_BOUND, SIZE_BOUND,
};
use crate::parse::chars_eq;
use crate::parse::chars_of;

verus! {

/// One calibrated geometry value: rectangles, points and sizes are in
/// milli-pixels of the reference resolution and rescale; invariant
/// integers are resolution-independent and never rescale.
#[derive(Clone, Copy, PartialEq, Eq, Structural, Debug)]
pub enum WindowInfoType {
    Rect(Rect),
    Pos(Pos),
    Size(Size),
    InvariantInt(i64),
}

/// One calibrated entry.
pub struct WindowInfoEntry {
    /// Symbolic control name.
    pub name: String,
    /// Reference width, in pixels.
    pub ref_width: i64,
    /// Reference height, in pixels.
    pub ref_height: i64,
    /// UI flavor the entry was calibrated for.
    pub ui: UI,
    /// Platform the entry was calibrated for.
    pub platform: Platform,
    /// The calibrated value.
    pub value: WindowInfoType,
}

/// Whether every coordinate inside a value is small enough to rescale.
pub open spec fn value_in_bounds(v: WindowInfoType) -> bool {
    match v {
        WindowInfoType::Rect(r) => cal_in_bounds(r.left as int) && cal_in_bounds(r.top as int)
            && cal_in_bounds(r.width as int) && cal_in_bounds(r.height as int),
        WindowInfoType::Pos(p) => cal_in_bounds(p.x as int) && cal_in_bounds(p.y as int),
        WindowInfoType::Size(s) => cal_in_bounds(s.width as int) && cal_in_bounds(
            s.height as int,
        ),
        WindowInfoType::InvariantInt(_) => true,
    }
}

/// Whether two entries carry the same key (name, reference size, UI,
/// platform).
pub open spec fn same_key(a: WindowInfoEntry, b: WindowInfoEntry) -> bool {
    a.name@ == b.name@ && a.ref_width == b.ref_width && a.ref_height == b.ref_height && a.ui
        == b.ui && a.platform == b.platform
}

/// The aggregate mapping over all calibrated entries.
pub struct WindowInfoRepository {
    /// The calibrated entries; each key occurs at most once.
    pub entries: Vec<WindowInfoEntry>,
}

impl WindowInfoRepository {
    /// Repository invariant: keys are unique, reference sizes are sane,
    /// values are small enough to rescale.
    pub open spec fn wf(&self) -> bool {
        &&& forall|i: int, j: int|
            0 <= i < j < self.entries@.len() ==> !same_key(
                #[trigger] self.entries@[i],
                #[trigger] self.entries@[j],
            )
        &&& forall|i: int|
            0 <= i < self.entries@.len() ==> value_in_bounds(
                (#[trigger] self.entries@[i]).value,
            )
        &&& forall|i: int|
            0 <= i < self.entries@.len() ==> 0 < (#[trigger] self.entries@[i]).ref_width
                < SIZE_BOUND && 0 < self.entries@[i].ref_height < SIZE_BOUND
    }

    /// An empty repository.
    pub fn new() -> (r: WindowInfoRepository)
        ensures
            r.wf(),
            r.entries@.len() == 0,
    {
        WindowInfoRepository { entries: Vec::new() }
    }

    /// Insert or overwrite the value under one key.
    pub fn add(
        &mut self,
        name: &str,
        ref_width: i64,
        ref_height: i64,
        ui: UI,
        platform: Platform,
        value: WindowInfoType,
    )
        requires
            old(self).wf(),
            value_in_bounds(value),
            0 < ref_width < SIZE_BOUND,
            0 < ref_height < SIZE_BOUND,
        ensures
            final(self).wf(),
            spec_lookup(
                final(self).entries@,
                name@,
                ref_width as int,
                ref_height as int,
                ui,
                platform,
            ) == Some(value),
            forall|n2: Seq<char>, rw2: int, rh2: int, ui2: UI, p2: Platform|
                !(n2 == name@ && rw2 == ref_width && rh2 == ref_height && ui2 == ui && p2
                    == platform) ==> #[trigger] spec_lookup(
                    final(self).entries@,
                    n2,
                    rw2,
                    rh2,
                    ui2,
                    p2,
                ) == spec_lookup(old(self).entries@, n2, rw2, rh2, ui2, p2),
    {
        let nv = chars_of(name);
        let n = self.entries.len();
        let mut i: usize = 0;
        while i < n
            invariant
                self == old(self),
                self.wf(),
                n == self.entries@.len(),
                i <= n,
                nv@ == name@,
                value_in_bounds(value),
                0 < ref_width < SIZE_BOUND,
                0 < ref_height < SIZE_BOUND,
                forall|k: int|
                    0 <= k < i ==> !entry_key_is(
                        #[trigger] self.entries@[k],
                        name@,
                        ref_width as int,
                        ref_height as int,
                        ui,
                        platform,
                    ),
            decreases n - i,
        {
            let e = &self.entries[i];
            if e.ref_width == ref_width && e.ref_height == ref_height && entry_ui_eq(e.ui, ui)
                && entry_platform_eq(e.platform, platform) && chars_eq(&chars_of(e.name.as_str()), &nv) {
                let new_entry = WindowInfoEntry {
                    name: e.name.clone(),
                    ref_width,
                    ref_height,
                    ui,
                    platform,
                    value,
                };
                let ghost old_entries = self.entries@;
                self.entries[i] = new_entry;
                proof {
                    assert(self.entries@[i as int].name@ == old_entries[i as int].name@);
                    assert forall|a: int, b: int|
                        0 <= a < b < self.entries@.len() implies !same_key(
                        #[trigger] self.entries@[a],
                        #[trigger] self.entries@[b],
                    ) by {
                        assert(!same_key(old_entries[a], old_entries[b]));
                        if a != i && b != i {
                            assert(self.entries@[a] == old_entries[a]);
                            assert(self.entries@[b] == old_entries[b]);
                        }
                    }
                    assert forall|a: int| 0 <= a < self.entries@.len() implies value_in_bounds(
                        (#[trigger] self.entries@[a]).value,
                    ) && 0 < self.entries@[a].ref_width < SIZE_BOUND && 0 < self.entries@[
                        a
                    ].ref_height < SIZE_BOUND by {
                        if a == i {
                            assert(self.entries@[a] == new_entry);
                        } else {
                            assert(self.entries@[a] == old_entries[a]);
                        }
                    }
                    lemma_lookup_update(
                        old_entries,
                        self.entries@,
                        i as int,
                        name@,
                        ref_width as int,
                        ref_height as int,
                        ui,
                        platform,
                    );
                }
                return ;
            }
            i = i + 1;
        }
        let new_entry = WindowInfoEntry {
            name: String::from_str(name),
            ref_width,
            ref_height,
            ui,
            platform,
            value,
        };
        let ghost old_entries = self.entries@;
        self.entries.push(new_entry);
        proof {
            lemma_lookup_append(
                old_entries,
                self.entries@,
                name@,
                ref_width as int,
                ref_height as int,
                ui,
                platform,
            );
        }
    }
}

/// Whether an entry carries exactly this key.
pub open spec fn entry_key_is(
    e: WindowInfoEntry,
    name: Seq<char>,
    rw: int,
    rh: int,
    ui: UI,
    platform: Platform,
) -> bool {
    e.name@ == name && e.ref_width == rw && e.ref_height == rh && e.ui == ui && e.platform
        == platform
}

/// The value under a key: the first entry that carries it.
pub open spec fn spec_lookup(
    entries: Seq<WindowInfoEntry>,
    name: Seq<char>,
    rw: int,
    rh: int,
    ui: UI,
    platform: Platform,
) -> Option<WindowInfoType>
    decreases entries.len(),
{
    if entries.len() == 0 {
        None
    } else if entry_key_is(entries[0], name, rw, rh, ui, platform) {
        Some(entries[0].value)
    } else {
        spec_lookup(entries.drop_first(), name, rw, rh, ui, platform)
    }
}

proof fn lemma_lookup_update(
    old_entries: Seq<WindowInfoEntry>,
    new_entries: Seq<WindowInfoEntry>,
    i: int,
    name: Seq<char>,
    rw: int,
    rh: int,
    ui: UI,
    platform: Platform,
)
    requires
        0 <= i < old_entries.len(),
        new_entries == old_entries.update(i, new_entries[i]),
        entry_key_is(new_entries[i], name, rw, rh, ui, platform),
        forall|k: int|
            0 <= k < i ==> !entry_key_is(#[trigger] old_entries[k], name, rw, rh, ui, platform),
        forall|k: int, j: int|
            0 <= k < j < old_entries.len() ==> !same_key(
                #[trigger] old_entries[k],
                #[trigger] old_entries[j],
            ),
        entry_key_is(old_entries[i], name, rw, rh, ui, platform),
    ensures
        spec_lookup(new_entries, name, rw, rh, ui, platform) == Some(new_entries[i].value),
        forall|n2: Seq<char>, rw2: int, rh2: int, ui2: UI, p2: Platform|
            !(n2 == name && rw2 == rw && rh2 == rh && ui2 == ui && p2 == platform)
                ==> #[trigger] spec_lookup(new_entries, n2, rw2, rh2, ui2, p2) == spec_lookup(
                old_entries,
                n2,
                rw2,
                rh2,
                ui2,
                p2,
            ),
    decreases old_entries.len(),
{
    if i == 0 {
        assert forall|n2: Seq<char>, rw2: int, rh2: int, ui2: UI, p2: Platform|
            !(n2 == name && rw2 == rw && rh2 == rh && ui2 == ui && p2 == platform) implies
            #[trigger] spec_lookup(new_entries, n2, rw2, rh2, ui2, p2) == spec_lookup(
            old_entries,
            n2,
            rw2,
            rh2,
            ui2,
            p2,
        ) by {
            assert(new_entries.drop_first() =~= old_entries.drop_first());
            assert(!entry_key_is(new_entries[0], n2, rw2, rh2, ui2, p2));
            assert(!entry_key_is(old_entries[0], n2, rw2, rh2, ui2, p2) || entry_key_is(
                old_entries[0],
                name,
                rw,
                rh,
                ui,
                platform,
            ));
        }
    } else {
        let old_rest = old_entries.drop_first();
        let new_rest = new_entries.drop_first();
        assert(new_rest =~= old_rest.update(i - 1, new_entries[i]));
        assert(forall|k: int| 0 <= k < old_rest.len() ==> #[trigger] old_rest[k] == old_entries[
            k + 1
        ]);
        assert(new_rest[i - 1] == new_entries[i]);
        assert forall|a: int, b: int| 0 <= a < b < old_rest.len() implies !same_key(
            #[trigger] old_rest[a],
            #[trigger] old_rest[b],
        ) by {
            assert(old_rest[a] == old_entries[a + 1]);
            assert(old_rest[b] == old_entries[b + 1]);
        }
        lemma_lookup_update(old_rest, new_rest, i - 1, name, rw, rh, ui, platform);
        assert(new_entries[0] == old_entries[0]);
        assert(!entry_key_is(new_entries[0], name, rw, rh, ui, platform));
        assert forall|n2: Seq<char>, rw2: int, rh2: int, ui2: UI, p2: Platform|
            !(n2 == name && rw2 == rw && rh2 == rh && ui2 == ui && p2 == platform) implies
            #[trigger] spec_lookup(new_entries, n2, rw2, rh2, ui2, p2) == spec_lookup(
            old_entries,
            n2,
            rw2,
            rh2,
            ui2,
            p2,
        ) by {
            if !entry_key_is(new_entries[0], n2, rw2, rh2, ui2, p2) {
                assert(spec_lookup(new_rest, n2, rw2, rh2, ui2, p2) == spec_lookup(
                    old_rest,
                    n2,
                    rw2,
                    rh2,
                    ui2,
                    p2,
                ));
            }
        }
    }
}

proof fn lemma_lookup_append(
    old_entries: Seq<WindowInfoEntry>,
    new_entries: Seq<WindowInfoEntry>,
    name: Seq<char>,
    rw: int,
    rh: int,
    ui: UI,
    platform: Platform,
)
    requires
        new_entries == old_entries.push(new_entries.last()),
        new_entries.len() == old_entries.len() + 1,
        entry_key_is(new_entries.last(), name, rw, rh, ui, platform),
        forall|k: int|
            0 <= k < old_entries.len() ==> !entry_key_is(
                #[trigger] old_entries[k],
                name,
                rw,
                rh,
                ui,
                platform,
            ),
    ensures
        spec_lookup(new_entries, name, rw, rh, ui, platform) == Some(new_entries.last().value),
        forall|n2: Seq<char>, rw2: int, rh2: int, ui2: UI, p2: Platform|
            !(n2 == name && rw2 == rw && rh2 == rh && ui2 == ui && p2 == platform)
                ==> #[trigger] spec_lookup(new_entries, n2, rw2, rh2, ui2, p2) == spec_lookup(
                old_entries,
                n2,
                rw2,
                rh2,
                ui2,
                p2,
            ),
    decreases old_entries.len(),
{
    if old_entries.len() == 0 {
        assert(new_entries[0] == new_entries.last());
        assert forall|n2: Seq<char>, rw2: int, rh2: int, ui2: UI, p2: Platform|
            !(n2 == name && rw2 == rw && rh2 == rh && ui2 == ui && p2 == platform) implies
            #[trigger] spec_lookup(new_entries, n2, rw2, rh2, ui2, p2) == spec_lookup(
            old_entries,
            n2,
            rw2,
            rh2,
            ui2,
            p2,
        ) by {
            let empt = Seq::<WindowInfoEntry>::empty();
            assert(new_entries.drop_first() =~= empt);
            assert(!entry_key_is(new_entries[0], n2, rw2, rh2, ui2, p2));
            assert(spec_lookup(empt, n2, rw2, rh2, ui2, p2) is None);
            assert(spec_lookup(old_entries, n2, rw2, rh2, ui2, p2) is None);
        }
    } else {
        let old_rest = old_entries.drop_first();
        let new_rest = new_entries.drop_first();
        assert(new_rest =~= old_rest.push(new_entries.last()));
        assert(forall|k: int| 0 <= k < old_rest.len() ==> #[trigger] old_rest[k] == old_entries[
            k + 1
        ]);
        lemma_lookup_append(old_rest, new_rest, name, rw, rh, ui, platform);
        assert(new_entries[0] == old_entries[0]);
        assert forall|n2: Seq<char>, rw2: int, rh2: int, ui2: UI, p2: Platform|
            !(n2 == name && rw2 == rw && rh2 == rh && ui2 == ui && p2 == platform) implies
            #[trigger] spec_lookup(new_entries, n2, rw2, rh2, ui2, p2) == spec_lookup(
            old_entries,
            n2,
            rw2,
            rh2,
            ui2,
            p2,
        ) by {
            if !entry_key_is(new_entries[0], n2, rw2, rh2, ui2, p2) {
                assert(spec_lookup(new_rest, n2, rw2, rh2, ui2, p2) == spec_lookup(
                    old_rest,
                    n2,
                    rw2,
                    rh2,
                    ui2,
                    p2,
                ));
            }
        }
    }
}

/// Whether the UI flavors are equal.
fn entry_ui_eq(a: UI, b: UI) -> (r: bool)
    ensures
        r == (a == b),
{
    a == b
}

/// Whether the platforms are equal.
fn entry_platform_eq(a: Platform, b: Platform) -> (r: bool)
    ensures
        r == (a == b),
{
    a == b
}

} // verus!

verus! {

/// Absolute value.
pub open spec fn abs_i(x: int) -> int {
    if x >= 0 {
        x
    } else {
        -x
    }
}

/// How far the reference aspect (rw : rh) is from the target aspect
/// (tw : th), as the cross difference |tw*rh - rw*th| (zero exactly when
/// the ratios are equal).
pub open spec fn cross_diff(tw: int, th: int, rw: int, rh: int) -> int {
    abs_i(tw * rh - rw * th)
}

/// The reference size the repository selects for a target size, scanning
/// the entries in order and keeping the earliest size with the least
/// cross difference; `cur` is the best seen so far.
pub open spec fn best_ref_from(
    entries: Seq<WindowInfoEntry>,
    i: int,
    cur: Option<(int, int)>,
    tw: int,
    th: int,
    ui: UI,
    platform: Platform,
) -> Option<(int, int)>
    decreases entries.len() - i,
{
    if i < 0 || i >= entries.len() {
        cur
    } else {
        let e = entries[i];
        let cur2 = if e.ui == ui && e.platform == platform && (cur is None || cross_diff(
            tw,
            th,
            e.ref_width as int,
            e.ref_height as int,
        ) < cross_diff(tw, th, cur.unwrap().0, cur.unwrap().1)) {
            Some((e.ref_width as int, e.ref_height as int))
        } else {
            cur
        };
        best_ref_from(entries, i + 1, cur2, tw, th, ui, platform)
    }
}

/// The selected reference size for a target size, or `None` when no entry
/// matches the UI flavor and platform.
pub open spec fn spec_best_ref(
    entries: Seq<WindowInfoEntry>,
    tw: int,
    th: int,
    ui: UI,
    platform: Platform,
) -> Option<(int, int)> {
    best_ref_from(entries, 0, None, tw, th, ui, platform)
}

/// The selected reference size belongs to a matching entry and no matching
/// entry has a strictly smaller cross difference: an exact-aspect
/// calibration, where one exists, is always selected.
pub proof fn lemma_best_ref_minimal(
    entries: Seq<WindowInfoEntry>,
    i: int,
    cur: Option<(int, int)>,
    tw: int,
    th: int,
    ui: UI,
    platform: Platform,
)
    requires
        0 <= i <= entries.len(),
        match cur {
            Some(c) => exists|k: int|
                0 <= k < i && (#[trigger] entries[k]).ui == ui && entries[k].platform == platform
                    && entries[k].ref_width == c.0 && entries[k].ref_height == c.1,
            None => true,
        },
    ensures
        match best_ref_from(entries, i, cur, tw, th, ui, platform) {
            Some(b) => {
                &&& exists|k: int|
                    0 <= k < entries.len() && (#[trigger] entries[k]).ui == ui
                        && entries[k].platform == platform && entries[k].ref_width == b.0
                        && entries[k].ref_height == b.1
                &&& forall|k: int|
                    i <= k < entries.len() && (#[trigger] entries[k]).ui == ui
                        && entries[k].platform == platform ==> cross_diff(tw, th, b.0, b.1)
                        <= cross_diff(
                        tw,
                        th,
                        entries[k].ref_width as int,
                        entries[k].ref_height as int,
                    )
                &&& (cur is Some ==> cross_diff(tw, th, b.0, b.1) <= cross_diff(
                    tw,
                    th,
                    cur.unwrap().0,
                    cur.unwrap().1,
                ))
            },
            None => {
                &&& cur is None
                &&& forall|k: int|
                    i <= k < entries.len() ==> !((#[trigger] entries[k]).ui == ui && entries[
                        k
                    ].platform == platform)
            },
        },
    decreases entries.len() - i,
{
    if i < entries.len() {
        let e = entries[i];
        let cur2 = if e.ui == ui && e.platform == platform && (cur is None || cross_diff(
            tw,
            th,
            e.ref_width as int,
            e.ref_height as int,
        ) < cross_diff(tw, th, cur.unwrap().0, cur.unwrap().1)) {
            Some((e.ref_width as int, e.ref_height as int))
        } else {
            cur
        };
        lemma_best_ref_minimal(entries, i + 1, cur2, tw, th, ui, platform);
    }
}

} // verus!

verus! {

/// A looked-up value is some entry's value, so the repository invariant
/// bounds it.
proof fn lemma_lookup_in_entries(
    entries: Seq<WindowInfoEntry>,
    name: Seq<char>,
    rw: int,
    rh: int,
    ui: UI,
    platform: Platform,
)
    ensures
        match spec_lookup(entries, name, rw, rh, ui, platform) {
            Some(v) => exists|k: int|
                0 <= k < entries.len() && (#[trigger] entries[k]).value == v,
            None => true,
        },
    decreases entries.len(),
{
    if entries.len() > 0 {
        if entry_key_is(entries[0], name, rw, rh, ui, platform) {
            assert(entries[0].value == spec_lookup(entries, name, rw, rh, ui, platform).unwrap());
        } else {
            let rest = entries.drop_first();
            lemma_lookup_in_entries(rest, name, rw, rh, ui, platform);
            if spec_lookup(entries, name, rw, rh, ui, platform) is Some {
                let k = choose|k: int|
                    0 <= k < rest.len() && (#[trigger] rest[k]).value == spec_lookup(
                        rest,
                        name,
                        rw,
                        rh,
                        ui,
                        platform,
                    ).unwrap();
                assert(entries[k + 1].value == rest[k].value);
            }
        }
    }
}

/// The value stored under one key, or `None`.
fn lookup_value(
    repo: &WindowInfoRepository,
    name: &str,
    rw: i64,
    rh: i64,
    ui: UI,
    platform: Platform,
) -> (r: Option<WindowInfoType>)
    ensures
        r == spec_lookup(repo.entries@, name@, rw as int, rh as int, ui, platform),
        r is Some ==> value_in_bounds(r.unwrap()) || !repo.wf(),
{
    let ghost entries = repo.entries@;
    proof {
        assert(entries.skip(0) =~= entries);
    }
    let nv = chars_of(name);
    let n = repo.entries.len();
    let mut i: usize = 0;
    while i < n
        invariant
            entries == repo.entries@,
            n == entries.len(),
            i <= n,
            nv@ == name@,
            spec_lookup(entries, name@, rw as int, rh as int, ui, platform) == spec_lookup(
                entries.skip(i as int),
                name@,
                rw as int,
                rh as int,
                ui,
                platform,
            ),
        decreases n - i,
    {
        proof {
            assert(entries.skip(i as int)[0] == entries[i as int]);
            assert(entries.skip(i as int).drop_first() =~= entries.skip(i as int + 1));
        }
        let e = &repo.entries[i];
        if e.ref_width == rw && e.ref_height == rh && entry_ui_eq(e.ui, ui) && entry_platform_eq(
            e.platform,
            platform,
        ) && chars_eq(&chars_of(e.name.as_str()), &nv) {
            proof {
                assert(entry_key_is(entries[i as int], name@, rw as int, rh as int, ui, platform));
                lemma_lookup_in_entries(entries, name@, rw as int, rh as int, ui, platform);
            }
            return Some(e.value);
        }
        proof {
            assert(!entry_key_is(entries[i as int], name@, rw as int, rh as int, ui, platform));
        }
        i = i + 1;
    }
    proof {
        assert(entries.skip(n as int) =~= Seq::<WindowInfoEntry>::empty());
    }
    None
}

/// A rectangle scaled by the width ratio `tw / rw`.
pub open spec fn spec_scaled_rect(r: Rect, tw: int, rw: int) -> Rect {
    Rect {
        left: scale_mp(r.left as int, tw, rw) as i64,
        top: scale_mp(r.top as int, tw, rw) as i64,
        width: scale_mp(r.width as int, tw, rw) as i64,
        height: scale_mp(r.height as int, tw, rw) as i64,
    }
}

/// A point scaled by the width ratio `tw / rw`.
pub open spec fn spec_scaled_pos(p: Pos, tw: int, rw: int) -> Pos {
    Pos { x: scale_mp(p.x as int, tw, rw) as i64, y: scale_mp(p.y as int, tw, rw) as i64 }
}

/// A size scaled by the width ratio `tw / rw`.
pub open spec fn spec_scaled_size(s: Size, tw: int, rw: int) -> Size {
    Size {
        width: scale_mp(s.width as int, tw, rw) as i64,
        height: scale_mp(s.height as int, tw, rw) as i64,
    }
}

/// The rectangle control under a name, already rescaled; `None` when the
/// key is missing or holds another variant.
pub open spec fn spec_rect_control(
    entries: Seq<WindowInfoEntry>,
    name: Seq<char>,
    tw: int,
    rw: int,
    rh: int,
    ui: UI,
    platform: Platform,
) -> Option<Rect> {
    match spec_lookup(entries, name, rw, rh, ui, platform) {
        Some(WindowInfoType::Rect(r)) => Some(spec_scaled_rect(r, tw, rw)),
        _ => None,
    }
}

/// The point control under a name, already rescaled.
pub open spec fn spec_pos_control(
    entries: Seq<WindowInfoEntry>,
    name: Seq<char>,
    tw: int,
    rw: int,
    rh: int,
    ui: UI,
    platform: Platform,
) -> Option<Pos> {
    match spec_lookup(entries, name, rw, rh, ui, platform) {
        Some(WindowInfoType::Pos(p)) => Some(spec_scaled_pos(p, tw, rw)),
        _ => None,
    }
}

/// The size control under a name, already rescaled.
pub open spec fn spec_size_control(
    entries: Seq<WindowInfoEntry>,
    name: Seq<char>,
    tw: int,
    rw: int,
    rh: int,
    ui: UI,
    platform: Platform,
) -> Option<Size> {
    match spec_lookup(entries, name, rw, rh, ui, platform) {
        Some(WindowInfoType::Size(s)) => Some(spec_scaled_size(s, tw, rw)),
        _ => None,
    }
}

/// The invariant-integer control under a name, bit-identical to its
/// configured value: never rescaled.
pub open spec fn spec_int_control(
    entries: Seq<WindowInfoEntry>,
    name: Seq<char>,
    rw: int,
    rh: int,
    ui: UI,
    platform: Platform,
) -> Option<i64> {
    match spec_lookup(entries, name, rw, rh, ui, platform) {
        Some(WindowInfoType::InvariantInt(n)) => Some(n),
        _ => None,
    }
}

fn rect_control(
    repo: &WindowInfoRepository,
    name: &str,
    tw: i64,
    rw: i64,
    rh: i64,
    ui: UI,
    platform: Platform,
) -> (r: Result<Rect, ScanError>)
    requires
        repo.wf(),
        scale_pair_in_bounds(tw as int, rw as int),
    ensures
        match r {
            Ok(x) => spec_rect_control(
                repo.entries@,
                name@,
                tw as int,
                rw as int,
                rh as int,
                ui,
                platform,
            ) == Some(x),
            Err(e) => {
                &&& spec_rect_control(
                    repo.entries@,
                    name@,
                    tw as int,
                    rw as int,
                    rh as int,
                    ui,
                    platform,
                ) is None
                &&& e == ScanError::Configuration
            },
        },
{
    match lookup_value(repo, name, rw, rh, ui, platform) {
        Some(WindowInfoType::Rect(raw)) => Ok(raw.scaled(tw, rw)),
        _ => Err(ScanError::Configuration),
    }
}

fn pos_control(
    repo: &WindowInfoRepository,
    name: &str,
    tw: i64,
    rw: i64,
    rh: i64,
    ui: UI,
    platform: Platform,
) -> (r: Result<Pos, ScanError>)
    requires
        repo.wf(),
        scale_pair_in_bounds(tw as int, rw as int),
    ensures
        match r {
            Ok(x) => spec_pos_control(
                repo.entries@,
                name@,
                tw as int,
                rw as int,
                rh as int,
                ui,
                platform,
            ) == Some(x),
            Err(e) => {
                &&& spec_pos_control(
                    repo.entries@,
                    name@,
                    tw as int,
                    rw as int,
                    rh as int,
                    ui,
                    platform,
                ) is None
                &&& e == ScanError::Configuration
            },
        },
{
    match lookup_value(repo, name, rw, rh, ui, platform) {
        Some(WindowInfoType::Pos(raw)) => Ok(raw.scaled(tw, rw)),
        _ => Err(ScanError::Configuration),
    }
}

fn size_control(
    repo: &WindowInfoRepository,
    name: &str,
    tw: i64,
    rw: i64,
    rh: i64,
    ui: UI,
    platform: Platform,
) -> (r: Result<Size, ScanError>)
    requires
        repo.wf(),
        scale_pair_in_bounds(tw as int, rw as int),
    ensures
        match r {
            Ok(x) => spec_size_control(
                repo.entries@,
                name@,
                tw as int,
                rw as int,
                rh as int,
                ui,
                platform,
            ) == Some(x),
            Err(e) => {
                &&& spec_size_control(
                    repo.entries@,
                    name@,
                    tw as int,
                    rw as int,
                    rh as int,
                    ui,
                    platform,
                ) is None
                &&& e == ScanError::Configuration
            },
        },
{
    match lookup_value(repo, name, rw, rh, ui, platform) {
        Some(WindowInfoType::Size(raw)) => Ok(raw.scaled(tw, rw)),
        _ => Err(ScanError::Configuration),
    }
}

fn int_control(
    repo: &WindowInfoRepository,
    name: &str,
    rw: i64,
    rh: i64,
    ui: UI,
    platform: Platform,
) -> (r: Result<i64, ScanError>)
    requires
        repo.wf(),
    ensures
        match r {
            Ok(x) => spec_int_control(
                repo.entries@,
                name@,
                rw as int,
                rh as int,
                ui,
                platform,
            ) == Some(x),
            Err(e) => {
                &&& spec_int_control(
                    repo.entries@,
                    name@,
                    rw as int,
                    rh as int,
                    ui,
                    platform,
                ) is None
                &&& e == ScanError::Configuration
            },
        },
{
    match lookup_value(repo, name, rw, rh, ui, platform) {
        Some(WindowInfoType::InvariantInt(n)) => Ok(n),
        _ => Err(ScanError::Configuration),
    }
}

} // verus!

verus! {

/// The flattened, already-rescaled geometry a scanning session works with,
/// computed once from the repository at the live window size.
#[derive(Clone, Copy, PartialEq, Eq, Structural, Debug)]
pub struct ArtifactScannerWindowInfo {
    /// Detail-panel rectangle, window-relative.
    pub panel_rect: Rect,
    /// Title line inside the panel.
    pub title_rect: Rect,
    /// Main-stat name line.
    pub main_stat_name_rect: Rect,
    /// Main-stat value line.
    pub main_stat_value_rect: Rect,
    /// Level line.
    pub level_rect: Rect,
    /// Equip-state line.
    pub item_equip_rect: Rect,
    /// Inventory item-count readout.
    pub item_count_rect: Rect,
    /// First sub-stat line.
    pub sub_stat_1: Rect,
    /// Second sub-stat line.
    pub sub_stat_2: Rect,
    /// Third sub-stat line.
    pub sub_stat_3: Rect,
    /// Fourth sub-stat line.
    pub sub_stat_4: Rect,
    /// Region probed for the optional marker block that shifts the layout.
    pub blessed_frost_detect_rect: Rect,
    /// Pixel sampled for the rarity color.
    pub star_pos: Pos,
    /// The panel's lock button.
    pub artifact_lock_pos: Pos,
    /// Top-left margin of the grid-list region.
    pub scan_margin_pos: Pos,
    /// Downward shift applied to level and sub-stat lines when the marker
    /// block is present (only its y component is used).
    pub blessed_frost_offset: Pos,
    /// Gap between neighboring grid cells.
    pub item_gap_size: Size,
    /// Extent of one grid cell.
    pub item_size: Size,
    /// Grid columns per page (resolution-independent).
    pub col: i64,
    /// Grid rows per page (resolution-independent).
    pub row: i64,
}

/// The resolved window info for a target size: the best-matching
/// calibration's controls, each rescaled by `target_width / ref_width`,
/// or `None` when no calibration matches or a control is missing.
pub open spec fn spec_resolve(
    entries: Seq<WindowInfoEntry>,
    tw: int,
    th: int,
    ui: UI,
    platform: Platform,
) -> Option<ArtifactScannerWindowInfo> {
    match spec_best_ref(entries, tw, th, ui, platform) {
        None => None,
        Some(b) => {
            let rw = b.0;
            let rh = b.1;
            let panel_rect = spec_rect_control(entries, "panel_rect"@, tw, rw, rh, ui, platform);
            let title_rect = spec_rect_control(entries, "title_rect"@, tw, rw, rh, ui, platform);
            let main_stat_name_rect = spec_rect_control(
                entries,
                "main_stat_name_rect"@,
                tw,
                rw,
                rh,
                ui,
                platform,
            );
            let main_stat_value_rect = spec_rect_control(
                entries,
                "main_stat_value_rect"@,
                tw,
                rw,
                rh,
                ui,
                platform,
            );
            let level_rect = spec_rect_control(entries, "level_rect"@, tw, rw, rh, ui, platform);
            let item_equip_rect = spec_rect_control(
                entries,
                "item_equip_rect"@,
                tw,
                rw,
                rh,
                ui,
                platform,
            );
            let item_count_rect = spec_rect_control(
                entries,
                "item_count_rect"@,
                tw,
                rw,
                rh,
                ui,
                platform,
            );
            let sub_stat_1 = spec_rect_control(entries, "sub_stat_1"@, tw, rw, rh, ui, platform);
            let sub_stat_2 = spec_rect_control(entries, "sub_stat_2"@, tw, rw, rh, ui, platform);
            let sub_stat_3 = spec_rect_control(entries, "sub_stat_3"@, tw, rw, rh, ui, platform);
            let sub_stat_4 = spec_rect_control(entries, "sub_stat_4"@, tw, rw, rh, ui, platform);
            let blessed_frost_detect_rect = spec_rect_control(
                entries,
                "blessed_frost_detect_rect"@,
                tw,
                rw,
                rh,
                ui,
                platform,
            );
            let star_pos = spec_pos_control(entries, "star_pos"@, tw, rw, rh, ui, platform);
            let artifact_lock_pos = spec_pos_control(
                entries,
                "artifact_lock_pos"@,
                tw,
                rw,
                rh,
                ui,
                platform,
            );
            let scan_margin_pos = spec_pos_control(
                entries,
                "scan_margin_pos"@,
                tw,
                rw,
                rh,
                ui,
                platform,
            );
            let blessed_frost_offset = spec_pos_control(
                entries,
                "blessed_frost_offset"@,
                tw,
                rw,
                rh,
                ui,
                platform,
            );
            let item_gap_size = spec_size_control(
                entries,
                "item_gap_size"@,
                tw,
                rw,
                rh,
                ui,
                platform,
            );
            let item_size = spec_size_control(entries, "item_size"@, tw, rw, rh, ui, platform);
            let col = spec_int_control(entries, "col"@, rw, rh, ui, platform);
            let row = spec_int_control(entries, "row"@, rw, rh, ui, platform);
            if panel_rect is Some && title_rect is Some && main_stat_name_rect is Some
                && main_stat_value_rect is Some && level_rect is Some && item_equip_rect is Some
                && item_count_rect is Some && sub_stat_1 is Some && sub_stat_2 is Some
                && sub_stat_3 is Some && sub_stat_4 is Some && blessed_frost_detect_rect is Some
                && star_pos is Some && artifact_lock_pos is Some && scan_margin_pos is Some
                && blessed_frost_offset is Some && item_gap_size is Some && item_size is Some
                && col is Some && row is Some {
                Some(
                    ArtifactScannerWindowInfo {
                        panel_rect: panel_rect.unwrap(),
                        title_rect: title_rect.unwrap(),
                        main_stat_name_rect: main_stat_name_rect.unwrap(),
                        main_stat_value_rect: main_stat_value_rect.unwrap(),
                        level_rect: level_rect.unwrap(),
                        item_equip_rect: item_equip_rect.unwrap(),
                        item_count_rect: item_count_rect.unwrap(),
                        sub_stat_1: sub_stat_1.unwrap(),
                        sub_stat_2: sub_stat_2.unwrap(),
                        sub_stat_3: sub_stat_3.unwrap(),
                        sub_stat_4: sub_stat_4.unwrap(),
                        blessed_frost_detect_rect: blessed_frost_detect_rect.unwrap(),
                        star_pos: star_pos.unwrap(),
                        artifact_lock_pos: artifact_lock_pos.unwrap(),
                        scan_margin_pos: scan_margin_pos.unwrap(),
                        blessed_frost_offset: blessed_frost_offset.unwrap(),
                        item_gap_size: item_gap_size.unwrap(),
                        item_size: item_size.unwrap(),
                        col: col.unwrap(),
                        row: row.unwrap(),
                    },
                )
            } else {
                None
            }
        },
    }
}

impl ArtifactScannerWindowInfo {
    /// Resolve the flattened window info for a live window size: select the
    /// nearest-aspect calibration for this UI flavor and platform, and
    /// rescale every geometry control by `target_width / ref_width`;
    /// invariant integers pass through unchanged.  Fails with the
    /// configuration error exactly when no calibration matches or a
    /// required control is absent.
    pub fn from_window_info_repository(
        target_width: i64,
        target_height: i64,
        ui: UI,
        platform: Platform,
        repo: &WindowInfoRepository,
    ) -> (r: Result<ArtifactScannerWindowInfo, ScanError>)
        requires
            repo.wf(),
            0 < target_width < SIZE_BOUND,
            0 < target_height < SIZE_BOUND,
        ensures
            match r {
                Ok(w) => spec_resolve(
                    repo.entries@,
                    target_width as int,
                    target_height as int,
                    ui,
                    platform,
                ) == Some(w),
                Err(e) => {
                    &&& spec_resolve(
                        repo.entries@,
                        target_width as int,
                        target_height as int,
                        ui,
                        platform,
                    ) is None
                    &&& e == ScanError::Configuration
                },
            },
    {
        let ghost entries = repo.entries@;
        let tw = target_width;
        let th = target_height;
        let n = repo.entries.len();
        let mut best_found = false;
        let mut brw: i64 = 1;
        let mut brh: i64 = 1;
        let mut bdiff: i64 = 0;
        let mut i: usize = 0;
        while i < n
            invariant
                repo.wf(),
                entries == repo.entries@,
                n == entries.len(),
                i <= n,
                0 < tw < SIZE_BOUND,
                0 < th < SIZE_BOUND,
                best_found ==> {
                    &&& 0 < brw < SIZE_BOUND
                    &&& 0 < brh < SIZE_BOUND
                    &&& bdiff == cross_diff(tw as int, th as int, brw as int, brh as int)
                },
                spec_best_ref(entries, tw as int, th as int, ui, platform) == best_ref_from(
                    entries,
                    i as int,
                    if best_found {
                        Some((brw as int, brh as int))
                    } else {
                        None
                    },
                    tw as int,
                    th as int,
                    ui,
                    platform,
                ),
            decreases n - i,
        {
            let e = &repo.entries[i];
            if entry_ui_eq(e.ui, ui) && entry_platform_eq(e.platform, platform) {
                proof {
                    assert(tw * e.ref_height < SIZE_BOUND * SIZE_BOUND && e.ref_width * th
                        < SIZE_BOUND * SIZE_BOUND && tw * e.ref_height >= 0 && e.ref_width * th
                        >= 0) by (nonlinear_arith)
                        requires
                            0 < tw < SIZE_BOUND,
                            0 < th < SIZE_BOUND,
                            0 < e.ref_width < SIZE_BOUND,
                            0 < e.ref_height < SIZE_BOUND,
                    ;
                }
                let cross = tw * e.ref_height - e.ref_width * th;
                let diff = if cross >= 0 {
                    cross
                } else {
                    -cross
                };
                if !best_found || diff < bdiff {
                    brw = e.ref_width;
                    brh = e.ref_height;
                    bdiff = diff;
                    best_found = true;
                }
            }
            i = i + 1;
        }
        if !best_found {
            return Err(ScanError::Configuration);
        }
        let panel_rect = rect_control(repo, "panel_rect", tw, brw, brh, ui, platform)?;
        let title_rect = rect_control(repo, "title_rect", tw, brw, brh, ui, platform)?;
        let main_stat_name_rect = rect_control(
            repo,
            "main_stat_name_rect",
            tw,
            brw,
            brh,
            ui,
            platform,
        )?;
        let main_stat_value_rect = rect_control(
            repo,
            "main_stat_value_rect",
            tw,
            brw,
            brh,
            ui,
            platform,
        )?;
        let level_rect = rect_control(repo, "level_rect", tw, brw, brh, ui, platform)?;
        let item_equip_rect = rect_control(repo, "item_equip_rect", tw, brw, brh, ui, platform)?;
        let item_count_rect = rect_control(repo, "item_count_rect", tw, brw, brh, ui, platform)?;
        let sub_stat_1 = rect_control(repo, "sub_stat_1", tw, brw, brh, ui, platform)?;
        let sub_stat_2 = rect_control(repo, "sub_stat_2", tw, brw, brh, ui, platform)?;
        let sub_stat_3 = rect_control(repo, "sub_stat_3", tw, brw, brh, ui, platform)?;
        let sub_stat_4 = rect_control(repo, "sub_stat_4", tw, brw, brh, ui, platform)?;
        let blessed_frost_detect_rect = rect_control(
            repo,
            "blessed_frost_detect_rect",
            tw,
            brw,
            brh,
            ui,
            platform,
        )?;
        let star_pos = pos_control(repo, "star_pos", tw, brw, brh, ui, platform)?;
        let artifact_lock_pos = pos_control(repo, "artifact_lock_pos", tw, brw, brh, ui, platform)?;
        let scan_margin_pos = pos_control(repo, "scan_margin_pos", tw, brw, brh, ui, platform)?;
        let blessed_frost_offset = pos_control(
            repo,
            "blessed_frost_offset",
            tw,
            brw,
            brh,
            ui,
            platform,
        )?;
        let item_gap_size = size_control(repo, "item_gap_size", tw, brw, brh, ui, platform)?;
        let item_size = size_control(repo, "item_size", tw, brw, brh, ui, platform)?;
        let col = int_control(repo, "col", brw, brh, ui, platform)?;
        let row = int_control(repo, "row", brw, brh, ui, platform)?;
        Ok(
            ArtifactScannerWindowInfo {
                panel_rect,
                title_rect,
                main_stat_name_rect,
                main_stat_value_rect,
                level_rect,
                item_equip_rect,
                item_count_rect,
                sub_stat_1,
                sub_stat_2,
                sub_stat_3,
                sub_stat_4,
                blessed_frost_detect_rect,
                star_pos,
                artifact_lock_pos,
                scan_margin_pos,
                blessed_frost_offset,
                item_gap_size,
                item_size,
                col,
                row,
            },
        )
    }
}

} // verus!

verus! {

/// All rectangle components within the scaled-coordinate bound.
pub open spec fn rect_bounded(r: Rect) -> bool {
    &&& -SCALED_BOUND < r.left < SCALED_BOUND
    &&& -SCALED_BOUND < r.top < SCALED_BOUND
    &&& -SCALED_BOUND < r.width < SCALED_BOUND
    &&& -SCALED_BOUND < r.height < SCALED_BOUND
}

/// Both point components within the scaled-coordinate bound.
pub open spec fn pos_bounded(p: Pos) -> bool {
    -SCALED_BOUND < p.x < SCALED_BOUND && -SCALED_BOUND < p.y < SCALED_BOUND
}

/// Both size components within the scaled-coordinate bound.
pub open spec fn size_bounded(s: Size) -> bool {
    -SCALED_BOUND < s.width < SCALED_BOUND && -SCALED_BOUND < s.height < SCALED_BOUND
}

/// Sanity of a resolved window info: every geometry value within the
/// scaled bound and a usable grid shape.
pub open spec fn wi_bounds(w: ArtifactScannerWindowInfo) -> bool {
    &&& rect_bounded(w.panel_rect)
    &&& rect_bounded(w.title_rect)
    &&& rect_bounded(w.main_stat_name_rect)
    &&& rect_bounded(w.main_stat_value_rect)
    &&& rect_bounded(w.level_rect)
    &&& rect_bounded(w.item_equip_rect)
    &&& rect_bounded(w.item_count_rect)
    &&& rect_bounded(w.sub_stat_1)
    &&& rect_bounded(w.sub_stat_2)
    &&& rect_bounded(w.sub_stat_3)
    &&& rect_bounded(w.sub_stat_4)
    &&& rect_bounded(w.blessed_frost_detect_rect)
    &&& pos_bounded(w.star_pos)
    &&& pos_bounded(w.artifact_lock_pos)
    &&& pos_bounded(w.scan_margin_pos)
    &&& pos_bounded(w.blessed_frost_offset)
    &&& size_bounded(w.item_gap_size)
    &&& size_bounded(w.item_size)
    &&& 0 < w.col <= crate::controller::GRID_BOUND
    &&& 0 < w.row <= crate::controller::GRID_BOUND
}

fn check_rect(r: &Rect) -> (b: bool)
    ensures
        b == rect_bounded(*r),
{
    -SCALED_BOUND < r.left && r.left < SCALED_BOUND && -SCALED_BOUND < r.top && r.top
        < SCALED_BOUND && -SCALED_BOUND < r.width && r.width < SCALED_BOUND && -SCALED_BOUND
        < r.height && r.height < SCALED_BOUND
}

fn check_pos(p: &Pos) -> (b: bool)
    ensures
        b == pos_bounded(*p),
{
    -SCALED_BOUND < p.x && p.x < SCALED_BOUND && -SCALED_BOUND < p.y && p.y < SCALED_BOUND
}

fn check_size(s: &Size) -> (b: bool)
    ensures
        b == size_bounded(*s),
{
    -SCALED_BOUND < s.width && s.width < SCALED_BOUND && -SCALED_BOUND < s.height && s.height
        < SCALED_BOUND
}

/// Whether a resolved window info is sane enough to scan with.
pub fn check_wi_bounds(w: &ArtifactScannerWindowInfo) -> (b: bool)
    ensures
        b == wi_bounds(*w),
{
    check_rect(&w.panel_rect) && check_rect(&w.title_rect) && check_rect(&w.main_stat_name_rect)
        && check_rect(&w.main_stat_value_rect) && check_rect(&w.level_rect) && check_rect(
        &w.item_equip_rect,
    ) && check_rect(&w.item_count_rect) && check_rect(&w.sub_stat_1) && check_rect(&w.sub_stat_2)
        && check_rect(&w.sub_stat_3) && check_rect(&w.sub_stat_4) && check_rect(
        &w.blessed_frost_detect_rect,
    ) && check_pos(&w.star_pos) && check_pos(&w.artifact_lock_pos) && check_pos(
        &w.scan_margin_pos,
    ) && check_pos(&w.blessed_frost_offset) && check_size(&w.item_gap_size) && check_size(
        &w.item_size,
    ) && 0 < w.col && w.col <= crate::controller::GRID_BOUND && 0 < w.row && w.row
        <= crate::controller::GRID_BOUND
}

} // verus!

verus! {

/// Resolution independence: whatever `resolve` produces, every rectangle,
/// point and size field is its calibrated value scaled by exactly
/// `target_width / ref_width` of the selected calibration, and the
/// invariant integer fields are bit-identical to their calibrated values.
pub proof fn lemma_resolve_scales_exactly(
    entries: Seq<WindowInfoEntry>,
    tw: int,
    th: int,
    ui: UI,
    platform: Platform,
    w: ArtifactScannerWindowInfo,
)
    requires
        spec_resolve(entries, tw, th, ui, platform) == Some(w),
    ensures
        spec_best_ref(entries, tw, th, ui, platform) is Some,
        ({
            let b = spec_best_ref(entries, tw, th, ui, platform).unwrap();
            let rw = b.0;
            let rh = b.1;
            &&& spec_rect_control(entries, "panel_rect"@, tw, rw, rh, ui, platform) == Some(
                w.panel_rect,
            )
            &&& spec_rect_control(entries, "title_rect"@, tw, rw, rh, ui, platform) == Some(
                w.title_rect,
            )
            &&& spec_rect_control(entries, "main_stat_name_rect"@, tw, rw, rh, ui, platform)
                == Some(w.main_stat_name_rect)
            &&& spec_rect_control(entries, "main_stat_value_rect"@, tw, rw, rh, ui, platform)
                == Some(w.main_stat_value_rect)
            &&& spec_rect_control(entries, "level_rect"@, tw, rw, rh, ui, platform) == Some(
                w.level_rect,
            )
            &&& spec_rect_control(entries, "item_equip_rect"@, tw, rw, rh, ui, platform) == Some(
                w.item_equip_rect,
            )
            &&& spec_rect_control(entries, "item_count_rect"@, tw, rw, rh, ui, platform) == Some(
                w.item_count_rect,
            )
            &&& spec_rect_control(entries, "sub_stat_1"@, tw, rw, rh, ui, platform) == Some(
                w.sub_stat_1,
            )
            &&& spec_rect_control(entries, "sub_stat_2"@, tw, rw, rh, ui, platform) == Some(
                w.sub_stat_2,
            )
            &&& spec_rect_control(entries, "sub_stat_3"@, tw, rw, rh, ui, platform) == Some(
                w.sub_stat_3,
            )
            &&& spec_rect_control(entries, "sub_stat_4"@, tw, rw, rh, ui, platform) == Some(
                w.sub_stat_4,
            )
            &&& spec_rect_control(
                entries,
                "blessed_frost_detect_rect"@,
                tw,
                rw,
                rh,
                ui,
                platform,
            ) == Some(w.blessed_frost_detect_rect)
            &&& spec_pos_control(entries, "star_pos"@, tw, rw, rh, ui, platform) == Some(
                w.star_pos,
            )
            &&& spec_pos_control(entries, "artifact_lock_pos"@, tw, rw, rh, ui, platform)
                == Some(w.artifact_lock_pos)
            &&& spec_pos_control(entries, "scan_margin_pos"@, tw, rw, rh, ui, platform) == Some(
                w.scan_margin_pos,
            )
            &&& spec_pos_control(entries, "blessed_frost_offset"@, tw, rw, rh, ui, platform)
                == Some(w.blessed_frost_offset)
            &&& spec_size_control(entries, "item_gap_size"@, tw, rw, rh, ui, platform) == Some(
                w.item_gap_size,
            )
            &&& spec_size_control(entries, "item_size"@, tw, rw, rh, ui, platform) == Some(
                w.item_size,
            )
            &&& spec_int_control(entries, "col"@, rw, rh, ui, platform) == Some(w.col)
            &&& spec_int_control(entries, "row"@, rw, rh, ui, platform) == Some(w.row)
        }),
{
}

} // verus!
