use vstd::prelude::*;
use crate::types::{DiskInfo, GIB_BYTES, saturating_diff, usage_tenths_of};

verus! {

/// What the platform reports of one mounted volume.
pub struct VolumeReading {
    pub name: String,
    pub mount_point: String,
    pub total_space: u64,
    pub available_space: u64,
    pub file_system: String,
}

/// The record built from a reading, with its derived fields.
pub open spec fn record_of(v: VolumeReading) -> DiskInfo {
    let used = saturating_diff(v.total_space as nat, v.available_space as nat);
    DiskInfo {
        name: v.name,
        mount_point: v.mount_point,
        total_space: v.total_space,
        available_space: v.available_space,
        used_space: used as u64,
        usage_tenths: usage_tenths_of(used, v.total_space as nat) as u64,
        filesystem_type: v.file_system,
    }
}

/// The capacity of `d` is at least `min_gb` binary gigabytes.
pub open spec fn large_enough(d: DiskInfo, min_gb: nat) -> bool {
    d.total_space as int >= min_gb * GIB_BYTES as int
}

/// The records of `s` that reach `min_gb`, in their order.
pub open spec fn kept(s: Seq<DiskInfo>, min_gb: nat) -> Seq<DiskInfo> {
    s.filter(|d: DiskInfo| large_enough(d, min_gb))
}

/// Keeps the records of at least `min_gb` binary gigabytes, in order; all of
/// them when `include_all`.
pub fn filter_disks(disks: Vec<DiskInfo>, min_gb: u64, include_all: bool) -> (r: Vec<DiskInfo>)
    ensures
        r@ == (if include_all {
            disks@
        } else {
            kept(disks@, min_gb as nat)
        }),
{
    if include_all {
        return disks;
    }
    let mut out: Vec<DiskInfo> = Vec::new();
    let mut rest = disks;
    let ghost all = rest@;
    let n = rest.len();
    let mut i: usize = 0;
    assert(all.skip(0) =~= all);
    while i < n
        invariant
            n == all.len(),
            i <= n,
            rest@ == all.skip(i as int),
            out@ == kept(all.take(i as int), min_gb as nat),
        decreases n - i,
    {
        let d = rest.remove(0);
        assert(d == all[i as int]);
        assert(all.skip(i as int).remove(0) =~= all.skip(i + 1));
        assert(all.take(i + 1).drop_last() =~= all.take(i as int));
        assert(all.take(i + 1).last() == d);
        reveal(Seq::filter);
        assert(kept(all.take(i + 1), min_gb as nat) == if large_enough(d, min_gb as nat) {
            kept(all.take(i as int), min_gb as nat).push(d)
        } else {
            kept(all.take(i as int), min_gb as nat)
        });
        if d.meets_size_threshold(min_gb) {
            out.push(d);
        }
        i = i + 1;
    }
    assert(all.take(i as int) =~= all);
    out
}

/// A snapshot of the mounted volumes, as the platform reported them.
pub struct DiskCollector {
    pub volumes: Vec<VolumeReading>,
}

impl DiskCollector {
    pub fn new(volumes: Vec<VolumeReading>) -> (r: Self)
        ensures
            r.volumes@ == volumes@,
    {
        DiskCollector { volumes }
    }

    /// One record per reported volume, in the reported order.
    pub fn collect_disks(&self) -> (r: Vec<DiskInfo>)
        ensures
            r@ == self.volumes@.map_values(|v: VolumeReading| record_of(v)),
    {
        let mut out: Vec<DiskInfo> = Vec::new();
        let mut i: usize = 0;
        while i < self.volumes.len()
            invariant
                i <= self.volumes@.len(),
                out@ == self.volumes@.take(i as int).map_values(|v: VolumeReading| record_of(v)),
            decreases self.volumes@.len() - i,
        {
            let v = &self.volumes[i];
            let d = DiskInfo::new(
                v.name.clone(),
                v.mount_point.clone(),
                v.total_space,
                v.available_space,
                v.file_system.clone(),
            );
            assert(d == record_of(*v));
            out.push(d);
            i = i + 1;
            assert(out@ =~= self.volumes@.take(i as int).map_values(|v: VolumeReading| record_of(v)));
        }
        assert(self.volumes@.take(i as int) =~= self.volumes@);
        out
    }

    /// The records, less those under `min_gb` binary gigabytes unless `include_all`.
    pub fn get_filtered_disks(&self, min_gb: u64, include_all: bool) -> (r: Vec<DiskInfo>)
        ensures
            r@ == (if include_all {
                self.volumes@.map_values(|v: VolumeReading| record_of(v))
            } else {
                kept(self.volumes@.map_values(|v: VolumeReading| record_of(v)), min_gb as nat)
            }),
    {
        let disks = self.collect_disks();
        filter_disks(disks, min_gb, include_all)
    }
}


/// Filtering keeps exactly the records that reach the threshold: each kept
/// record reaches it and comes from the input, and each input record that
/// reaches it is kept.
pub proof fn lemma_kept_exact(s: Seq<DiskInfo>, min_gb: nat)
    ensures
        forall|i: int|
            0 <= i < kept(s, min_gb).len() ==> large_enough(#[trigger] kept(s, min_gb)[i], min_gb)
                && s.contains(kept(s, min_gb)[i]),
        forall|i: int|
            0 <= i < s.len() && large_enough(#[trigger] s[i], min_gb) ==> kept(s, min_gb).contains(
                s[i],
            ),
        kept(s, min_gb).len() <= s.len(),
{
    let pred = |d: DiskInfo| large_enough(d, min_gb);
    assert forall|i: int| 0 <= i < kept(s, min_gb).len() implies large_enough(
        #[trigger] kept(s, min_gb)[i],
        min_gb,
    ) && s.contains(kept(s, min_gb)[i]) by {
        s.lemma_filter_pred(pred, i);
        s.lemma_filter_contains_rev(pred, kept(s, min_gb)[i]);
    }
    assert forall|i: int| 0 <= i < s.len() && large_enough(#[trigger] s[i], min_gb) implies kept(
        s,
        min_gb,
    ).contains(s[i]) by {
        s.lemma_filter_contains(pred, i);
    }
    s.lemma_filter_len(pred);
}

} // verus!
