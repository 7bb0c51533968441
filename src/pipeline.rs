use vstd::prelude::*;
use crate::types::{DiskInfo, SortBy, UsageThresholds};
use crate::disk::{DiskCollector, VolumeReading, kept, record_of};
use crate::filter::{sort_disks, sorted_by};
use crate::display::{LineStyle, ReportLine, display_disks, lines_view, report};

verus! {

/// The result of one reporting pass.
pub enum Outcome {
    /// The size filter left nothing and showing everything was not asked for.
    NothingToShow,
    /// The report, line by line.
    Report(Vec<ReportLine>),
}

/// The records that a pass shows, before ordering.
pub open spec fn shown(
    volumes: Seq<VolumeReading>,
    min_gb: nat,
    include_all: bool,
) -> Seq<DiskInfo> {
    let all = volumes.map_values(|v: VolumeReading| record_of(v));
    if include_all {
        all
    } else {
        kept(all, min_gb)
    }
}

/// `lines` is the report on some ordering of `records` under `sort_by`.
pub open spec fn reports_on(
    lines: Seq<(Seq<char>, LineStyle)>,
    records: Seq<DiskInfo>,
    sort_by: SortBy,
    th: UsageThresholds,
    enable_color: bool,
    enable_bars: bool,
) -> bool {
    exists|s: Seq<DiskInfo>|
        #![trigger report(s, th, enable_color, enable_bars)]
        s.to_multiset() == records.to_multiset() && sorted_by(s, sort_by) && lines == report(
            s,
            th,
            enable_color,
            enable_bars,
        )
}

/// One pass: build the records, drop the small ones unless `include_all`,
/// stop when none is left (and not everything was asked for), else order
/// them and render the report.
pub fn build_report(
    collector: &DiskCollector,
    sort_by: SortBy,
    min_gb: u64,
    include_all: bool,
    thresholds: &UsageThresholds,
    enable_color: bool,
    enable_bars: bool,
) -> (r: Outcome)
    ensures
        (r is NothingToShow) == (!include_all && shown(
            collector.volumes@,
            min_gb as nat,
            include_all,
        ).len() == 0),
        match r {
            Outcome::NothingToShow => !include_all && shown(
                collector.volumes@,
                min_gb as nat,
                include_all,
            ).len() == 0,
            Outcome::Report(lines) => reports_on(
                lines_view(lines@),
                shown(collector.volumes@, min_gb as nat, include_all),
                sort_by,
                *thresholds,
                enable_color,
                enable_bars,
            ),
        },
{
    let mut disks = collector.get_filtered_disks(min_gb, include_all);
    if disks.len() == 0 && !include_all {
        return Outcome::NothingToShow;
    }
    sort_disks(&mut disks, sort_by);
    let lines = display_disks(&disks, thresholds, enable_color, enable_bars);
    assert(lines_view(lines@) == report(disks@, *thresholds, enable_color, enable_bars));
    Outcome::Report(lines)
}

} // verus!
