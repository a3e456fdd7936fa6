//! Summary of the snapshot series of a run, and the mean of several
//! summaries.

use crate::metrics::MetricsSnapshot;
use crate::text::{lowercase_of, lowercased, same_text};
use vstd::prelude::*;

verus! {

/// What an export writes.
#[derive(Debug, Clone, Copy, PartialEq, Eq, Structural)]
pub enum ExportFormat {
    Table,
    Detailed,
    Figure,
    All,
}

/// The format that a lower-case name selects.
pub open spec fn format_named(lowered: Seq<char>) -> Option<ExportFormat> {
    if lowered == "table"@ {
        Some(ExportFormat::Table)
    } else if lowered == "detailed"@ {
        Some(ExportFormat::Detailed)
    } else if lowered == "figure"@ {
        Some(ExportFormat::Figure)
    } else if lowered == "all"@ {
        Some(ExportFormat::All)
    } else {
        None
    }
}

/// The format that a name in lower case selects; `None` for a name that
/// selects none.
pub fn format_for(lowered: &str) -> (format: Option<ExportFormat>)
    ensures
        format == format_named(lowered@),
{
    if same_text(lowered, "table") {
        Some(ExportFormat::Table)
    } else if same_text(lowered, "detailed") {
        Some(ExportFormat::Detailed)
    } else if same_text(lowered, "figure") {
        Some(ExportFormat::Figure)
    } else if same_text(lowered, "all") {
        Some(ExportFormat::All)
    } else {
        None
    }
}

/// The format that a name selects, whatever its case; `None` for a name
/// that selects none.
pub fn parse_export_format(name: &str) -> (format: Option<ExportFormat>)
    ensures
        format == format_named(lowercase_of(name@)),
{
    let lowered = lowercased(name);
    format_for(lowered.as_str())
}

/// Summary of a run.
#[derive(Debug, Clone)]
pub struct AnalysisReport {
    pub strategy_name: String,
    /// Received bits per second over the run.
    pub avg_throughput_bps: u128,
    /// Mean latency over the run, in microseconds.
    pub avg_latency_us: u128,
    /// Dropped packets per million sent over the run.
    pub packet_loss_ppm: u128,
    /// Longest queue seen by a snapshot.
    pub peak_queue_length: u128,
    /// Mean of the queue lengths seen by the snapshots, in thousandths of
    /// a packet.
    pub avg_queue_length_milli: u128,
    /// Mean change of the latency from one snapshot to the next, in
    /// microseconds.
    pub jitter_us: u128,
}

/// The sum of a sequence, capped at the largest number.
pub open spec fn capped_sum(values: Seq<u128>) -> u128
    decreases values.len(),
{
    if values.len() == 0 {
        0
    } else {
        let sum = capped_sum(values.drop_last()) + values.last();
        if sum > u128::MAX {
            u128::MAX
        } else {
            sum as u128
        }
    }
}

/// The mean of a sequence, rounded down, its sum capped at the largest
/// number; zero for an empty sequence.
pub open spec fn capped_mean(values: Seq<u128>) -> u128 {
    if values.len() == 0 {
        0
    } else {
        capped_sum(values) / (values.len() as u128)
    }
}

/// The largest value of a sequence; zero for an empty sequence.
pub open spec fn largest(values: Seq<u128>) -> u128
    decreases values.len(),
{
    if values.len() == 0 {
        0
    } else if values.last() > largest(values.drop_last()) {
        values.last()
    } else {
        largest(values.drop_last())
    }
}

/// The distance of two numbers.
pub open spec fn distance(a: u64, b: u64) -> u128 {
    if a >= b {
        (a - b) as u128
    } else {
        (b - a) as u128
    }
}

/// The queue lengths of a series, in thousandths of a packet.
pub open spec fn queue_lengths_milli(snapshots: Seq<MetricsSnapshot>) -> Seq<u128> {
    Seq::new(snapshots.len(), |i: int| (snapshots[i].queue_length * 1000) as u128)
}

/// The queue lengths of a series.
pub open spec fn queue_lengths(snapshots: Seq<MetricsSnapshot>) -> Seq<u128> {
    Seq::new(snapshots.len(), |i: int| snapshots[i].queue_length as u128)
}

/// The changes of the latency from each snapshot of a series to the next.
pub open spec fn latency_changes(snapshots: Seq<MetricsSnapshot>) -> Seq<u128> {
    if snapshots.len() == 0 {
        Seq::empty()
    } else {
        Seq::new(
            (snapshots.len() - 1) as nat,
            |i: int| distance(snapshots[i + 1].avg_latency_us, snapshots[i].avg_latency_us),
        )
    }
}

/// The mean of some numbers, rounded down, their sum capped at the
/// largest number.
pub fn mean(values: &Vec<u128>) -> (m: u128)
    ensures
        m == capped_mean(values@),
{
    let n = values.len();
    if n == 0 {
        return 0;
    }
    let mut sum: u128 = 0;
    let mut i: usize = 0;
    proof {
        assert(values@.take(0) =~= Seq::<u128>::empty());
    }
    while i < n
        invariant
            i <= n,
            n == values@.len(),
            sum == capped_sum(values@.take(i as int)),
        decreases n - i,
    {
        proof {
            assert(values@.take(i as int + 1).drop_last() =~= values@.take(i as int));
        }
        sum = if values[i] > u128::MAX - sum { u128::MAX } else { sum + values[i] };
        i = i + 1;
    }
    assert(values@.take(n as int) =~= values@);
    sum / (n as u128)
}

/// The largest of some numbers; zero where there is none.
pub fn maximum(values: &Vec<u128>) -> (m: u128)
    ensures
        m == largest(values@),
{
    let mut best: u128 = 0;
    let mut i: usize = 0;
    proof {
        assert(values@.take(0) =~= Seq::<u128>::empty());
    }
    while i < values.len()
        invariant
            i <= values@.len(),
            best == largest(values@.take(i as int)),
        decreases values@.len() - i,
    {
        proof {
            assert(values@.take(i as int + 1).drop_last() =~= values@.take(i as int));
        }
        if values[i] > best {
            best = values[i];
        }
        i = i + 1;
    }
    assert(values@.take(values@.len() as int) =~= values@);
    best
}

/// Whether `i` is the place of the largest of some numbers, the last of
/// them where several are the largest.
pub open spec fn is_last_largest(values: Seq<u128>, i: int) -> bool {
    &&& 0 <= i < values.len()
    &&& forall|j: int| 0 <= j < i ==> values[j] <= values[i]
    &&& forall|j: int| i < j < values.len() ==> values[j] < values[i]
}

/// Whether `i` is the place of the smallest of some numbers, the first of
/// them where several are the smallest.
pub open spec fn is_first_smallest(values: Seq<u128>, i: int) -> bool {
    &&& 0 <= i < values.len()
    &&& forall|j: int| 0 <= j < i ==> values[j] > values[i]
    &&& forall|j: int| i < j < values.len() ==> values[j] >= values[i]
}

/// The place of the largest of some numbers, the last of them where
/// several are the largest; none where there is no number.
pub fn place_of_largest(values: &Vec<u128>) -> (place: Option<usize>)
    ensures
        values@.len() == 0 <==> place is None,
        place matches Some(i) ==> is_last_largest(values@, i as int),
{
    if values.len() == 0 {
        return None;
    }
    let mut best: usize = 0;
    let mut i: usize = 1;
    while i < values.len()
        invariant
            1 <= i <= values@.len(),
            best < i,
            is_last_largest(values@.take(i as int), best as int),
        decreases values@.len() - i,
    {
        if values[i] >= values[best] {
            best = i;
        }
        i = i + 1;
    }
    assert(values@.take(values@.len() as int) =~= values@);
    Some(best)
}

/// The place of the smallest of some numbers, the first of them where
/// several are the smallest; none where there is no number.
pub fn place_of_smallest(values: &Vec<u128>) -> (place: Option<usize>)
    ensures
        values@.len() == 0 <==> place is None,
        place matches Some(i) ==> is_first_smallest(values@, i as int),
{
    if values.len() == 0 {
        return None;
    }
    let mut best: usize = 0;
    let mut i: usize = 1;
    while i < values.len()
        invariant
            1 <= i <= values@.len(),
            best < i,
            is_first_smallest(values@.take(i as int), best as int),
        decreases values@.len() - i,
    {
        if values[i] < values[best] {
            best = i;
        }
        i = i + 1;
    }
    assert(values@.take(values@.len() as int) =~= values@);
    Some(best)
}

/// The summaries that a comparison points out: the places of the one with
/// the most throughput, of the one with the least latency, and of the one
/// with the least loss.
pub struct Best {
    pub throughput: usize,
    pub latency: usize,
    pub loss: usize,
}

/// The summaries that a comparison points out; none where there is no
/// summary.
pub fn best_of(reports: &Vec<AnalysisReport>) -> (best: Option<Best>)
    ensures
        reports@.len() == 0 <==> best is None,
        best matches Some(b) ==> {
            &&& is_last_largest(
                column(reports@, |r: ReportView| r.avg_throughput_bps),
                b.throughput as int,
            )
            &&& is_first_smallest(
                column(reports@, |r: ReportView| r.avg_latency_us),
                b.latency as int,
            )
            &&& is_first_smallest(
                column(reports@, |r: ReportView| r.packet_loss_ppm),
                b.loss as int,
            )
        },
{
    let n = reports.len();
    let mut throughput: Vec<u128> = Vec::new();
    let mut latency: Vec<u128> = Vec::new();
    let mut loss: Vec<u128> = Vec::new();
    let mut i: usize = 0;
    while i < n
        invariant
            i <= n,
            n == reports@.len(),
            throughput@ =~= column(reports@, |r: ReportView| r.avg_throughput_bps).take(i as int),
            latency@ =~= column(reports@, |r: ReportView| r.avg_latency_us).take(i as int),
            loss@ =~= column(reports@, |r: ReportView| r.packet_loss_ppm).take(i as int),
        decreases n - i,
    {
        let r = &reports[i];
        throughput.push(r.avg_throughput_bps);
        latency.push(r.avg_latency_us);
        loss.push(r.packet_loss_ppm);
        i = i + 1;
    }
    proof {
        assert(throughput@ =~= column(reports@, |r: ReportView| r.avg_throughput_bps));
        assert(latency@ =~= column(reports@, |r: ReportView| r.avg_latency_us));
        assert(loss@ =~= column(reports@, |r: ReportView| r.packet_loss_ppm));
    }
    match (place_of_largest(&throughput), place_of_smallest(&latency), place_of_smallest(&loss)) {
        (Some(t), Some(l), Some(d)) => Some(Best { throughput: t, latency: l, loss: d }),
        _ => None,
    }
}

/// What a summary holds beside its name.
pub struct ReportView {
    pub avg_throughput_bps: u128,
    pub avg_latency_us: u128,
    pub packet_loss_ppm: u128,
    pub peak_queue_length: u128,
    pub avg_queue_length_milli: u128,
    pub jitter_us: u128,
}

impl AnalysisReport {
    /// The numbers of the summary.
    pub open spec fn numbers(&self) -> ReportView {
        ReportView {
            avg_throughput_bps: self.avg_throughput_bps,
            avg_latency_us: self.avg_latency_us,
            packet_loss_ppm: self.packet_loss_ppm,
            peak_queue_length: self.peak_queue_length,
            avg_queue_length_milli: self.avg_queue_length_milli,
            jitter_us: self.jitter_us,
        }
    }
}

/// The summary of a series: throughput, latency and loss as the last
/// snapshot has them, since they are taken over the whole run; the
/// longest and the mean queue; and the mean change of the latency between
/// snapshots. All zero for an empty series.
pub open spec fn summary_of(snapshots: Seq<MetricsSnapshot>) -> ReportView {
    if snapshots.len() == 0 {
        ReportView {
            avg_throughput_bps: 0,
            avg_latency_us: 0,
            packet_loss_ppm: 0,
            peak_queue_length: 0,
            avg_queue_length_milli: 0,
            jitter_us: 0,
        }
    } else {
        ReportView {
            avg_throughput_bps: snapshots.last().throughput_bps,
            avg_latency_us: snapshots.last().avg_latency_us as u128,
            packet_loss_ppm: snapshots.last().packet_loss_ppm,
            peak_queue_length: largest(queue_lengths(snapshots)),
            avg_queue_length_milli: capped_mean(queue_lengths_milli(snapshots)),
            jitter_us: capped_mean(latency_changes(snapshots)),
        }
    }
}

/// Summarises the snapshot series of a run under a policy.
pub fn analyze(snapshots: &Vec<MetricsSnapshot>, strategy_name: &str) -> (report: AnalysisReport)
    ensures
        report.strategy_name@ == strategy_name@,
        report.numbers() == summary_of(snapshots@),
{
    let n = snapshots.len();
    if n == 0 {
        return AnalysisReport {
            strategy_name: strategy_name.to_owned(),
            avg_throughput_bps: 0,
            avg_latency_us: 0,
            packet_loss_ppm: 0,
            peak_queue_length: 0,
            avg_queue_length_milli: 0,
            jitter_us: 0,
        };
    }
    let mut lengths: Vec<u128> = Vec::new();
    let mut lengths_milli: Vec<u128> = Vec::new();
    let mut changes: Vec<u128> = Vec::new();
    let mut i: usize = 0;
    while i < n
        invariant
            i <= n,
            n == snapshots@.len(),
            n > 0,
            lengths@ =~= queue_lengths(snapshots@).take(i as int),
            lengths_milli@ =~= queue_lengths_milli(snapshots@).take(i as int),
            changes@ =~= latency_changes(snapshots@).take(
                if i == 0 {
                    0
                } else {
                    i as int - 1
                },
            ),
        decreases n - i,
    {
        let s = &snapshots[i];
        lengths.push(s.queue_length as u128);
        lengths_milli.push((s.queue_length as u128) * 1000);
        if i > 0 {
            let before = snapshots[i - 1].avg_latency_us;
            let here = s.avg_latency_us;
            changes.push(if here >= before { (here - before) as u128 } else { (before - here) as u128 });
        }
        i = i + 1;
    }
    proof {
        assert(lengths@ =~= queue_lengths(snapshots@));
        assert(lengths_milli@ =~= queue_lengths_milli(snapshots@));
        assert(changes@ =~= latency_changes(snapshots@));
    }
    let last = &snapshots[n - 1];
    AnalysisReport {
        strategy_name: strategy_name.to_owned(),
        avg_throughput_bps: last.throughput_bps,
        avg_latency_us: last.avg_latency_us as u128,
        packet_loss_ppm: last.packet_loss_ppm,
        peak_queue_length: maximum(&lengths),
        avg_queue_length_milli: mean(&lengths_milli),
        jitter_us: mean(&changes),
    }
}

/// One number of each of some summaries.
pub open spec fn column(reports: Seq<AnalysisReport>, pick: spec_fn(ReportView) -> u128) -> Seq<
    u128,
> {
    Seq::new(reports.len(), |i: int| pick(reports[i].numbers()))
}

/// The mean of some summaries: each number is the mean of that number,
/// but the peak queue is the largest of the peaks.
pub open spec fn averaged(reports: Seq<AnalysisReport>) -> ReportView {
    ReportView {
        avg_throughput_bps: capped_mean(column(reports, |r: ReportView| r.avg_throughput_bps)),
        avg_latency_us: capped_mean(column(reports, |r: ReportView| r.avg_latency_us)),
        packet_loss_ppm: capped_mean(column(reports, |r: ReportView| r.packet_loss_ppm)),
        peak_queue_length: largest(column(reports, |r: ReportView| r.peak_queue_length)),
        avg_queue_length_milli: capped_mean(
            column(reports, |r: ReportView| r.avg_queue_length_milli),
        ),
        jitter_us: capped_mean(column(reports, |r: ReportView| r.jitter_us)),
    }
}

/// The mean of the summaries of the repetitions of a run, under the name
/// of the first.
pub fn average_reports(reports: &Vec<AnalysisReport>) -> (report: AnalysisReport)
    requires
        reports@.len() > 0,
    ensures
        report.strategy_name@ == reports@[0].strategy_name@,
        report.numbers() == averaged(reports@),
{
    let n = reports.len();
    let mut throughput: Vec<u128> = Vec::new();
    let mut latency: Vec<u128> = Vec::new();
    let mut loss: Vec<u128> = Vec::new();
    let mut peak: Vec<u128> = Vec::new();
    let mut queue: Vec<u128> = Vec::new();
    let mut jitter: Vec<u128> = Vec::new();
    let mut i: usize = 0;
    while i < n
        invariant
            i <= n,
            n == reports@.len(),
            throughput@ =~= column(reports@, |r: ReportView| r.avg_throughput_bps).take(i as int),
            latency@ =~= column(reports@, |r: ReportView| r.avg_latency_us).take(i as int),
            loss@ =~= column(reports@, |r: ReportView| r.packet_loss_ppm).take(i as int),
            peak@ =~= column(reports@, |r: ReportView| r.peak_queue_length).take(i as int),
            queue@ =~= column(reports@, |r: ReportView| r.avg_queue_length_milli).take(i as int),
            jitter@ =~= column(reports@, |r: ReportView| r.jitter_us).take(i as int),
        decreases n - i,
    {
        let r = &reports[i];
        throughput.push(r.avg_throughput_bps);
        latency.push(r.avg_latency_us);
        loss.push(r.packet_loss_ppm);
        peak.push(r.peak_queue_length);
        queue.push(r.avg_queue_length_milli);
        jitter.push(r.jitter_us);
        i = i + 1;
    }
    proof {
        assert(throughput@ =~= column(reports@, |r: ReportView| r.avg_throughput_bps));
        assert(latency@ =~= column(reports@, |r: ReportView| r.avg_latency_us));
        assert(loss@ =~= column(reports@, |r: ReportView| r.packet_loss_ppm));
        assert(peak@ =~= column(reports@, |r: ReportView| r.peak_queue_length));
        assert(queue@ =~= column(reports@, |r: ReportView| r.avg_queue_length_milli));
        assert(jitter@ =~= column(reports@, |r: ReportView| r.jitter_us));
    }
    AnalysisReport {
        strategy_name: reports[0].strategy_name.clone(),
        avg_throughput_bps: mean(&throughput),
        avg_latency_us: mean(&latency),
        packet_loss_ppm: mean(&loss),
        peak_queue_length: maximum(&peak),
        avg_queue_length_milli: mean(&queue),
        jitter_us: mean(&jitter),
    }
}

} // verus!
