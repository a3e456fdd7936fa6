use flocknet::metrics::analyzer::{
    format_for, parse_export_format, ExportFormat, analyze, average_reports, best_of, maximum, mean, place_of_largest, place_of_smallest, AnalysisReport,
};
use flocknet::metrics::{MetricsCollector, MetricsSnapshot};

fn snapshot(queue_length: usize, avg_latency_us: u64) -> MetricsSnapshot {
    MetricsSnapshot {
        timestamp_us: 0,
        packets_sent: 10,
        packets_received: 8,
        packets_dropped: 2,
        throughput_bps: 96_000,
        avg_latency_us,
        queue_length,
        packet_loss_ppm: 200_000,
    }
}

fn report(name: &str, n: u128) -> AnalysisReport {
    AnalysisReport {
        strategy_name: name.to_string(),
        avg_throughput_bps: 100 * n,
        avg_latency_us: 10 * n,
        packet_loss_ppm: n,
        peak_queue_length: 50 - n,
        avg_queue_length_milli: 1_000 * n + 1,
        jitter_us: 7,
    }
}

#[test]
fn means_and_maxima() {
    assert_eq!(mean(&vec![]), 0);
    assert_eq!(mean(&vec![5]), 5);
    assert_eq!(mean(&vec![1, 2, 4]), 2);
    assert_eq!(mean(&vec![u128::MAX, u128::MAX]), u128::MAX / 2);
    assert_eq!(maximum(&vec![]), 0);
    assert_eq!(maximum(&vec![3, 9, 4]), 9);
    assert_eq!(maximum(&vec![0, 0]), 0);
}

#[test]
fn summary_of_an_empty_series_is_zero() {
    let r = analyze(&vec![], "red");
    assert_eq!(r.strategy_name, "red");
    assert_eq!(
        (r.avg_throughput_bps, r.avg_latency_us, r.packet_loss_ppm),
        (0, 0, 0)
    );
    assert_eq!((r.peak_queue_length, r.avg_queue_length_milli, r.jitter_us), (0, 0, 0));
}

#[test]
fn summary_of_a_series() {
    let series = vec![snapshot(4, 1_000), snapshot(10, 1_300), snapshot(3, 900), snapshot(0, 950)];
    let r = analyze(&series, "CoDel");
    assert_eq!(r.strategy_name, "CoDel");
    assert_eq!(r.avg_throughput_bps, 96_000);
    assert_eq!(r.avg_latency_us, 950);
    assert_eq!(r.packet_loss_ppm, 200_000);
    assert_eq!(r.peak_queue_length, 10);
    assert_eq!(r.avg_queue_length_milli, 4_250);
    // changes of 300, 400 and 50
    assert_eq!(r.jitter_us, 250);
}

#[test]
fn summary_of_one_snapshot_has_no_jitter() {
    let r = analyze(&vec![snapshot(7, 123)], "x");
    assert_eq!(r.jitter_us, 0);
    assert_eq!(r.peak_queue_length, 7);
    assert_eq!(r.avg_queue_length_milli, 7_000);
}

#[test]
fn summary_of_a_collected_run() {
    let mut m = MetricsCollector::started_at(0);
    for second in 1..=3u64 {
        for _ in 0..100 {
            m.packet_sent();
            m.packet_received(second * 100);
        }
        m.record_queue_length(second as usize);
        m.save_snapshot_at(second * 1_000_000);
    }
    let r = analyze(&m.get_snapshots(), "fifo");
    assert_eq!(r.avg_throughput_bps, 1_200_000);
    assert_eq!(r.avg_latency_us, 200);
    assert_eq!(r.packet_loss_ppm, 0);
    assert_eq!(r.peak_queue_length, 3);
    assert_eq!(r.avg_queue_length_milli, 2_000);
    assert_eq!(r.jitter_us, 50);
}

#[test]
fn mean_of_summaries() {
    let r = average_reports(&vec![report("blue", 1), report("other", 2), report("third", 4)]);
    assert_eq!(r.strategy_name, "blue");
    assert_eq!(r.avg_throughput_bps, 233);
    assert_eq!(r.avg_latency_us, 23);
    assert_eq!(r.packet_loss_ppm, 2);
    assert_eq!(r.peak_queue_length, 49);
    assert_eq!(r.avg_queue_length_milli, 2_334);
    assert_eq!(r.jitter_us, 7);
}

#[test]
fn mean_of_one_summary_is_that_summary() {
    let r = average_reports(&vec![report("pie", 3)]);
    let s = report("pie", 3);
    assert_eq!(r.strategy_name, s.strategy_name);
    assert_eq!(r.avg_throughput_bps, s.avg_throughput_bps);
    assert_eq!(r.avg_latency_us, s.avg_latency_us);
    assert_eq!(r.packet_loss_ppm, s.packet_loss_ppm);
    assert_eq!(r.peak_queue_length, s.peak_queue_length);
    assert_eq!(r.avg_queue_length_milli, s.avg_queue_length_milli);
    assert_eq!(r.jitter_us, s.jitter_us);
}

#[test]
fn places_of_the_largest_and_the_smallest() {
    assert_eq!(place_of_largest(&vec![]), None);
    assert_eq!(place_of_smallest(&vec![]), None);
    assert_eq!(place_of_largest(&vec![3]), Some(0));
    assert_eq!(place_of_largest(&vec![3, 9, 4, 9, 1]), Some(3));
    assert_eq!(place_of_smallest(&vec![3, 1, 4, 1, 5]), Some(1));
    assert_eq!(place_of_smallest(&vec![7, 7]), Some(0));
    assert_eq!(place_of_largest(&vec![7, 7]), Some(1));
}

#[test]
fn the_best_of_a_comparison() {
    assert!(best_of(&vec![]).is_none());
    let best = best_of(&vec![report("a", 3), report("b", 1), report("c", 4), report("d", 1)]).unwrap();
    assert_eq!((best.throughput, best.latency, best.loss), (2, 1, 1));
}

#[test]
fn export_formats_by_name() {
    assert_eq!(format_for("table"), Some(ExportFormat::Table));
    assert_eq!(format_for("detailed"), Some(ExportFormat::Detailed));
    assert_eq!(format_for("figure"), Some(ExportFormat::Figure));
    assert_eq!(format_for("all"), Some(ExportFormat::All));
    assert_eq!(format_for("All"), None);
    assert_eq!(format_for("pdf"), None);
    assert_eq!(parse_export_format("TABLE"), Some(ExportFormat::Table));
    assert_eq!(parse_export_format("Figure"), Some(ExportFormat::Figure));
    assert_eq!(parse_export_format("everything"), None);
}
