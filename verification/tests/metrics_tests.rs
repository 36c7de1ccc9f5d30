//! Metrics collector: status-page parsing, performance counters and the
//! percentage rendering.

use nginx_supervisor::metrics::format_percent_whole;
use nginx_supervisor::metrics::get_connection_info;
use nginx_supervisor::metrics::format_tenths;
use nginx_supervisor::metrics::get_active_connections;
use nginx_supervisor::metrics::get_cpu_usage;
use nginx_supervisor::metrics::get_memory_usage;
use nginx_supervisor::metrics::get_performance_metrics;
use nginx_supervisor::metrics::get_requests_per_second;
use nginx_supervisor::metrics::get_total_connections;

fn text(s: &str) -> Vec<u8> {
    s.as_bytes().to_vec()
}

fn status_page() -> Vec<u8> {
    text(
        "Active connections: 291 \nserver accepts handled requests\n 16630948 16630948 31070465 \nReading: 6 Writing: 179 Waiting: 106 \n",
    )
}

#[test]
fn active_connections_come_from_the_labelled_line() {
    assert_eq!(get_active_connections(true, &Some(status_page())), 291);
}

#[test]
fn active_connections_degrade_to_zero() {
    assert_eq!(get_active_connections(false, &Some(status_page())), 0);
    assert_eq!(get_active_connections(true, &None), 0);
    assert_eq!(get_active_connections(true, &Some(text("garbage"))), 0);
}

#[test]
fn total_connections_need_a_numeric_second_token() {
    // The heading line holds the accepts label but no number, so the page
    // as served yields zero.
    assert_eq!(get_total_connections(true, &Some(status_page())), 0);
    let counted = text("accepts 16630948 handled\n");
    assert_eq!(get_total_connections(true, &Some(counted)), 16630948);
}

#[test]
fn requests_per_second_is_the_sixty_second_estimate() {
    // The first three-token line wins the scan; on a full page that is the
    // active-connections line itself: 291 / 60 == 4.
    assert_eq!(get_requests_per_second(true, &Some(status_page())), 4);
    // With the three-field summary alone, its request count is divided by
    // the sixty-second window: 31070465 / 60 == 517841.
    let summary = text("server accepts handled requests\n 16630948 16630948 31070465 \n");
    assert_eq!(get_requests_per_second(true, &Some(summary)), 517841);
    assert_eq!(get_requests_per_second(true, &None), 0);
    assert_eq!(get_requests_per_second(false, &Some(status_page())), 0);
}

#[test]
fn connection_info_bundles_the_three_figures() {
    assert_eq!(get_connection_info(true, &Some(status_page())), (291, 0, 4));
    assert_eq!(get_connection_info(false, &Some(status_page())), (0, 0, 0));
    assert_eq!(get_connection_info(true, &None), (0, 0, 0));
}

#[test]
fn cpu_usage_reads_the_value_line() {
    let out = text("PercentProcessorTime  \r\n25  \r\n\r\n");
    assert_eq!(get_cpu_usage(&out), 25);
    assert_eq!(get_cpu_usage(&text("PercentProcessorTime\n")), 0);
    assert_eq!(get_cpu_usage(&text("PercentProcessorTime\nnone\n")), 0);
}

#[test]
fn memory_usage_is_rounded_tenths_of_a_percent() {
    let total = text("TotalPhysicalMemory\n8000\n");
    let process = text("WorkingSetSize\n1000\n");
    // 1000 of 8000 is 12.5 percent, so 125 tenths.
    assert_eq!(get_memory_usage(&total, &process), 125);
    let zero_total = text("TotalPhysicalMemory\n0\n");
    assert_eq!(get_memory_usage(&zero_total, &process), 0);
}

#[test]
fn performance_metrics_are_formatted_with_one_decimal() {
    let cpu = text("PercentProcessorTime\n7\n");
    let total = text("TotalPhysicalMemory\n8000\n");
    let process = text("WorkingSetSize\n1000\n");
    let (cpu_s, mem_s) = get_performance_metrics(&cpu, &total, &process);
    assert_eq!(cpu_s, "7.0");
    assert_eq!(mem_s, "12.5");
}

#[test]
fn failed_counters_format_as_zero() {
    let none = text("");
    let (cpu_s, mem_s) = get_performance_metrics(&none, &none, &none);
    assert_eq!(cpu_s, "0.0");
    assert_eq!(mem_s, "0.0");
}

#[test]
fn tenths_rendering_is_exact() {
    assert_eq!(format_tenths(0), "0.0");
    assert_eq!(format_tenths(125), "12.5");
    assert_eq!(format_tenths(1000), "100.0");
    assert_eq!(format_percent_whole(42), "42.0");
}
