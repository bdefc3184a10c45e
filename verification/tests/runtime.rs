use measured::metric::group::MetricGroup;
use measured::process::{start_time, write_process_metrics, ClockTicks, PageSize, ProcStat, ProcessCollector, ProcessSample};
use measured::runtime::{NamedRuntimesCollector, RuntimeCollector};
use measured::text::BufferedTextEncoder;

fn current_thread_runtime() -> tokio::runtime::Runtime {
    tokio::runtime::Builder::new_current_thread().build().unwrap()
}

#[test]
fn runtime_collector_reports_one_worker() {
    let rt = current_thread_runtime();
    let collector = RuntimeCollector::new(rt.metrics()).with_name("main".to_string());
    let mut enc = BufferedTextEncoder::new();
    collector.collect_group_into(&mut enc).unwrap();
    let text = String::from_utf8(enc.finish()).unwrap();
    assert_eq!(
        text,
        "# HELP threads_total number of threads used by the runtime\n\
         threads_total{runtime=\"main\",kind=\"worker\"} 1\n\n\
         # HELP alive_tasks number of live tasks spawned in the runtime\n\
         alive_tasks{runtime=\"main\"} 0\n\n\
         # HELP queued_tasks number of tasks currently in a queue\n\
         queued_tasks{runtime=\"main\",kind=\"global\"} 0\n"
    );
}

#[test]
fn unnamed_runtime_has_no_runtime_label() {
    let rt = current_thread_runtime();
    let collector = RuntimeCollector::new(rt.metrics());
    let mut enc = BufferedTextEncoder::new();
    collector.collect_group_into(&mut enc).unwrap();
    let text = String::from_utf8(enc.finish()).unwrap();
    assert!(text.contains("threads_total{kind=\"worker\"} 1\n"), "{text}");
    assert!(text.contains("alive_tasks 0\n"), "{text}");
}

#[test]
fn named_runtimes_are_listed_in_order() {
    let rt1 = current_thread_runtime();
    let rt2 = current_thread_runtime();
    let mut collector = NamedRuntimesCollector::new();
    collector.add(rt1.metrics(), "foo".to_string());
    collector.add(rt2.metrics(), "bar".to_string());
    let mut enc = BufferedTextEncoder::new();
    collector.collect_group_into(&mut enc).unwrap();
    let text = String::from_utf8(enc.finish()).unwrap();
    let foo = text.find("threads_total{runtime=\"foo\",kind=\"worker\"} 1").unwrap();
    let bar = text.find("threads_total{runtime=\"bar\",kind=\"worker\"} 1").unwrap();
    assert!(foo < bar);
    assert_eq!(text.matches("# HELP").count(), 3);
}

#[test]
fn current_runtime_only_inside_one() {
    assert!(RuntimeCollector::current().is_none());
    let rt = current_thread_runtime();
    let _guard = rt.enter();
    assert!(RuntimeCollector::current().is_some());
    let mut collector = NamedRuntimesCollector::default();
    assert!(collector.add_current("here".to_string()));
}

#[test]
fn process_sample_is_written() {
    let sample = ProcessSample {
        pid: 1,
        fd_count: Some(12),
        max_fds: None,
        stat: Some(ProcStat {
            vsize: 4096,
            rss: 3,
            utime: 250,
            stime: 150,
            num_threads: 5,
            starttime: 0,
        }),
        page_size: PageSize(4096),
        clk_tck: ClockTicks(100),
    };
    let mut enc = BufferedTextEncoder::new();
    write_process_metrics(&sample, Some(1_700_000_000), &mut enc).unwrap();
    let text = String::from_utf8(enc.finish()).unwrap();
    assert_eq!(
        text,
        "# HELP open_fds Number of open file descriptors.\nopen_fds 12\n\n\
         # HELP virtual_memory_bytes Virtual memory size in bytes.\nvirtual_memory_bytes 4096\n\n\
         # HELP resident_memory_bytes Resident memory size in bytes.\nresident_memory_bytes 12288\n\n\
         # HELP cpu_seconds_total Total user and system CPU time spent in seconds.\ncpu_seconds_total 4\n\n\
         # HELP threads Number of OS threads in the process.\nthreads 5\n\n\
         # HELP start_time_seconds Start time of the process since unix epoch in seconds.\nstart_time_seconds 1700000000\n"
    );
}

#[test]
fn start_time_divides_ticks() {
    assert_eq!(start_time(12345, 100, 1000), Some(1123));
    assert_eq!(start_time(5, 0, 1000), None);
    assert_eq!(start_time(0, 100, u64::MAX), Some(-1));
}

#[test]
fn missing_process_writes_nothing() {
    let collector = ProcessCollector {
        pid: -1,
        start_time: None,
    };
    let mut enc = BufferedTextEncoder::new();
    collector.collect_group_into(&mut enc).unwrap();
    assert!(enc.finish().is_empty());
}

#[test]
fn own_process_is_readable() {
    let me = procfs::process::Process::myself().unwrap();
    let collector = ProcessCollector::new(me.pid);
    assert!(collector.start_time.is_some());
    let mut enc = BufferedTextEncoder::new();
    collector.collect_group_into(&mut enc).unwrap();
    let text = String::from_utf8(enc.finish()).unwrap();
    assert!(text.contains("# HELP threads Number of OS threads in the process.\n"), "{text}");
}
