//! Monitor a process: CPU time, memory and file descriptor usage, thread count, and the
//! process start time, read from the Linux proc file system.

pub mod reading;

use procfs::process::Process;
use vstd::prelude::*;
use vstd::string::StringSliceAdditionalSpecFns;

use crate::label::group::{LabelGroup, NoLabels};
use crate::metric::group::{appended, Encoding, EncodingEvent, MetricGroup, MetricValue, SampleValue, result_recorded};
use crate::metric::name::MetricName;
use crate::process::reading::{boot_time_secs, process_stat, ticks_per_second, BootTime, StatReading, TickRate};

verus! {

#[verifier::external_type_specification]
#[verifier::external_body]
pub struct ExProcess(Process);

/// The fields of a process's `stat` file that the collector reports.
#[derive(Clone, Copy)]
pub struct ProcStat {
    /// Virtual memory size in bytes
    pub vsize: u64,
    /// Resident set size in pages
    pub rss: u64,
    /// Time spent in user mode, in clock ticks
    pub utime: u64,
    /// Time spent in kernel mode, in clock ticks
    pub stime: u64,
    /// Number of threads
    pub num_threads: i64,
    /// Time the process started after system boot, in clock ticks
    pub starttime: u64,
}

/// A process opened for reading, with the id it was opened for.
pub struct OpenProcess {
    /// The procfs handle of the process
    pub process: Process,
    /// The id of the process, as procfs records it
    pub pid: i32,
}

/// The process with the given id, by `procfs::process::Process::new`, paired with the id
/// that `Process::pid` gives back. procfs builds the path `/proc/<pid>` from the id it is
/// given and parses that id back into the handle, so the contract claims that the id is
/// the one asked for. Opening fails when the directory cannot be read; nothing is claimed
/// of whether it can.
#[verifier::external_body]
fn process_open(pid: i32) -> (r: Option<OpenProcess>)
    ensures
        r matches Some(o) ==> o.pid == pid,
{
    match Process::new(pid) {
        Ok(p) => Some(OpenProcess { pid: p.pid(), process: p }),
        Err(_) => None,
    }
}

/// The calling process, by `procfs::process::Process::myself`; nothing is claimed of
/// whether it can be read.
#[verifier::external_body]
fn process_myself() -> Option<Process> {
    Process::myself().ok()
}

/// The number of open file descriptors, by `Process::fd_count`, a reading of `/proc`;
/// nothing is claimed of it.
#[verifier::external_body]
fn process_fd_count(p: &Process) -> Option<usize> {
    p.fd_count().ok()
}

/// The soft limit on open files when it is a number, by `Process::limits`, a reading of
/// `/proc`; nothing is claimed of it.
#[verifier::external_body]
fn process_max_open_files(p: &Process) -> Option<u64> {
    match p.limits() {
        Ok(limits) => match limits.max_open_files.soft_limit {
            procfs::process::LimitValue::Value(max) => Some(max),
            procfs::process::LimitValue::Unlimited => None,
        },
        Err(_) => None,
    }
}

/// A reading of the number of clock ticks per second.
#[derive(Clone, Copy)]
pub struct ClockTicks(pub u64);

/// A reading of the memory page size in bytes.
#[derive(Clone, Copy)]
pub struct PageSize(pub u64);

/// The memory page size in bytes, by `procfs::page_size`; nothing is claimed of it.
#[verifier::external_body]
fn page_size() -> PageSize {
    PageSize(procfs::page_size())
}

/// The start time of a process in seconds since the epoch, from its start time in ticks
/// after boot: `starttime / clk_tck + boot_time`. There is none when the division or the
/// sum does not fit in an `i64`.
pub open spec fn spec_start_time(starttime: u64, clk_tck: i64, boot_time: u64) -> Option<i64> {
    match (starttime as i64).checked_div(clk_tck) {
        Some(secs) => secs.checked_add(boot_time as i64),
        None => None,
    }
}

/// The start time is counted from the epoch, not from boot: with a positive tick rate and
/// values that fit in an `i64`, it is the boot time plus the whole seconds the process
/// started after boot, so it is never before the boot time.
pub proof fn law_start_time_is_boot_plus_elapsed(starttime: u64, clk_tck: i64, boot_time: u64)
    requires
        clk_tck > 0,
        starttime <= i64::MAX,
        boot_time <= i64::MAX,
        (starttime as int) / (clk_tck as int) + boot_time <= i64::MAX,
    ensures
        spec_start_time(starttime, clk_tck, boot_time) == Some(((starttime as int) / (clk_tck as int) + boot_time) as i64),
        spec_start_time(starttime, clk_tck, boot_time)->0 >= boot_time,
{
    assert((starttime as int) / (clk_tck as int) >= 0) by (nonlinear_arith)
        requires
            clk_tck > 0,
            starttime >= 0,
    ;
}

/// Computes the start time of a process in seconds since the epoch, from its start time in
/// ticks after boot.
pub fn start_time(starttime: u64, clk_tck: i64, boot_time: u64) -> (r: Option<i64>)
    ensures
        r == spec_start_time(starttime, clk_tck, boot_time),
{
    match (starttime as i64).checked_div(clk_tck) {
        Some(secs) => secs.checked_add(boot_time as i64),
        None => None,
    }
}

/// One reading of the process.
pub struct ProcessSample {
    /// The id of the process that was read
    pub pid: i32,
    /// The number of open file descriptors, if it could be read
    pub fd_count: Option<usize>,
    /// The soft limit on open files, if it could be read and is a number
    pub max_fds: Option<u64>,
    /// The `stat` fields, if they could be read
    pub stat: Option<ProcStat>,
    /// The memory page size in bytes
    pub page_size: PageSize,
    /// The number of clock ticks per second
    pub clk_tck: ClockTicks,
}

/// A help line then one sample without labels.
pub open spec fn single(name: Seq<u8>, help: Seq<u8>, value: i64) -> Seq<EncodingEvent> {
    seq![
        EncodingEvent::Help { name, help },
        EncodingEvent::Sample { name, labels: Seq::empty(), value: SampleValue::Int(value) },
    ]
}

/// The events writing the file descriptor readings of a process.
pub open spec fn fd_events(s: ProcessSample) -> Seq<EncodingEvent> {
    (match s.fd_count {
        Some(n) => single("open_fds".spec_bytes(), "Number of open file descriptors.".spec_bytes(), n as i64),
        None => Seq::empty(),
    }) + (match s.max_fds {
        Some(m) => single(
            "max_fds".spec_bytes(),
            "Maximum number of open file descriptors.".spec_bytes(),
            m as i64,
        ),
        None => Seq::empty(),
    })
}

/// The CPU time of a process in seconds, if the tick count divides into an `i64`.
pub open spec fn cpu_seconds(st: ProcStat, clk_tck: i64) -> Option<i64> {
    (vstd::wrapping::u64_specs::wrapping_add(st.utime, st.stime) as i64).checked_div(clk_tck)
}

/// The events writing the `stat` readings of a process.
pub open spec fn stat_events(st: ProcStat, page_size: i64, clk_tck: i64) -> Seq<EncodingEvent> {
    single("virtual_memory_bytes".spec_bytes(), "Virtual memory size in bytes.".spec_bytes(), st.vsize as i64)
        + single(
        "resident_memory_bytes".spec_bytes(),
        "Resident memory size in bytes.".spec_bytes(),
        vstd::wrapping::i64_specs::wrapping_mul(st.rss as i64, page_size),
    ) + (match cpu_seconds(st, clk_tck) {
        Some(cpu) => single(
            "cpu_seconds_total".spec_bytes(),
            "Total user and system CPU time spent in seconds.".spec_bytes(),
            cpu,
        ),
        None => Seq::empty(),
    }) + single("threads".spec_bytes(), "Number of OS threads in the process.".spec_bytes(), st.num_threads)
}

/// The events writing one reading of a process, and its start time.
pub open spec fn process_events(s: ProcessSample, start_time: Option<i64>) -> Seq<EncodingEvent> {
    fd_events(s) + (match s.stat {
        Some(st) => stat_events(st, s.page_size.0 as i64, s.clk_tck.0 as i64),
        None => Seq::empty(),
    }) + (match start_time {
        Some(t) => single(
            "start_time_seconds".spec_bytes(),
            "Start time of the process since unix epoch in seconds.".spec_bytes(),
            t,
        ),
        None => Seq::empty(),
    })
}

/// The metric name an event is about (empty for a flush).
pub open spec fn event_name(e: EncodingEvent) -> Seq<u8> {
    match e {
        EncodingEvent::Help { name, .. } => name,
        EncodingEvent::Type { name, .. } => name,
        EncodingEvent::Sample { name, .. } => name,
        EncodingEvent::Flush => Seq::empty(),
    }
}

/// The name of the `i`th family of a sequence of help-and-sample families.
pub open spec fn family_name(es: Seq<EncodingEvent>, i: int) -> Seq<u8> {
    event_name(es[2 * i])
}

/// Whether the `i`th family is a help line followed by one unlabelled sample of that name.
pub open spec fn family_at(es: Seq<EncodingEvent>, i: int) -> bool {
    &&& es[2 * i] is Help
    &&& es[2 * i + 1] matches EncodingEvent::Sample { name, labels, .. } && name == event_name(es[2 * i])
        && labels.len() == 0
}

/// Whether events come as families, each a help line followed by one unlabelled sample of
/// the same name, and no two families share a name.
pub open spec fn distinct_families(es: Seq<EncodingEvent>) -> bool {
    &&& es.len() % 2 == 0
    &&& forall|i: int| 0 <= i < es.len() / 2 ==> #[trigger] family_at(es, i)
    &&& forall|i: int, j: int|
        0 <= i < j < es.len() / 2 ==> #[trigger] family_name(es, i) != #[trigger] family_name(es, j)
}

/// Whether every family of `es` has a name from `names`.
pub open spec fn family_names_in(es: Seq<EncodingEvent>, names: Set<Seq<u8>>) -> bool {
    forall|i: int| 0 <= i < es.len() / 2 ==> names.contains(#[trigger] family_name(es, i))
}

proof fn lemma_single_family(name: Seq<u8>, help: Seq<u8>, value: i64)
    ensures
        distinct_families(single(name, help, value)),
        family_names_in(single(name, help, value), set![name]),
{
    let es: Seq<EncodingEvent> = single(name, help, value);
    assert(family_at(es, 0));
    assert(family_name(es, 0) == name);
}

proof fn lemma_empty_families(names: Set<Seq<u8>>)
    ensures
        distinct_families(Seq::<EncodingEvent>::empty()),
        family_names_in(Seq::<EncodingEvent>::empty(), names),
{
}

proof fn lemma_concat_families(x: Seq<EncodingEvent>, y: Seq<EncodingEvent>, a: Set<Seq<u8>>, b: Set<Seq<u8>>)
    requires
        distinct_families(x),
        distinct_families(y),
        family_names_in(x, a),
        family_names_in(y, b),
        a.disjoint(b),
    ensures
        distinct_families(x + y),
        family_names_in(x + y, a.union(b)),
{
    let z: Seq<EncodingEvent> = x + y;
    let hx: int = x.len() as int / 2;
    assert forall|i: int| 0 <= i < z.len() / 2 implies #[trigger] family_at(z, i) && family_name(z, i) == if i < hx {
        family_name(x, i)
    } else {
        family_name(y, i - hx)
    } by {
        if i < hx {
            assert(family_at(x, i));
            assert(z[2 * i] == x[2 * i]);
            assert(z[2 * i + 1] == x[2 * i + 1]);
        } else {
            assert(family_at(y, i - hx));
            assert(z[2 * i] == y[2 * (i - hx)]);
            assert(z[2 * i + 1] == y[2 * (i - hx) + 1]);
        }
    }
    assert forall|i: int, j: int| 0 <= i < j < z.len() / 2 implies #[trigger] family_name(z, i) != #[trigger] family_name(z, j) by {
        assert(family_at(z, i) && family_at(z, j));
        if j < hx {
            assert(family_name(x, i) != family_name(x, j));
        } else if i >= hx {
            assert(family_name(y, i - hx) != family_name(y, j - hx));
        } else {
            assert(a.contains(family_name(x, i)));
            assert(b.contains(family_name(y, j - hx)));
        }
    }
    assert forall|i: int| 0 <= i < z.len() / 2 implies a.union(b).contains(#[trigger] family_name(z, i)) by {
        assert(family_at(z, i));
        if i < hx {
            assert(a.contains(family_name(x, i)));
        } else {
            assert(b.contains(family_name(y, i - hx)));
        }
    }
}

/// An optional family: none, or one help line and one sample named `name`.
proof fn lemma_optional_family(es: Seq<EncodingEvent>, name: Seq<u8>, help: Seq<u8>, value: i64)
    requires
        es == single(name, help, value) || es == Seq::<EncodingEvent>::empty(),
    ensures
        distinct_families(es),
        family_names_in(es, set![name]),
{
    lemma_single_family(name, help, value);
    lemma_empty_families(set![name]);
}

/// The readings of a process are written as families with distinct names: each a help
/// line followed by its one unlabelled sample. The open file descriptors come first when
/// they were read, and the soft limit on open files, when it was read, is the family named
/// `max_fds`, whose sample is that limit.
pub proof fn law_process_families(s: ProcessSample, start_time: Option<i64>)
    ensures
        distinct_families(process_events(s, start_time)),
        s.fd_count matches Some(n) ==> process_events(s, start_time).take(2) == single(
            "open_fds".spec_bytes(),
            "Number of open file descriptors.".spec_bytes(),
            n as i64,
        ),
        s.max_fds matches Some(m) ==> exists|i: int|
            0 <= i < process_events(s, start_time).len() / 2 && #[trigger] family_name(process_events(s, start_time), i)
                == "max_fds".spec_bytes() && process_events(s, start_time).subrange(2 * i, 2 * i + 2) == single(
                "max_fds".spec_bytes(),
                "Maximum number of open file descriptors.".spec_bytes(),
                m as i64,
            ),
{
    reveal_strlit("open_fds");
    reveal_strlit("max_fds");
    reveal_strlit("virtual_memory_bytes");
    reveal_strlit("resident_memory_bytes");
    reveal_strlit("cpu_seconds_total");
    reveal_strlit("threads");
    reveal_strlit("start_time_seconds");
    vstd::string::is_ascii_spec_bytes("open_fds");
    vstd::string::is_ascii_spec_bytes("max_fds");
    vstd::string::is_ascii_spec_bytes("virtual_memory_bytes");
    vstd::string::is_ascii_spec_bytes("resident_memory_bytes");
    vstd::string::is_ascii_spec_bytes("cpu_seconds_total");
    vstd::string::is_ascii_spec_bytes("threads");
    vstd::string::is_ascii_spec_bytes("start_time_seconds");
    let n_open: Seq<u8> = "open_fds".spec_bytes();
    let n_max: Seq<u8> = "max_fds".spec_bytes();
    let n_virt: Seq<u8> = "virtual_memory_bytes".spec_bytes();
    let n_res: Seq<u8> = "resident_memory_bytes".spec_bytes();
    let n_cpu: Seq<u8> = "cpu_seconds_total".spec_bytes();
    let n_thr: Seq<u8> = "threads".spec_bytes();
    let n_start: Seq<u8> = "start_time_seconds".spec_bytes();
    assert(n_open.len() == 8 && n_max.len() == 7 && n_virt.len() == 20 && n_res.len() == 21);
    assert(n_cpu.len() == 17 && n_thr.len() == 7 && n_start.len() == 18);
    assert(n_max[0] != n_thr[0]);
    let fd1: Seq<EncodingEvent> = match s.fd_count {
        Some(n) => single(n_open, "Number of open file descriptors.".spec_bytes(), n as i64),
        None => Seq::empty(),
    };
    let fd2: Seq<EncodingEvent> = match s.max_fds {
        Some(m) => single(n_max, "Maximum number of open file descriptors.".spec_bytes(), m as i64),
        None => Seq::empty(),
    };
    lemma_optional_family(fd1, n_open, "Number of open file descriptors.".spec_bytes(), match s.fd_count {
        Some(n) => n as i64,
        None => 0,
    });
    lemma_optional_family(fd2, n_max, "Maximum number of open file descriptors.".spec_bytes(), match s.max_fds {
        Some(m) => m as i64,
        None => 0,
    });
    lemma_concat_families(fd1, fd2, set![n_open], set![n_max]);
    assert(fd_events(s) == fd1 + fd2);
    let fd_names: Set<Seq<u8>> = set![n_open].union(set![n_max]);
    let st_part: Seq<EncodingEvent> = match s.stat {
        Some(st) => stat_events(st, s.page_size.0 as i64, s.clk_tck.0 as i64),
        None => Seq::empty(),
    };
    let st_names: Set<Seq<u8>> = set![n_virt].union(set![n_res]).union(set![n_cpu]).union(set![n_thr]);
    match s.stat {
        Some(st) => {
            let ps: i64 = s.page_size.0 as i64;
            let ct: i64 = s.clk_tck.0 as i64;
            let a: Seq<EncodingEvent> = single(n_virt, "Virtual memory size in bytes.".spec_bytes(), st.vsize as i64);
            let b: Seq<EncodingEvent> = single(
                n_res,
                "Resident memory size in bytes.".spec_bytes(),
                vstd::wrapping::i64_specs::wrapping_mul(st.rss as i64, ps),
            );
            let c: Seq<EncodingEvent> = match cpu_seconds(st, ct) {
                Some(cpu) => single(n_cpu, "Total user and system CPU time spent in seconds.".spec_bytes(), cpu),
                None => Seq::empty(),
            };
            let d: Seq<EncodingEvent> = single(n_thr, "Number of OS threads in the process.".spec_bytes(), st.num_threads);
            lemma_single_family(n_virt, "Virtual memory size in bytes.".spec_bytes(), st.vsize as i64);
            lemma_single_family(
                n_res,
                "Resident memory size in bytes.".spec_bytes(),
                vstd::wrapping::i64_specs::wrapping_mul(st.rss as i64, ps),
            );
            lemma_optional_family(c, n_cpu, "Total user and system CPU time spent in seconds.".spec_bytes(), match cpu_seconds(st, ct) {
                Some(cpu) => cpu,
                None => 0,
            });
            lemma_single_family(n_thr, "Number of OS threads in the process.".spec_bytes(), st.num_threads);
            lemma_concat_families(a, b, set![n_virt], set![n_res]);
            lemma_concat_families(a + b, c, set![n_virt].union(set![n_res]), set![n_cpu]);
            lemma_concat_families(a + b + c, d, set![n_virt].union(set![n_res]).union(set![n_cpu]), set![n_thr]);
            assert(st_part == a + b + c + d);
        },
        None => {
            lemma_empty_families(st_names);
        },
    }
    let t_part: Seq<EncodingEvent> = match start_time {
        Some(t) => single(n_start, "Start time of the process since unix epoch in seconds.".spec_bytes(), t),
        None => Seq::empty(),
    };
    lemma_optional_family(t_part, n_start, "Start time of the process since unix epoch in seconds.".spec_bytes(), match start_time {
        Some(t) => t,
        None => 0,
    });
    lemma_concat_families(fd_events(s), st_part, fd_names, st_names);
    lemma_concat_families(fd_events(s) + st_part, t_part, fd_names.union(st_names), set![n_start]);
    let es: Seq<EncodingEvent> = process_events(s, start_time);
    assert(es == fd_events(s) + st_part + t_part);
    if let Some(m) = s.max_fds {
        let i: int = fd1.len() as int / 2;
        assert(es[2 * i] == fd2[0]);
        assert(es[2 * i + 1] == fd2[1]);
        assert(family_name(es, i) == n_max);
        assert(es.subrange(2 * i, 2 * i + 2) =~= fd2);
    }
    if let Some(n) = s.fd_count {
        assert(es[0] == fd1[0]);
        assert(es[1] == fd1[1]);
        assert(es.take(2) =~= fd1);
    }
}

/// Writes a help line, then one sample without labels.
fn write_single<Enc: Encoding>(name: MetricName<'static>, help: &str, value: i64, enc: &mut Enc) -> (r: Result<(), Enc::Err>)
    requires
        old(enc).enc_wf(),
    ensures
        final(enc).enc_wf(),
        r is Ok ==> final(enc).events() == old(enc).events() + single(name@, help.spec_bytes(), value),
        Enc::infallible() ==> r is Ok,
        result_recorded(old(enc).errors(), final(enc).errors(), r),
{
    enc.write_help(name, help)?;
    let r = enc.write_metric_value(name, NoLabels, MetricValue::Int(value));
    proof {
        if r is Ok {
            assert(NoLabels.label_pairs() == Seq::<(Seq<u8>, Seq<u8>)>::empty());
            assert((*final(enc)).events() =~= old(enc).events() + single(name@, help.spec_bytes(), value));
        }
    }
    r
}

/// Writes the file descriptor readings of a process.
fn write_fds<Enc: Encoding>(s: &ProcessSample, enc: &mut Enc) -> (r: Result<(), Enc::Err>)
    requires
        old(enc).enc_wf(),
    ensures
        final(enc).enc_wf(),
        r is Ok ==> final(enc).events() == old(enc).events() + fd_events(*s),
        Enc::infallible() ==> r is Ok,
        result_recorded(old(enc).errors(), final(enc).errors(), r),
{
    proof {
        reveal_strlit("open_fds");
        vstd::string::is_ascii_spec_bytes("open_fds");
        reveal_strlit("max_fds");
        vstd::string::is_ascii_spec_bytes("max_fds");
    }
    let ghost e0: Seq<EncodingEvent> = enc.events();
    if let Some(n) = s.fd_count {
        write_single(MetricName::from_str("open_fds"), "Number of open file descriptors.", n as i64, enc)?;
    }
    if let Some(m) = s.max_fds {
        write_single(MetricName::from_str("max_fds"), "Maximum number of open file descriptors.", m as i64, enc)?;
    }
    proof {
        assert(enc.events() =~= e0 + fd_events(*s));
    }
    Ok(())
}

/// Writes the `stat` readings of a process.
fn write_stat<Enc: Encoding>(st: ProcStat, page_size: i64, clk_tck: i64, enc: &mut Enc) -> (r: Result<(), Enc::Err>)
    requires
        old(enc).enc_wf(),
    ensures
        final(enc).enc_wf(),
        r is Ok ==> final(enc).events() == old(enc).events() + stat_events(st, page_size, clk_tck),
        Enc::infallible() ==> r is Ok,
        result_recorded(old(enc).errors(), final(enc).errors(), r),
{
    proof {
        reveal_strlit("virtual_memory_bytes");
        vstd::string::is_ascii_spec_bytes("virtual_memory_bytes");
        reveal_strlit("resident_memory_bytes");
        vstd::string::is_ascii_spec_bytes("resident_memory_bytes");
        reveal_strlit("cpu_seconds_total");
        vstd::string::is_ascii_spec_bytes("cpu_seconds_total");
        reveal_strlit("threads");
        vstd::string::is_ascii_spec_bytes("threads");
    }
    let ghost e0: Seq<EncodingEvent> = enc.events();
    write_single(MetricName::from_str("virtual_memory_bytes"), "Virtual memory size in bytes.", st.vsize as i64, enc)?;
    write_single(
        MetricName::from_str("resident_memory_bytes"),
        "Resident memory size in bytes.",
        (st.rss as i64).wrapping_mul(page_size),
        enc,
    )?;
    if let Some(cpu) = (st.utime.wrapping_add(st.stime) as i64).checked_div(clk_tck) {
        write_single(
            MetricName::from_str("cpu_seconds_total"),
            "Total user and system CPU time spent in seconds.",
            cpu,
            enc,
        )?;
    }
    write_single(MetricName::from_str("threads"), "Number of OS threads in the process.", st.num_threads, enc)?;
    proof {
        assert(enc.events() =~= e0 + stat_events(st, page_size, clk_tck));
    }
    Ok(())
}

/// Writes one reading of a process, and its start time.
pub fn write_process_metrics<Enc: Encoding>(s: &ProcessSample, start_time: Option<i64>, enc: &mut Enc) -> (r: Result<(), Enc::Err>)
    requires
        old(enc).enc_wf(),
    ensures
        final(enc).enc_wf(),
        r is Ok ==> final(enc).events() == old(enc).events() + process_events(*s, start_time),
        Enc::infallible() ==> r is Ok,
        result_recorded(old(enc).errors(), final(enc).errors(), r),
{
    proof {
        reveal_strlit("start_time_seconds");
        vstd::string::is_ascii_spec_bytes("start_time_seconds");
    }
    let ghost e0: Seq<EncodingEvent> = enc.events();
    write_fds(s, enc)?;
    if let Some(st) = s.stat {
        write_stat(st, s.page_size.0 as i64, s.clk_tck.0 as i64, enc)?;
    }
    if let Some(t) = start_time {
        write_single(
            MetricName::from_str("start_time_seconds"),
            "Start time of the process since unix epoch in seconds.",
            t,
            enc,
        )?;
    }
    proof {
        assert(enc.events() =~= e0 + process_events(*s, start_time));
    }
    Ok(())
}

/// A collector which exports the current state of process metrics including CPU, memory
/// and file descriptor usage, thread count, as well as the process start time for the
/// given process id.
pub struct ProcessCollector {
    /// The id of the process
    pub pid: i32,
    /// The start time of the process in seconds since the epoch, if it could be read
    pub start_time: Option<i64>,
}

impl ProcessCollector {
    /// Create a `ProcessCollector` with the given process id. The start time is read once,
    /// from the calling process's `stat` file and the system boot time: the start time
    /// after boot divided by the clock tick rate, plus the boot time, for readings actually
    /// taken (values of the reading types come only from reading them).
    pub fn new(pid: i32) -> (r: ProcessCollector)
        ensures
            r.pid == pid,
            r.start_time is Some ==> exists|stat: StatReading, ticks: TickRate, boot_time: BootTime|
                r.start_time == #[trigger] spec_start_time(stat@.starttime, ticks@ as i64, boot_time@),
    {
        let mut start: Option<i64> = None;
        if let Some(boot_time) = boot_time_secs() {
            if let Some(me) = process_myself() {
                if let Some(stat) = process_stat(&me) {
                    let ticks: TickRate = ticks_per_second();
                    let clk_tck: i64 = ticks.clock_ticks().0 as i64;
                    start = start_time(stat.stat().starttime, clk_tck, boot_time.secs());
                    proof {
                        assert(start == spec_start_time(stat@.starttime, ticks@ as i64, boot_time@));
                    }
                }
            }
        }
        ProcessCollector { pid, start_time: start }
    }

    /// Read the current state of the process with this collector's id: nothing when its
    /// proc directory cannot be read.
    pub fn sample(&self) -> (r: Option<ProcessSample>)
        ensures
            r matches Some(s) ==> s.pid == self.pid,
    {
        let o: OpenProcess = match process_open(self.pid) {
            Some(o) => o,
            None => return None,
        };
        Some(
            ProcessSample {
                pid: o.pid,
                fd_count: process_fd_count(&o.process),
                max_fds: process_max_open_files(&o.process),
                stat: match process_stat(&o.process) {
                    Some(st) => Some(st.stat()),
                    None => None,
                },
                page_size: page_size(),
                clk_tck: ticks_per_second().clock_ticks(),
            },
        )
    }
}

/// The events writing what one attempt to read a process gave: nothing when the process
/// could not be read, else its readings and the start time.
pub open spec fn sample_events(sample: Option<ProcessSample>, start_time: Option<i64>) -> Seq<EncodingEvent> {
    match sample {
        None => Seq::empty(),
        Some(s) => process_events(s, start_time),
    }
}

impl ProcessCollector {
    /// Write what one attempt to read this collector's process gave: nothing when the process
    /// could not be read, else the metrics of the reading followed by the start time.
    pub fn collect_sample_into<Enc: Encoding>(&self, sample: Option<ProcessSample>, enc: &mut Enc) -> (r: Result<(), Enc::Err>)
        requires
            old(enc).enc_wf(),
        ensures
            final(enc).enc_wf(),
            r is Ok ==> final(enc).events() == old(enc).events() + sample_events(sample, self.start_time),
            Enc::infallible() ==> r is Ok,
            result_recorded(old(enc).errors(), final(enc).errors(), r),
    {
        match sample {
            None => {
                proof {
                    assert(enc.events() + Seq::<EncodingEvent>::empty() == enc.events());
                }
                Ok(())
            },
            Some(s) => write_process_metrics(&s, self.start_time, enc),
        }
    }
}

impl<Enc: Encoding> MetricGroup<Enc> for ProcessCollector {
    open spec fn group_produces(&self, events: Seq<EncodingEvent>) -> bool {
        exists|sample: Option<ProcessSample>|
            (sample matches Some(s) ==> s.pid == self.pid) && events == #[trigger] sample_events(sample, self.start_time)
    }

    open spec fn group_wf(&self) -> bool {
        true
    }

    fn collect_group_into(&self, enc: &mut Enc) -> (r: Result<(), Enc::Err>) {
        let sample: Option<ProcessSample> = self.sample();
        let r = self.collect_sample_into(sample, enc);
        proof {
            if r is Ok {
                let added: Seq<EncodingEvent> = sample_events(sample, self.start_time);
                assert(MetricGroup::<Enc>::group_produces(self, added));
                assert(appended(old(enc).events(), enc.events(), added));
            }
        }
        r
    }
}

} // verus!
