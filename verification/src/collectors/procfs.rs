//! The files under `/proc`: host CPU ticks and memory, and the CPU time,
//! memory, threads and I/O of a process.
use crate::domain::metrics::ProcessSample;
use crate::text::{
    chars_of, concat, concat3, first_word, has_prefix, i32_to_string, lines, lines_of,
    parse_u64_chars, parse_u64_spec, rfind_char, rposition, signed_decimal, slice_skip,
    starts_with, strip_prefix, strip_prefix_chars, vviews, words, words_of,
};
use vstd::prelude::*;

verus! {

/// A number as `parse().unwrap_or(0)` reads it.
pub open spec fn u64_or_zero(w: Seq<char>) -> u64 {
    match parse_u64_spec(w) {
        Some(n) => n,
        None => 0,
    }
}

/// The first whitespace-separated number of a value, zero where there is
/// none or it is not a number.
pub open spec fn first_u64(v: Seq<char>) -> u64 {
    match first_word(v) {
        Some(w) => u64_or_zero(w),
        None => 0,
    }
}

pub fn parse_first_u64(value: &[char]) -> (n: u64)
    ensures
        n == first_u64(value@),
{
    let w = words_of(value);
    if w.len() > 0 {
        match parse_u64_chars(w[0].as_slice()) {
            Some(n) => n,
            None => 0,
        }
    } else {
        0
    }
}

fn strip_lit(l: &[char], p: &str) -> (r: Option<Vec<char>>)
    ensures
        r matches Some(v) ==> strip_prefix(l@, p@) == Some(v@),
        r is None ==> strip_prefix(l@, p@) is None,
{
    let pc = chars_of(p);
    strip_prefix_chars(l, pc.as_slice())
}

/// `VmRSS`, `VmSize` and `Threads` of `/proc/PID/status`; the last line of
/// each counts, and a missing one is zero.
pub open spec fn status_counts(ls: Seq<Seq<char>>) -> (u64, u64, u64)
    decreases ls.len(),
{
    if ls.len() == 0 {
        (0, 0, 0)
    } else {
        let prev = status_counts(ls.drop_last());
        let l = ls.last();
        match strip_prefix(l, "VmRSS:"@) {
            Some(x) => (first_u64(x), prev.1, prev.2),
            None => match strip_prefix(l, "VmSize:"@) {
                Some(x) => (prev.0, first_u64(x), prev.2),
                None => match strip_prefix(l, "Threads:"@) {
                    Some(x) => (prev.0, prev.1, first_u64(x)),
                    None => prev,
                },
            },
        }
    }
}

/// Resident and virtual memory in kB and the thread count of a process.
pub fn parse_proc_status(status: &str) -> (r: (u64, u64, u64))
    ensures
        r == status_counts(lines(status@)),
{
    let c = chars_of(status);
    let ls = lines_of(c.as_slice());
    let ghost v = vviews(ls@);
    let mut rss: u64 = 0;
    let mut vm_size: u64 = 0;
    let mut threads: u64 = 0;
    let mut i: usize = 0;
    while i < ls.len()
        invariant
            i <= ls.len(),
            v == vviews(ls@),
            (rss, vm_size, threads) == status_counts(v.take(i as int)),
        decreases ls.len() - i,
    {
        let l = ls[i].as_slice();
        assert(v.take(i + 1).drop_last() == v.take(i as int));
        assert(v.take(i + 1).last() == l@);
        if let Some(x) = strip_lit(l, "VmRSS:") {
            rss = parse_first_u64(x.as_slice());
        } else if let Some(x) = strip_lit(l, "VmSize:") {
            vm_size = parse_first_u64(x.as_slice());
        } else if let Some(x) = strip_lit(l, "Threads:") {
            threads = parse_first_u64(x.as_slice());
        }
        i = i + 1;
    }
    assert(v.take(i as int) == v);
    (rss, vm_size, threads)
}

/// `read_bytes` and `write_bytes` of `/proc/PID/io`; the last line of each
/// counts.
pub open spec fn io_counts(ls: Seq<Seq<char>>) -> (Option<u64>, Option<u64>)
    decreases ls.len(),
{
    if ls.len() == 0 {
        (None, None)
    } else {
        let prev = io_counts(ls.drop_last());
        let l = ls.last();
        match strip_prefix(l, "read_bytes:"@) {
            Some(x) => (Some(first_u64(x)), prev.1),
            None => match strip_prefix(l, "write_bytes:"@) {
                Some(x) => (prev.0, Some(first_u64(x))),
                None => prev,
            },
        }
    }
}

/// Bytes read and written by a process.
pub fn parse_proc_io(io: &str) -> (r: (Option<u64>, Option<u64>))
    ensures
        r == io_counts(lines(io@)),
{
    let c = chars_of(io);
    let ls = lines_of(c.as_slice());
    let ghost v = vviews(ls@);
    let mut read_bytes: Option<u64> = None;
    let mut write_bytes: Option<u64> = None;
    let mut i: usize = 0;
    while i < ls.len()
        invariant
            i <= ls.len(),
            v == vviews(ls@),
            (read_bytes, write_bytes) == io_counts(v.take(i as int)),
        decreases ls.len() - i,
    {
        let l = ls[i].as_slice();
        assert(v.take(i + 1).drop_last() == v.take(i as int));
        assert(v.take(i + 1).last() == l@);
        if let Some(x) = strip_lit(l, "read_bytes:") {
            read_bytes = Some(parse_first_u64(x.as_slice()));
        } else if let Some(x) = strip_lit(l, "write_bytes:") {
            write_bytes = Some(parse_first_u64(x.as_slice()));
        }
        i = i + 1;
    }
    assert(v.take(i as int) == v);
    (read_bytes, write_bytes)
}

/// `MemTotal` and `MemAvailable` of `/proc/meminfo`, in kB; the last line
/// of each counts, and a missing one is zero.
pub open spec fn meminfo_counts(ls: Seq<Seq<char>>) -> (u64, u64)
    decreases ls.len(),
{
    if ls.len() == 0 {
        (0, 0)
    } else {
        let prev = meminfo_counts(ls.drop_last());
        let l = ls.last();
        match strip_prefix(l, "MemTotal:"@) {
            Some(x) => (first_u64(x), prev.1),
            None => match strip_prefix(l, "MemAvailable:"@) {
                Some(x) => (prev.0, first_u64(x)),
                None => prev,
            },
        }
    }
}

/// Total and available memory of the host, in kB.
pub fn parse_meminfo(meminfo: &str) -> (r: (u64, u64))
    ensures
        r == meminfo_counts(lines(meminfo@)),
{
    let c = chars_of(meminfo);
    let ls = lines_of(c.as_slice());
    let ghost v = vviews(ls@);
    let mut total: u64 = 0;
    let mut available: u64 = 0;
    let mut i: usize = 0;
    while i < ls.len()
        invariant
            i <= ls.len(),
            v == vviews(ls@),
            (total, available) == meminfo_counts(v.take(i as int)),
        decreases ls.len() - i,
    {
        let l = ls[i].as_slice();
        assert(v.take(i + 1).drop_last() == v.take(i as int));
        assert(v.take(i + 1).last() == l@);
        if let Some(x) = strip_lit(l, "MemTotal:") {
            total = parse_first_u64(x.as_slice());
        } else if let Some(x) = strip_lit(l, "MemAvailable:") {
            available = parse_first_u64(x.as_slice());
        }
        i = i + 1;
    }
    assert(v.take(i as int) == v);
    (total, available)
}

/// The index of the first line that starts with `p`.
pub open spec fn first_line_with(ls: Seq<Seq<char>>, p: Seq<char>) -> Option<int>
    decreases ls.len(),
{
    if ls.len() == 0 {
        None
    } else if has_prefix(ls[0], p) {
        Some(0)
    } else {
        match first_line_with(ls.drop_first(), p) {
            Some(i) => Some(i + 1),
            None => None,
        }
    }
}

proof fn lemma_first_line_with(ls: Seq<Seq<char>>, p: Seq<char>, i: int)
    requires
        0 <= i <= ls.len(),
        forall|k: int| 0 <= k < i ==> !has_prefix(#[trigger] ls[k], p),
    ensures
        first_line_with(ls, p) == match first_line_with(ls.skip(i), p) {
            Some(x) => Some(x + i),
            None => None::<int>,
        },
    decreases i,
{
    if i > 0 {
        assert(!has_prefix(ls[0], p));
        assert forall|k: int| 0 <= k < i - 1 implies !has_prefix(#[trigger] ls.drop_first()[k], p) by {
            assert(ls.drop_first()[k] == ls[k + 1]);
        }
        lemma_first_line_with(ls.drop_first(), p, i - 1);
        assert(ls.drop_first().skip(i - 1) == ls.skip(i));
    } else {
        assert(ls.skip(0) == ls);
    }
}

pub fn find_line(ls: &Vec<Vec<char>>, p: &str) -> (r: Option<usize>)
    ensures
        r matches Some(i) ==> i < ls.len() && first_line_with(vviews(ls@), p@) == Some(i as int)
            && has_prefix(ls@[i as int]@, p@),
        r is None ==> first_line_with(vviews(ls@), p@) is None,
{
    let ghost v = vviews(ls@);
    let pc = chars_of(p);
    let mut i: usize = 0;
    while i < ls.len()
        invariant
            i <= ls.len(),
            v == vviews(ls@),
            pc@ == p@,
            forall|k: int| 0 <= k < i ==> !has_prefix(#[trigger] v[k], p@),
        decreases ls.len() - i,
    {
        if starts_with(ls[i].as_slice(), pc.as_slice()) {
            proof {
                lemma_first_line_with(v, p@, i as int);
                assert(v.skip(i as int)[0] == v[i as int]);
            }
            return Some(i);
        }
        i = i + 1;
    }
    proof {
        lemma_first_line_with(v, p@, i as int);
    }
    None
}

/// The sum of the values, wrapping past `u64::MAX` as the release build of
/// `Iterator::sum` does.
pub open spec fn wrapping_sum(v: Seq<u64>) -> u64
    decreases v.len(),
{
    if v.len() == 0 {
        0
    } else {
        ((wrapping_sum(v.drop_last()) as int + v.last() as int) % 0x1_0000_0000_0000_0000) as u64
    }
}

pub open spec fn value_at(v: Seq<u64>, i: int) -> u64 {
    if 0 <= i < v.len() {
        v[i]
    } else {
        0
    }
}

/// The numbers after the `cpu` label, zero where one is not a number.
pub open spec fn cpu_values(line: Seq<char>) -> Seq<u64> {
    if words(line).len() == 0 {
        Seq::<u64>::empty()
    } else {
        words(line).skip(1).map_values(|w: Seq<char>| u64_or_zero(w))
    }
}

/// Total and idle (idle plus iowait) ticks of the aggregate `cpu ` line of
/// `/proc/stat`.
pub open spec fn cpu_ticks_spec(stat: Seq<char>) -> Result<(u64, u64), Seq<char>> {
    let ls = lines(stat);
    match first_line_with(ls, "cpu "@) {
        None => Err("missing aggregate CPU line in /proc/stat"@),
        Some(i) => {
            let v = cpu_values(ls[i]);
            Ok(
                (
                    wrapping_sum(v),
                    ((value_at(v, 3) as int + value_at(v, 4) as int) % 0x1_0000_0000_0000_0000) as u64,
                ),
            )
        },
    }
}

pub open spec fn ticks_view(r: Result<(u64, u64), String>) -> Result<(u64, u64), Seq<char>> {
    match r {
        Ok(t) => Ok(t),
        Err(e) => Err(e@),
    }
}

pub fn parse_cpu_ticks(stat: &str) -> (r: Result<(u64, u64), String>)
    ensures
        ticks_view(r) == cpu_ticks_spec(stat@),
{
    let c = chars_of(stat);
    let ls = lines_of(c.as_slice());
    let i = match find_line(&ls, "cpu ") {
        Some(i) => i,
        None => return Err(crate::text::owned("missing aggregate CPU line in /proc/stat")),
    };
    assert(vviews(ls@)[i as int] == ls@[i as int]@);
    let w = words_of(ls[i].as_slice());
    let ghost vals = cpu_values(ls@[i as int]@);
    let mut values: Vec<u64> = Vec::new();
    let mut total: u64 = 0;
    let mut k: usize = 1;
    while k < w.len()
        invariant
            1 <= k,
            k <= w.len() || w.len() == 0,
            w.len() == 0 ==> k == 1,
            vviews(w@) == words(ls@[i as int]@),
            vals == cpu_values(ls@[i as int]@),
            values@ == vals.take(k - 1),
            total == wrapping_sum(values@),
        decreases w.len() - k,
    {
        let n = match parse_u64_chars(w[k].as_slice()) {
            Some(n) => n,
            None => 0,
        };
        assert(vviews(w@)[k as int] == w@[k as int]@);
        assert(n == vals[k - 1]);
        let ghost before = values@;
        values.push(n);
        assert(values@.drop_last() == before);
        total = total.wrapping_add(n);
        k = k + 1;
        assert(values@ =~= vals.take(k - 1));
    }
    assert(vals.len() == if w.len() > 0 {
        w.len() - 1
    } else {
        0
    });
    if w.len() > 0 {
        assert(k == w.len());
        assert(vals.take(k - 1) == vals);
    } else {
        assert(values@.len() == 0);
    }
    assert(values@ =~= vals);
    let a: u64 = if values.len() > 3 {
        values[3]
    } else {
        0
    };
    let b: u64 = if values.len() > 4 {
        values[4]
    } else {
        0
    };
    Ok((total, a.wrapping_add(b)))
}

/// Whether a line of `/proc/stat` counts one CPU: its label is `cpu`
/// followed by one or more digits.
pub open spec fn is_cpu_line(line: Seq<char>) -> bool {
    let name = match first_word(line) {
        Some(w) => w,
        None => Seq::<char>::empty(),
    };
    &&& name.len() > 3
    &&& has_prefix(name, "cpu"@)
    &&& crate::text::all_digits(name.skip(3))
}

pub open spec fn count_cpu_lines(ls: Seq<Seq<char>>) -> nat
    decreases ls.len(),
{
    if ls.len() == 0 {
        0
    } else {
        count_cpu_lines(ls.drop_last()) + if is_cpu_line(ls.last()) {
            1nat
        } else {
            0nat
        }
    }
}

/// The number of CPUs that `/proc/stat` lists.
pub fn count_cpus(stat: &str) -> (n: u64)
    ensures
        n == count_cpu_lines(lines(stat@)),
{
    let c = chars_of(stat);
    let ls = lines_of(c.as_slice());
    let ghost v = vviews(ls@);
    let cpu = chars_of("cpu");
    let mut n: u64 = 0;
    let mut i: usize = 0;
    while i < ls.len()
        invariant
            i <= ls.len(),
            v == vviews(ls@),
            cpu@ == "cpu"@,
            n == count_cpu_lines(v.take(i as int)),
            n <= i,
        decreases ls.len() - i,
    {
        assert(v.take(i + 1).drop_last() == v.take(i as int));
        assert(v.take(i + 1).last() == ls@[i as int]@);
        let w = words_of(ls[i].as_slice());
        let name: Vec<char> = if w.len() > 0 {
            slice_skip(w[0].as_slice(), 0)
        } else {
            Vec::new()
        };
        assert(w.len() > 0 ==> vviews(w@)[0] == w@[0]@);
        assert(w.len() > 0 ==> w@[0]@.skip(0) == w@[0]@);
        assert(name@ == (match first_word(ls@[i as int]@) {
            Some(x) => x,
            None => Seq::<char>::empty(),
        }));
        if name.len() > 3 && starts_with(name.as_slice(), cpu.as_slice()) {
            let rest = slice_skip(name.as_slice(), 3);
            if crate::text::check_digits(rest.as_slice()) {
                n = n + 1;
            }
        }
        i = i + 1;
    }
    assert(v.take(i as int) == v);
    n
}

/// The field at `index` of the part of `/proc/PID/stat` after the command
/// name, as a number.
pub open spec fn stat_field(fields: Seq<Seq<char>>, index: int, name: Seq<char>) -> Result<
    u64,
    Seq<char>,
> {
    if index >= fields.len() {
        Err("missing "@ + name + " in process stat"@)
    } else {
        match parse_u64_spec(fields[index]) {
            Some(n) => Ok(n),
            None => Err("invalid "@ + name + " in process stat"@),
        }
    }
}

pub fn parse_field(fields: &Vec<Vec<char>>, index: usize, name: &str) -> (r: Result<u64, String>)
    ensures
        crate::cli::u64_result_view(r) == stat_field(vviews(fields@), index as int, name@),
{
    if index >= fields.len() {
        return Err(concat3("missing ", name, " in process stat"));
    }
    assert(vviews(fields@)[index as int] == fields@[index as int]@);
    match parse_u64_chars(fields[index].as_slice()) {
        Some(n) => Ok(n),
        None => Err(concat3("invalid ", name, " in process stat")),
    }
}

/// User plus system CPU ticks of a process, from `/proc/PID/stat`; the
/// fields count from the last `)`, which closes the command name.
pub open spec fn proc_ticks_spec(pid: i32, stat: Seq<char>) -> Result<u64, Seq<char>> {
    match rfind_char(stat, ')') {
        None => Err("invalid /proc/"@ + signed_decimal(pid as int) + "/stat"@),
        Some(end) => {
            let fields = words(stat.skip(end + 1));
            match stat_field(fields, 11, "utime"@) {
                Err(e) => Err(e),
                Ok(u) => match stat_field(fields, 12, "stime"@) {
                    Err(e) => Err(e),
                    Ok(s) => Ok(
                        if u as int + s as int > u64::MAX {
                            u64::MAX
                        } else {
                            (u + s) as u64
                        },
                    ),
                },
            }
        },
    }
}

pub fn parse_proc_ticks(pid: i32, stat: &str) -> (r: Result<u64, String>)
    ensures
        crate::cli::u64_result_view(r) == proc_ticks_spec(pid, stat@),
{
    let c = chars_of(stat);
    let end = match rposition(c.as_slice(), ')') {
        Some(e) => e,
        None => {
            let p = i32_to_string(pid);
            return Err(concat3("invalid /proc/", p.as_str(), "/stat"));
        },
    };
    let rest = slice_skip(c.as_slice(), end + 1);
    let fields = words_of(rest.as_slice());
    let utime = parse_field(&fields, 11, "utime")?;
    let stime = parse_field(&fields, 12, "stime")?;
    Ok(utime.saturating_add(stime))
}

/// The sample of a process from the contents of `/proc/PID/stat`,
/// `/proc/PID/status` and `/proc/PID/io` and the number of its open file
/// descriptors, or the error of reading each. A missing `io` file or
/// descriptor count leaves those figures out or zero.
pub open spec fn process_sample_spec(
    pid: i32,
    stat: Result<Seq<char>, Seq<char>>,
    status: Result<Seq<char>, Seq<char>>,
    io: Result<Seq<char>, Seq<char>>,
    fd_count: Result<u64, Seq<char>>,
) -> Result<ProcessSample, Seq<char>> {
    match stat {
        Err(e) => Err("failed to read process "@ + signed_decimal(pid as int) + ": "@ + e),
        Ok(st) => match proc_ticks_spec(pid, st) {
            Err(e) => Err(e),
            Ok(ticks) => match status {
                Err(e) => Err(
                    "failed to read process status "@ + signed_decimal(pid as int) + ": "@ + e,
                ),
                Ok(sts) => {
                    let (rss, vm, threads) = status_counts(lines(sts));
                    let (r, w) = match io {
                        Ok(i) => io_counts(lines(i)),
                        Err(_) => (None, None),
                    };
                    Ok(
                        ProcessSample {
                            cpu_time_micros: None,
                            proc_ticks: ticks,
                            rss_kb: rss,
                            vm_size_kb: vm,
                            threads,
                            file_descriptors: match fd_count {
                                Ok(n) => n,
                                Err(_) => 0,
                            },
                            read_bytes: r,
                            write_bytes: w,
                        },
                    )
                },
            },
        },
    }
}

pub open spec fn text_view(r: Result<String, String>) -> Result<Seq<char>, Seq<char>> {
    match r {
        Ok(s) => Ok(s@),
        Err(e) => Err(e@),
    }
}

pub open spec fn count_view(r: Result<u64, String>) -> Result<u64, Seq<char>> {
    match r {
        Ok(n) => Ok(n),
        Err(e) => Err(e@),
    }
}

pub open spec fn sample_view(r: Result<ProcessSample, String>) -> Result<ProcessSample, Seq<char>> {
    match r {
        Ok(s) => Ok(s),
        Err(e) => Err(e@),
    }
}

fn read_error(prefix: &str, pid: i32, err: &String) -> (s: String)
    ensures
        s@ == prefix@ + signed_decimal(pid as int) + ": "@ + err@,
{
    let p = i32_to_string(pid);
    let mut s = concat3(prefix, p.as_str(), ": ");
    s.append(err.as_str());
    s
}

/// The sample of process `pid` from what was read of its files under
/// `/proc`.
pub fn read_process_sample(
    pid: i32,
    stat: Result<String, String>,
    status: Result<String, String>,
    io: Result<String, String>,
    fd_count: Result<u64, String>,
) -> (r: Result<ProcessSample, String>)
    ensures
        sample_view(r) == process_sample_spec(
            pid,
            text_view(stat),
            text_view(status),
            text_view(io),
            count_view(fd_count),
        ),
{
    let stat = match stat {
        Ok(s) => s,
        Err(e) => return Err(read_error("failed to read process ", pid, &e)),
    };
    let proc_ticks = parse_proc_ticks(pid, stat.as_str())?;
    let status = match status {
        Ok(s) => s,
        Err(e) => return Err(read_error("failed to read process status ", pid, &e)),
    };
    let (rss_kb, vm_size_kb, threads) = parse_proc_status(status.as_str());
    let (read_bytes, write_bytes) = match io {
        Ok(text) => parse_proc_io(text.as_str()),
        Err(_) => (None, None),
    };
    let file_descriptors = match fd_count {
        Ok(n) => n,
        Err(_) => 0,
    };
    Ok(
        ProcessSample {
            cpu_time_micros: None,
            proc_ticks,
            rss_kb,
            vm_size_kb,
            threads,
            file_descriptors,
            read_bytes,
            write_bytes,
        },
    )
}

/// Where the command name is closed by a `)` and fields 11 and 12 after it
/// are numbers, and the status file was read, the sample holds the
/// saturating sum of those fields as its ticks, the `VmRSS`, `VmSize` and
/// `Threads` numbers of the status file (zero where absent), the I/O
/// counters of the io file (none where it could not be read), the
/// descriptor count (zero where it could not be counted), and no cgroup
/// CPU time.
pub proof fn lemma_process_sample_fields(
    pid: i32,
    stat: Seq<char>,
    status: Seq<char>,
    io: Result<Seq<char>, Seq<char>>,
    fd_count: Result<u64, Seq<char>>,
    end: int,
    utime: u64,
    stime: u64,
)
    requires
        rfind_char(stat, ')') == Some(end),
        stat_field(words(stat.skip(end + 1)), 11, "utime"@) == Ok::<u64, Seq<char>>(utime),
        stat_field(words(stat.skip(end + 1)), 12, "stime"@) == Ok::<u64, Seq<char>>(stime),
    ensures
        process_sample_spec(pid, Ok(stat), Ok(status), io, fd_count) == Ok::<
            ProcessSample,
            Seq<char>,
        >(
            ProcessSample {
                cpu_time_micros: None,
                proc_ticks: if utime as int + stime as int > u64::MAX {
                    u64::MAX
                } else {
                    (utime + stime) as u64
                },
                rss_kb: status_counts(lines(status)).0,
                vm_size_kb: status_counts(lines(status)).1,
                threads: status_counts(lines(status)).2,
                file_descriptors: match fd_count {
                    Ok(n) => n,
                    Err(_) => 0,
                },
                read_bytes: match io {
                    Ok(i) => io_counts(lines(i)).0,
                    Err(_) => None,
                },
                write_bytes: match io {
                    Ok(i) => io_counts(lines(i)).1,
                    Err(_) => None,
                },
            },
        ),
{
}

/// Reading one more line of `/proc/PID/io`: a line that starts with
/// `read_bytes:` or `write_bytes:` sets that counter to the number after
/// the label, and any other line (such as `cancelled_write_bytes:`) leaves
/// both counters as they were.
pub proof fn lemma_io_line(ls: Seq<Seq<char>>, l: Seq<char>)
    ensures
        has_prefix(l, "read_bytes:"@) ==> io_counts(ls.push(l)) == (
            Some(first_u64(l.skip(11))),
            io_counts(ls).1,
        ),
        has_prefix(l, "write_bytes:"@) ==> io_counts(ls.push(l)) == (
            io_counts(ls).0,
            Some(first_u64(l.skip(12))),
        ),
        !has_prefix(l, "read_bytes:"@) && !has_prefix(l, "write_bytes:"@) ==> io_counts(ls.push(l))
            == io_counts(ls),
{
    reveal_strlit("read_bytes:");
    reveal_strlit("write_bytes:");
    assert(ls.push(l).drop_last() =~= ls);
    assert(ls.push(l).last() == l);
    if has_prefix(l, "write_bytes:"@) {
        assert(l.take(12)[0] == l[0]);
        assert(!has_prefix(l, "read_bytes:"@)) by {
            if has_prefix(l, "read_bytes:"@) {
                assert(l.take(11)[0] == l[0]);
            }
        }
    }
}

/// Reading one more line of `/proc/PID/status`: `VmRSS:`, `VmSize:` and
/// `Threads:` lines set their figure to the number after the label, and
/// any other line leaves all three as they were.
pub proof fn lemma_status_line(ls: Seq<Seq<char>>, l: Seq<char>)
    ensures
        has_prefix(l, "VmRSS:"@) ==> status_counts(ls.push(l)) == (
            first_u64(l.skip(6)),
            status_counts(ls).1,
            status_counts(ls).2,
        ),
        has_prefix(l, "VmSize:"@) ==> status_counts(ls.push(l)) == (
            status_counts(ls).0,
            first_u64(l.skip(7)),
            status_counts(ls).2,
        ),
        has_prefix(l, "Threads:"@) ==> status_counts(ls.push(l)) == (
            status_counts(ls).0,
            status_counts(ls).1,
            first_u64(l.skip(8)),
        ),
        !has_prefix(l, "VmRSS:"@) && !has_prefix(l, "VmSize:"@) && !has_prefix(l, "Threads:"@)
            ==> status_counts(ls.push(l)) == status_counts(ls),
{
    reveal_strlit("VmRSS:");
    reveal_strlit("VmSize:");
    reveal_strlit("Threads:");
    assert(ls.push(l).drop_last() =~= ls);
    assert(ls.push(l).last() == l);
    if has_prefix(l, "VmSize:"@) || has_prefix(l, "Threads:"@) {
        assert(!has_prefix(l, "VmRSS:"@)) by {
            if has_prefix(l, "VmRSS:"@) {
                assert(l.take(6)[2] == l[2]);
                if has_prefix(l, "VmSize:"@) {
                    assert(l.take(7)[2] == l[2]);
                } else {
                    assert(l.take(8)[0] == l[0]);
                }
            }
        }
    }
    if has_prefix(l, "Threads:"@) {
        assert(!has_prefix(l, "VmSize:"@)) by {
            if has_prefix(l, "VmSize:"@) {
                assert(l.take(8)[0] == l[0]);
                assert(l.take(7)[0] == l[0]);
            }
        }
    }
}

/// Reading one more line of `/proc/meminfo`: `MemTotal:` and
/// `MemAvailable:` lines set their figure to the number after the label,
/// and any other line (such as `MemFree:`) leaves both as they were.
pub proof fn lemma_meminfo_line(ls: Seq<Seq<char>>, l: Seq<char>)
    ensures
        has_prefix(l, "MemTotal:"@) ==> meminfo_counts(ls.push(l)) == (
            first_u64(l.skip(9)),
            meminfo_counts(ls).1,
        ),
        has_prefix(l, "MemAvailable:"@) ==> meminfo_counts(ls.push(l)) == (
            meminfo_counts(ls).0,
            first_u64(l.skip(13)),
        ),
        !has_prefix(l, "MemTotal:"@) && !has_prefix(l, "MemAvailable:"@) ==> meminfo_counts(
            ls.push(l),
        ) == meminfo_counts(ls),
{
    reveal_strlit("MemTotal:");
    reveal_strlit("MemAvailable:");
    assert(ls.push(l).drop_last() =~= ls);
    assert(ls.push(l).last() == l);
    if has_prefix(l, "MemAvailable:"@) {
        assert(!has_prefix(l, "MemTotal:"@)) by {
            if has_prefix(l, "MemTotal:"@) {
                assert(l.take(9)[3] == l[3]);
                assert(l.take(13)[3] == l[3]);
            }
        }
    }
}

} // verus!
