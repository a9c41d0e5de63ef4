//! cgroup v2 counters of a container: where its cgroup lies, and its CPU
//! time, memory, task count and I/O.
use crate::collectors::procfs::{first_line_with, sample_view, text_view};
use crate::domain::metrics::ProcessSample;
use crate::text::{
    chars_of, concat, concat3, has_prefix, has_suffix, lines, lines_of, parse_u64_chars,
    parse_u64_spec, signed_decimal, slice_skip, split_char, split_chars, string_from, strip_prefix,
    strip_prefix_chars, trim, trim_chars, trim_start_char, trim_start_matches_char, vviews, words,
    words_of,
};
use vstd::prelude::*;

verus! {

/// The cgroup v2 directory of a process, from `/proc/PID/cgroup`: the
/// path of its `0::` line below `/sys/fs/cgroup`. A path with a `..`
/// component is refused.
pub open spec fn cgroup_directory_spec(pid: i32, contents: Result<Seq<char>, Seq<char>>) -> Result<
    Seq<char>,
    Seq<char>,
> {
    match contents {
        Err(e) => Err("failed to read cgroup for process "@ + signed_decimal(pid as int) + ": "@ + e),
        Ok(c) => {
            let ls = lines(c);
            match first_line_with(ls, "0::"@) {
                None => Err("process is not attached to a cgroup v2 hierarchy"@),
                Some(i) => {
                    let relative = ls[i].skip(3);
                    if split_char(relative, '/').contains(".."@) {
                        Err("invalid cgroup path"@)
                    } else {
                        Ok("/sys/fs/cgroup/"@ + trim_start_char(relative, '/'))
                    }
                },
            }
        },
    }
}

pub open spec fn string_result_view(r: Result<String, String>) -> Result<Seq<char>, Seq<char>> {
    match r {
        Ok(s) => Ok(s@),
        Err(e) => Err(e@),
    }
}

fn find_line_with(ls: &Vec<Vec<char>>, p: &str) -> (r: Option<usize>)
    ensures
        r matches Some(i) ==> i < ls.len() && first_line_with(vviews(ls@), p@) == Some(i as int)
            && has_prefix(ls@[i as int]@, p@),
        r is None ==> first_line_with(vviews(ls@), p@) is None,
{
    crate::collectors::procfs::find_line(ls, p)
}

fn has_dotdot(parts: &Vec<Vec<char>>) -> (b: bool)
    ensures
        b == vviews(parts@).contains(".."@),
{
    let ghost v = vviews(parts@);
    let dd = chars_of("..");
    let mut i: usize = 0;
    while i < parts.len()
        invariant
            i <= parts.len(),
            v == vviews(parts@),
            dd@ == ".."@,
            forall|k: int| 0 <= k < i ==> v[k] != ".."@,
        decreases parts.len() - i,
    {
        if crate::text::seq_eq(parts[i].as_slice(), dd.as_slice()) {
            assert(v[i as int] == ".."@);
            return true;
        }
        i = i + 1;
    }
    false
}

/// The cgroup directory of process `pid`, from what was read of its
/// `/proc/PID/cgroup`.
pub fn cgroup_directory(pid: i32, contents: Result<String, String>) -> (r: Result<String, String>)
    ensures
        string_result_view(r) == cgroup_directory_spec(pid, text_view(contents)),
{
    let contents = match contents {
        Ok(c) => c,
        Err(e) => {
            let p = crate::text::i32_to_string(pid);
            let mut m = concat3("failed to read cgroup for process ", p.as_str(), ": ");
            m.append(e.as_str());
            return Err(m);
        },
    };
    let c = chars_of(contents.as_str());
    let ls = lines_of(c.as_slice());
    let i = match find_line_with(&ls, "0::") {
        Some(i) => i,
        None => return Err(crate::text::owned("process is not attached to a cgroup v2 hierarchy")),
    };
    assert(vviews(ls@)[i as int] == ls@[i as int]@);
    proof {
        reveal_strlit("0::");
    }
    let relative = slice_skip(ls[i].as_slice(), 3);
    let parts = split_chars(relative.as_slice(), '/');
    if has_dotdot(&parts) {
        return Err(crate::text::owned("invalid cgroup path"));
    }
    let trimmed = trim_start_matches_char(relative.as_slice(), '/');
    let t = string_from(trimmed.as_slice());
    Ok(concat("/sys/fs/cgroup/", t.as_str()))
}

/// `Path::join` of a file name onto a directory.
pub open spec fn join_path(dir: Seq<char>, name: Seq<char>) -> Seq<char> {
    if has_suffix(dir, "/"@) {
        dir + name
    } else {
        dir + "/"@ + name
    }
}

/// The path of a file in a cgroup directory.
pub fn cgroup_file(directory: &str, name: &str) -> (p: String)
    ensures
        p@ == join_path(directory@, name@),
{
    let d = chars_of(directory);
    proof {
        reveal_strlit("/");
    }
    if d.len() > 0 && d[d.len() - 1] == '/' {
        assert(d@.skip(d@.len() - 1) =~= "/"@);
        concat(directory, name)
    } else {
        assert(!has_suffix(directory@, "/"@)) by {
            if has_suffix(directory@, "/"@) {
                assert(d@.skip(d@.len() - 1)[0] == d@[d@.len() - 1]);
            }
        }
        concat3(directory, "/", name)
    }
}

/// The value of the first line whose first field is `key` and whose second
/// field is a number.
pub open spec fn keyed_u64(ls: Seq<Seq<char>>, key: Seq<char>) -> Option<u64>
    decreases ls.len(),
{
    if ls.len() == 0 {
        None
    } else {
        let f = words(ls[0]);
        let here = if f.len() >= 1 && f[0] == key && f.len() >= 2 {
            parse_u64_spec(f[1])
        } else {
            None
        };
        match here {
            Some(n) => Some(n),
            None => keyed_u64(ls.drop_first(), key),
        }
    }
}

/// The value of `key` in a flat-keyed file such as `cpu.stat`.
pub fn parse_keyed_u64(contents: &str, key: &str) -> (r: Option<u64>)
    ensures
        r == keyed_u64(lines(contents@), key@),
{
    let c = chars_of(contents);
    let k = chars_of(key);
    let ls = lines_of(c.as_slice());
    let ghost v = vviews(ls@);
    let mut i: usize = 0;
    assert(v.skip(0) == v);
    while i < ls.len()
        invariant
            i <= ls.len(),
            v == vviews(ls@),
            k@ == key@,
            v == lines(contents@),
            keyed_u64(v, key@) == keyed_u64(v.skip(i as int), key@),
        decreases ls.len() - i,
    {
        assert(v.skip(i as int)[0] == ls@[i as int]@);
        assert(v.skip(i as int).drop_first() == v.skip(i + 1));
        let f = words_of(ls[i].as_slice());
        if f.len() >= 2 && crate::text::seq_eq(f[0].as_slice(), k.as_slice()) {
            assert(vviews(f@)[0] == f@[0]@);
            assert(vviews(f@)[1] == f@[1]@);
            if let Some(n) = parse_u64_chars(f[1].as_slice()) {
                assert(words(v.skip(i as int)[0]) == vviews(f@));
                assert(keyed_u64(v.skip(i as int), key@) == Some(n));
                return Some(n);
            }
        }
        i = i + 1;
    }
    None
}

/// A file that holds one number, such as `memory.current`.
pub open spec fn single_u64(contents: Seq<char>) -> Option<u64> {
    parse_u64_spec(trim(contents))
}

pub fn parse_single_u64(contents: &str) -> (r: Option<u64>)
    ensures
        r == single_u64(contents@),
{
    let t = crate::text::trim_str(contents);
    parse_u64_chars(t.as_slice())
}

pub open spec fn sat_add(a: u64, b: u64) -> u64 {
    if a as int + b as int > u64::MAX {
        u64::MAX
    } else {
        (a + b) as u64
    }
}

/// The byte counters of the fields of one `io.stat` line, added to `acc`:
/// `rbytes=` to the first, `wbytes=` to the second; the third tells
/// whether any was seen.
pub open spec fn io_fields(fs: Seq<Seq<char>>, acc: (u64, u64, bool)) -> (u64, u64, bool)
    decreases fs.len(),
{
    if fs.len() == 0 {
        acc
    } else {
        let prev = io_fields(fs.drop_last(), acc);
        let f = fs.last();
        match strip_prefix(f, "rbytes="@) {
            Some(x) => (sat_add(prev.0, crate::collectors::procfs::u64_or_zero(x)), prev.1, true),
            None => match strip_prefix(f, "wbytes="@) {
                Some(x) => (prev.0, sat_add(prev.1, crate::collectors::procfs::u64_or_zero(x)), true),
                None => prev,
            },
        }
    }
}

/// The fields of a line after its device label.
pub open spec fn after_label(l: Seq<char>) -> Seq<Seq<char>> {
    if words(l).len() == 0 {
        Seq::<Seq<char>>::empty()
    } else {
        words(l).skip(1)
    }
}

pub open spec fn io_lines(ls: Seq<Seq<char>>) -> (u64, u64, bool)
    decreases ls.len(),
{
    if ls.len() == 0 {
        (0, 0, false)
    } else {
        io_fields(after_label(ls.last()), io_lines(ls.drop_last()))
    }
}

/// Bytes read and written over all devices of a cgroup's `io.stat`, or
/// none where no device reports them.
pub open spec fn io_stat_spec(contents: Seq<char>) -> (Option<u64>, Option<u64>) {
    let t = io_lines(lines(contents));
    if t.2 {
        (Some(t.0), Some(t.1))
    } else {
        (None, None)
    }
}

fn field_number(x: &Vec<char>) -> (n: u64)
    ensures
        n == crate::collectors::procfs::u64_or_zero(x@),
{
    match parse_u64_chars(x.as_slice()) {
        Some(n) => n,
        None => 0,
    }
}

fn add_io_fields(fs: &Vec<Vec<char>>, start: usize, acc: (u64, u64, bool)) -> (r: (u64, u64, bool))
    requires
        start <= fs.len(),
    ensures
        r == io_fields(vviews(fs@).skip(start as int), acc),
{
    let ghost v = vviews(fs@).skip(start as int);
    let mut read = acc.0;
    let mut write = acc.1;
    let mut found = acc.2;
    let mut i: usize = start;
    assert(v.take(0) =~= Seq::<Seq<char>>::empty());
    while i < fs.len()
        invariant
            start <= i <= fs.len(),
            v == vviews(fs@).skip(start as int),
            (read, write, found) == io_fields(v.take(i - start), acc),
        decreases fs.len() - i,
    {
        assert(v.take(i + 1 - start).drop_last() == v.take(i - start));
        assert(v.take(i + 1 - start).last() == fs@[i as int]@);
        let f = fs[i].as_slice();
        let rb = chars_of("rbytes=");
        let wb = chars_of("wbytes=");
        if let Some(x) = strip_prefix_chars(f, rb.as_slice()) {
            read = read.saturating_add(field_number(&x));
            found = true;
        } else if let Some(x) = strip_prefix_chars(f, wb.as_slice()) {
            write = write.saturating_add(field_number(&x));
            found = true;
        }
        i = i + 1;
    }
    assert(v.take(i - start) == v);
    (read, write, found)
}

/// Bytes read and written by a cgroup, from its `io.stat`.
pub fn parse_io_stat(contents: &str) -> (r: (Option<u64>, Option<u64>))
    ensures
        r == io_stat_spec(contents@),
{
    let c = chars_of(contents);
    let ls = lines_of(c.as_slice());
    let ghost v = vviews(ls@);
    let mut acc: (u64, u64, bool) = (0, 0, false);
    let mut i: usize = 0;
    while i < ls.len()
        invariant
            i <= ls.len(),
            v == vviews(ls@),
            acc == io_lines(v.take(i as int)),
        decreases ls.len() - i,
    {
        assert(v.take(i + 1).drop_last() == v.take(i as int));
        assert(v.take(i + 1).last() == ls@[i as int]@);
        let f = words_of(ls[i].as_slice());
        if f.len() > 0 {
            acc = add_io_fields(&f, 1, acc);
        } else {
            assert(after_label(ls@[i as int]@) =~= Seq::<Seq<char>>::empty());
        }
        i = i + 1;
    }
    assert(v.take(i as int) == v);
    if acc.2 {
        (Some(acc.0), Some(acc.1))
    } else {
        (None, None)
    }
}

/// The sample of a container: the process sample of its main process,
/// with CPU time and memory from its cgroup, and task count and I/O from
/// the cgroup where those files could be read.
pub open spec fn container_sample_spec(
    process: ProcessSample,
    directory: Seq<char>,
    cpu_stat: Result<Seq<char>, Seq<char>>,
    memory_current: Result<Seq<char>, Seq<char>>,
    pids_current: Result<Seq<char>, Seq<char>>,
    io_stat: Result<Seq<char>, Seq<char>>,
) -> Result<ProcessSample, Seq<char>> {
    let cpu_path = join_path(directory, "cpu.stat"@);
    let memory_path = join_path(directory, "memory.current"@);
    match cpu_stat {
        Err(e) => Err("failed to read "@ + cpu_path + ": "@ + e),
        Ok(cs) => match keyed_u64(lines(cs), "usage_usec"@) {
            None => Err("missing usage_usec in "@ + cpu_path),
            Some(micros) => match memory_current {
                Err(e) => Err("failed to read "@ + memory_path + ": "@ + e),
                Ok(mc) => match single_u64(mc) {
                    None => Err("invalid value in "@ + memory_path),
                    Some(memory) => {
                        let tasks = match pids_current {
                            Ok(p) => match single_u64(p) {
                                Some(n) => n,
                                None => process.threads,
                            },
                            Err(_) => process.threads,
                        };
                        let io = match io_stat {
                            Ok(s) => io_stat_spec(s),
                            Err(_) => (process.read_bytes, process.write_bytes),
                        };
                        Ok(
                            ProcessSample {
                                cpu_time_micros: Some(micros),
                                proc_ticks: process.proc_ticks,
                                rss_kb: memory / 1024,
                                vm_size_kb: process.vm_size_kb,
                                threads: tasks,
                                file_descriptors: process.file_descriptors,
                                read_bytes: io.0,
                                write_bytes: io.1,
                            },
                        )
                    },
                },
            },
        },
    }
}

fn read_failure(path: &String, err: &String) -> (s: String)
    ensures
        s@ == "failed to read "@ + path@ + ": "@ + err@,
{
    let mut s = concat3("failed to read ", path.as_str(), ": ");
    s.append(err.as_str());
    s
}

/// The sample of a container from its process sample and what was read of
/// the files of its cgroup `directory`.
pub fn read_container_sample(
    process: &ProcessSample,
    directory: &str,
    cpu_stat: Result<String, String>,
    memory_current: Result<String, String>,
    pids_current: Result<String, String>,
    io_stat: Result<String, String>,
) -> (r: Result<ProcessSample, String>)
    ensures
        sample_view(r) == container_sample_spec(
            *process,
            directory@,
            text_view(cpu_stat),
            text_view(memory_current),
            text_view(pids_current),
            text_view(io_stat),
        ),
{
    let cpu_path = cgroup_file(directory, "cpu.stat");
    let memory_path = cgroup_file(directory, "memory.current");
    let cpu_time_micros = match cpu_stat {
        Err(e) => return Err(read_failure(&cpu_path, &e)),
        Ok(text) => match parse_keyed_u64(text.as_str(), "usage_usec") {
            Some(n) => n,
            None => return Err(concat("missing usage_usec in ", cpu_path.as_str())),
        },
    };
    let memory_bytes = match memory_current {
        Err(e) => return Err(read_failure(&memory_path, &e)),
        Ok(text) => match parse_single_u64(text.as_str()) {
            Some(n) => n,
            None => return Err(concat("invalid value in ", memory_path.as_str())),
        },
    };
    let tasks = match pids_current {
        Ok(text) => match parse_single_u64(text.as_str()) {
            Some(n) => n,
            None => process.threads,
        },
        Err(_) => process.threads,
    };
    let (read_bytes, write_bytes) = match io_stat {
        Ok(text) => parse_io_stat(text.as_str()),
        Err(_) => (process.read_bytes, process.write_bytes),
    };
    Ok(
        ProcessSample {
            cpu_time_micros: Some(cpu_time_micros),
            proc_ticks: process.proc_ticks,
            rss_kb: memory_bytes / 1024,
            vm_size_kb: process.vm_size_kb,
            threads: tasks,
            file_descriptors: process.file_descriptors,
            read_bytes,
            write_bytes,
        },
    )
}

/// A cgroup path with a `..` component is refused; any other `0::` path
/// lies below `/sys/fs/cgroup`.
pub proof fn lemma_cgroup_path(pid: i32, contents: Seq<char>, i: int)
    requires
        first_line_with(lines(contents), "0::"@) == Some(i),
    ensures
        split_char(lines(contents)[i].skip(3), '/').contains(".."@) ==> cgroup_directory_spec(
            pid,
            Ok(contents),
        ) == Err::<Seq<char>, Seq<char>>("invalid cgroup path"@),
        !split_char(lines(contents)[i].skip(3), '/').contains(".."@) ==> cgroup_directory_spec(
            pid,
            Ok(contents),
        ) == Ok::<Seq<char>, Seq<char>>(
            "/sys/fs/cgroup/"@ + trim_start_char(lines(contents)[i].skip(3), '/'),
        ),
{
}

/// Where `cpu.stat` holds `usage_usec` and `memory.current` a number, the
/// container sample takes its CPU time and memory from them, its task count
/// from `pids.current` (the process's threads where that cannot be read),
/// its I/O from `io.stat` (the process's counters where that cannot be
/// read), and the rest from the process sample.
pub proof fn lemma_container_sample_fields(
    process: ProcessSample,
    directory: Seq<char>,
    cpu_stat: Seq<char>,
    memory_current: Seq<char>,
    pids_current: Result<Seq<char>, Seq<char>>,
    io_stat: Result<Seq<char>, Seq<char>>,
    usage: u64,
    memory: u64,
)
    requires
        keyed_u64(lines(cpu_stat), "usage_usec"@) == Some(usage),
        single_u64(memory_current) == Some(memory),
    ensures
        container_sample_spec(
            process,
            directory,
            Ok(cpu_stat),
            Ok(memory_current),
            pids_current,
            io_stat,
        ) == Ok::<ProcessSample, Seq<char>>(
            ProcessSample {
                cpu_time_micros: Some(usage),
                proc_ticks: process.proc_ticks,
                rss_kb: memory / 1024,
                vm_size_kb: process.vm_size_kb,
                threads: match pids_current {
                    Ok(p) => match single_u64(p) {
                        Some(n) => n,
                        None => process.threads,
                    },
                    Err(_) => process.threads,
                },
                file_descriptors: process.file_descriptors,
                read_bytes: match io_stat {
                    Ok(t) => io_stat_spec(t).0,
                    Err(_) => process.read_bytes,
                },
                write_bytes: match io_stat {
                    Ok(t) => io_stat_spec(t).1,
                    Err(_) => process.write_bytes,
                },
            },
        ),
{
}

/// A flat-keyed file is read from the top: a line whose first field is the
/// key and whose second field is a number gives that number, whatever
/// follows it, and a line whose first field is another key is passed over.
pub proof fn lemma_keyed_first_line(l: Seq<char>, ls: Seq<Seq<char>>, key: Seq<char>)
    ensures
        words(l).len() >= 2 && words(l)[0] == key && parse_u64_spec(words(l)[1]) is Some
            ==> keyed_u64(seq![l] + ls, key) == parse_u64_spec(words(l)[1]),
        (words(l).len() == 0 || words(l)[0] != key) ==> keyed_u64(seq![l] + ls, key) == keyed_u64(
            ls,
            key,
        ),
{
    assert((seq![l] + ls)[0] == l);
    assert((seq![l] + ls).drop_first() =~= ls);
}

} // verus!
