//! The `/proc` readers of the single-target releases: the same files as
//! `collectors::procfs`, read strictly, so that a malformed value is an
//! error rather than a zero, with messages in Spanish.
use crate::collectors::procfs::{first_line_with, value_at, wrapping_sum};
use crate::text::{
    has_prefix,
    chars_of, concat, concat3, first_word, i32_to_string, lines, lines_of, owned, parse_u64_chars,
    parse_u64_spec, rfind_char, rposition, signed_decimal, slice_skip, strip_prefix,
    strip_prefix_chars, trim, trim_chars, vviews, words, words_of,
};
use vstd::prelude::*;

verus! {

/// A value in kB of `/proc/PID/status` or `/proc/meminfo`: its first
/// field, which must be a number.
pub open spec fn status_kb_spec(value: Seq<char>) -> Result<u64, Seq<char>> {
    match first_word(value) {
        None => Err("valor kB vacio en /proc/<pid>/status"@),
        Some(w) => match parse_u64_spec(w) {
            Some(n) => Ok(n),
            None => Err("valor kB invalido en /proc/<pid>/status"@),
        },
    }
}

pub fn parse_status_kb(value: &[char]) -> (r: Result<u64, String>)
    ensures
        crate::cli::u64_result_view(r) == status_kb_spec(value@),
{
    let w = words_of(value);
    if w.len() == 0 {
        return Err(owned("valor kB vacio en /proc/<pid>/status"));
    }
    assert(vviews(w@)[0] == w@[0]@);
    match parse_u64_chars(w[0].as_slice()) {
        Some(n) => Ok(n),
        None => Err(owned("valor kB invalido en /proc/<pid>/status")),
    }
}

/// The field at `index` after the command name of `/proc/PID/stat`.
pub open spec fn stat_field_spec(fields: Seq<Seq<char>>, index: int, name: Seq<char>) -> Result<
    u64,
    Seq<char>,
> {
    if index < 0 || index >= fields.len() {
        Err("no encontre "@ + name + " en /proc/<pid>/stat"@)
    } else {
        match parse_u64_spec(fields[index]) {
            Some(n) => Ok(n),
            None => Err(name + " invalido en /proc/<pid>/stat"@),
        }
    }
}

pub fn parse_stat_field(fields: &Vec<Vec<char>>, index: usize, name: &str) -> (r: Result<
    u64,
    String,
>)
    ensures
        crate::cli::u64_result_view(r) == stat_field_spec(vviews(fields@), index as int, name@),
{
    if index >= fields.len() {
        return Err(concat3("no encontre ", name, " en /proc/<pid>/stat"));
    }
    assert(vviews(fields@)[index as int] == fields@[index as int]@);
    match parse_u64_chars(fields[index].as_slice()) {
        Some(n) => Ok(n),
        None => Err(concat(name, " invalido en /proc/<pid>/stat")),
    }
}

pub open spec fn wrapping_add(a: u64, b: u64) -> u64 {
    ((a as int + b as int) % 0x1_0000_0000_0000_0000) as u64
}

/// User plus system ticks of a process, both fields required.
pub open spec fn proc_ticks_spec(pid: i32, stat: Seq<char>) -> Result<u64, Seq<char>> {
    match rfind_char(stat, ')') {
        None => Err("formato invalido en /proc/"@ + signed_decimal(pid as int) + "/stat"@),
        Some(end) => {
            let fields = words(stat.skip(end + 1));
            match stat_field_spec(fields, 11, "utime"@) {
                Err(e) => Err(e),
                Ok(u) => match stat_field_spec(fields, 12, "stime"@) {
                    Err(e) => Err(e),
                    Ok(s) => Ok(wrapping_add(u, s)),
                },
            }
        },
    }
}

pub fn parse_proc_ticks(pid: i32, stat: &str) -> (r: Result<u64, String>)
    ensures
        crate::cli::u64_result_view(r) == proc_ticks_spec(pid, stat@),
{
    let c = chars_of(stat);
    let end = match rposition(c.as_slice(), ')') {
        Some(e) => e,
        None => {
            let p = i32_to_string(pid);
            return Err(concat3("formato invalido en /proc/", p.as_str(), "/stat"));
        },
    };
    let rest = slice_skip(c.as_slice(), end + 1);
    let fields = words_of(rest.as_slice());
    let utime = parse_stat_field(&fields, 11, "utime")?;
    let stime = parse_stat_field(&fields, 12, "stime")?;
    Ok(utime.wrapping_add(stime))
}

/// `VmRSS`, `VmSize` and `Threads` of `/proc/PID/status`; a malformed value
/// is an error, a missing one zero.
pub open spec fn status_spec(ls: Seq<Seq<char>>) -> Result<(u64, u64, u64), Seq<char>>
    decreases ls.len(),
{
    if ls.len() == 0 {
        Ok((0, 0, 0))
    } else {
        match status_spec(ls.drop_last()) {
            Err(e) => Err(e),
            Ok(prev) => {
                let l = ls.last();
                match strip_prefix(l, "VmRSS:"@) {
                    Some(x) => match status_kb_spec(x) {
                        Ok(n) => Ok((n, prev.1, prev.2)),
                        Err(e) => Err(e),
                    },
                    None => match strip_prefix(l, "VmSize:"@) {
                        Some(x) => match status_kb_spec(x) {
                            Ok(n) => Ok((prev.0, n, prev.2)),
                            Err(e) => Err(e),
                        },
                        None => match strip_prefix(l, "Threads:"@) {
                            Some(x) => match parse_u64_spec(trim(x)) {
                                Some(n) => Ok((prev.0, prev.1, n)),
                                None => Err("Threads invalido en /proc/<pid>/status"@),
                            },
                            None => Ok(prev),
                        },
                    },
                }
            },
        }
    }
}

pub open spec fn triple_view(r: Result<(u64, u64, u64), String>) -> Result<(u64, u64, u64), Seq<char>> {
    match r {
        Ok(t) => Ok(t),
        Err(e) => Err(e@),
    }
}

fn strip_lit(l: &[char], p: &str) -> (r: Option<Vec<char>>)
    ensures
        r matches Some(v) ==> strip_prefix(l@, p@) == Some(v@),
        r is None ==> strip_prefix(l@, p@) is None,
{
    let pc = chars_of(p);
    strip_prefix_chars(l, pc.as_slice())
}

pub fn parse_proc_status(status: &str) -> (r: Result<(u64, u64, u64), String>)
    ensures
        triple_view(r) == status_spec(lines(status@)),
{
    let c = chars_of(status);
    let ls = lines_of(c.as_slice());
    let ghost v = vviews(ls@);
    let mut rss: u64 = 0;
    let mut vm_size: u64 = 0;
    let mut threads: u64 = 0;
    let mut i: usize = 0;
    while i < ls.len()
        invariant
            i <= ls.len(),
            v == vviews(ls@),
            v == lines(status@),
            status_spec(v.take(i as int)) == Ok::<(u64, u64, u64), Seq<char>>(
                (rss, vm_size, threads),
            ),
        decreases ls.len() - i,
    {
        let l = ls[i].as_slice();
        assert(v.take(i + 1).drop_last() == v.take(i as int));
        assert(v.take(i + 1).last() == l@);
        proof {
            lemma_status_prefix_error(v, i as int);
        }
        if let Some(x) = strip_lit(l, "VmRSS:") {
            rss = parse_status_kb(x.as_slice())?;
        } else if let Some(x) = strip_lit(l, "VmSize:") {
            vm_size = parse_status_kb(x.as_slice())?;
        } else if let Some(x) = strip_lit(l, "Threads:") {
            let t = trim_chars(x.as_slice());
            match parse_u64_chars(t.as_slice()) {
                Some(n) => threads = n,
                None => return Err(owned("Threads invalido en /proc/<pid>/status")),
            }
        }
        i = i + 1;
    }
    assert(v.take(i as int) == v);
    Ok((rss, vm_size, threads))
}

proof fn lemma_status_error_stays(ls: Seq<Seq<char>>, i: int, j: int)
    requires
        0 <= i < j <= ls.len(),
        status_spec(ls.take(i + 1)) is Err,
    ensures
        status_spec(ls.take(j)) == status_spec(ls.take(i + 1)),
    decreases j,
{
    if j > i + 1 {
        lemma_status_error_stays(ls, i, j - 1);
        assert(ls.take(j).drop_last() == ls.take(j - 1));
    }
}

/// An error at line `i` is the error of the whole file.
proof fn lemma_status_prefix_error(ls: Seq<Seq<char>>, i: int)
    requires
        0 <= i < ls.len(),
    ensures
        status_spec(ls.take(i + 1)) is Err ==> status_spec(ls) == status_spec(ls.take(i + 1)),
{
    if status_spec(ls.take(i + 1)) is Err {
        lemma_status_error_stays(ls, i, ls.len() as int);
        assert(ls.take(ls.len() as int) == ls);
    }
}

/// `MemTotal` and `MemAvailable` of `/proc/meminfo`; both are required and
/// a malformed value is an error.
pub open spec fn meminfo_fold(ls: Seq<Seq<char>>) -> Result<(Option<u64>, Option<u64>), Seq<char>>
    decreases ls.len(),
{
    if ls.len() == 0 {
        Ok((None, None))
    } else {
        match meminfo_fold(ls.drop_last()) {
            Err(e) => Err(e),
            Ok(prev) => {
                let l = ls.last();
                match strip_prefix(l, "MemTotal:"@) {
                    Some(x) => match status_kb_spec(x) {
                        Ok(n) => Ok((Some(n), prev.1)),
                        Err(e) => Err(e),
                    },
                    None => match strip_prefix(l, "MemAvailable:"@) {
                        Some(x) => match status_kb_spec(x) {
                            Ok(n) => Ok((prev.0, Some(n))),
                            Err(e) => Err(e),
                        },
                        None => Ok(prev),
                    },
                }
            },
        }
    }
}

pub open spec fn meminfo_spec(meminfo: Seq<char>) -> Result<(u64, u64), Seq<char>> {
    match meminfo_fold(lines(meminfo)) {
        Err(e) => Err(e),
        Ok((t, a)) => match t {
            None => Err("MemTotal no encontrado en /proc/meminfo"@),
            Some(total) => match a {
                None => Err("MemAvailable no encontrado en /proc/meminfo"@),
                Some(available) => Ok((total, available)),
            },
        },
    }
}

proof fn lemma_meminfo_error_stays(ls: Seq<Seq<char>>, i: int, j: int)
    requires
        0 <= i < j <= ls.len(),
        meminfo_fold(ls.take(i + 1)) is Err,
    ensures
        meminfo_fold(ls.take(j)) == meminfo_fold(ls.take(i + 1)),
    decreases j,
{
    if j > i + 1 {
        lemma_meminfo_error_stays(ls, i, j - 1);
        assert(ls.take(j).drop_last() == ls.take(j - 1));
    }
}

proof fn lemma_meminfo_prefix_error(ls: Seq<Seq<char>>, i: int)
    requires
        0 <= i < ls.len(),
    ensures
        meminfo_fold(ls.take(i + 1)) is Err ==> meminfo_fold(ls) == meminfo_fold(ls.take(i + 1)),
{
    if meminfo_fold(ls.take(i + 1)) is Err {
        lemma_meminfo_error_stays(ls, i, ls.len() as int);
        assert(ls.take(ls.len() as int) == ls);
    }
}

pub fn parse_meminfo(meminfo: &str) -> (r: Result<(u64, u64), String>)
    ensures
        crate::collectors::procfs::ticks_view(r) == meminfo_spec(meminfo@),
{
    let c = chars_of(meminfo);
    let ls = lines_of(c.as_slice());
    let ghost v = vviews(ls@);
    let mut total: Option<u64> = None;
    let mut available: Option<u64> = None;
    let mut i: usize = 0;
    while i < ls.len()
        invariant
            i <= ls.len(),
            v == vviews(ls@),
            v == lines(meminfo@),
            meminfo_fold(v.take(i as int)) == Ok::<(Option<u64>, Option<u64>), Seq<char>>(
                (total, available),
            ),
        decreases ls.len() - i,
    {
        let l = ls[i].as_slice();
        assert(v.take(i + 1).drop_last() == v.take(i as int));
        assert(v.take(i + 1).last() == l@);
        proof {
            lemma_meminfo_prefix_error(v, i as int);
        }
        if let Some(x) = strip_lit(l, "MemTotal:") {
            total = Some(parse_status_kb(x.as_slice())?);
        } else if let Some(x) = strip_lit(l, "MemAvailable:") {
            available = Some(parse_status_kb(x.as_slice())?);
        }
        i = i + 1;
    }
    assert(v.take(i as int) == v);
    let total = match total {
        Some(t) => t,
        None => return Err(owned("MemTotal no encontrado en /proc/meminfo")),
    };
    let available = match available {
        Some(a) => a,
        None => return Err(owned("MemAvailable no encontrado en /proc/meminfo")),
    };
    Ok((total, available))
}

/// The numbers after the label of a line, all required.
pub open spec fn strict_values(fs: Seq<Seq<char>>) -> Option<Seq<u64>>
    decreases fs.len(),
{
    if fs.len() == 0 {
        Some(Seq::<u64>::empty())
    } else {
        match strict_values(fs.drop_last()) {
            None => None,
            Some(prev) => match parse_u64_spec(fs.last()) {
                Some(n) => Some(prev.push(n)),
                None => None,
            },
        }
    }
}

/// Total and idle (idle plus iowait) ticks of the first line of
/// `/proc/stat`, every field of which must be a number.
pub open spec fn cpu_ticks_spec(stat: Seq<char>) -> Result<(u64, u64), Seq<char>> {
    let ls = lines(stat);
    if ls.len() == 0 {
        Err("no pude leer la primera linea de /proc/stat"@)
    } else {
        let w = words(ls[0]);
        let fields = if w.len() == 0 {
            Seq::<Seq<char>>::empty()
        } else {
            w.skip(1)
        };
        match strict_values(fields) {
            None => Err("formato invalido en /proc/stat"@),
            Some(v) => Ok((wrapping_sum(v), wrapping_add(value_at(v, 3), value_at(v, 4)))),
        }
    }
}

proof fn lemma_strict_values_prefix(fs: Seq<Seq<char>>, i: int, j: int)
    requires
        0 <= i <= j <= fs.len(),
        strict_values(fs.take(i)) is None,
    ensures
        strict_values(fs.take(j)) is None,
    decreases j,
{
    if j > i {
        lemma_strict_values_prefix(fs, i, j - 1);
        assert(fs.take(j).drop_last() == fs.take(j - 1));
    }
}

pub fn parse_cpu_ticks(stat: &str) -> (r: Result<(u64, u64), String>)
    ensures
        crate::collectors::procfs::ticks_view(r) == cpu_ticks_spec(stat@),
{
    let c = chars_of(stat);
    let ls = lines_of(c.as_slice());
    if ls.len() == 0 {
        return Err(owned("no pude leer la primera linea de /proc/stat"));
    }
    assert(vviews(ls@)[0] == ls@[0]@);
    let w = words_of(ls[0].as_slice());
    let ghost fields = if w.len() == 0 {
        Seq::<Seq<char>>::empty()
    } else {
        vviews(w@).skip(1)
    };
    let mut values: Vec<u64> = Vec::new();
    let mut total: u64 = 0;
    let mut k: usize = 1;
    while k < w.len()
        invariant
            1 <= k,
            ls.len() > 0,
            vviews(ls@) == lines(stat@),
            k <= w.len() || w.len() == 0,
            w.len() == 0 ==> k == 1,
            vviews(w@) == words(ls@[0]@),
            fields == (if w.len() == 0 {
                Seq::<Seq<char>>::empty()
            } else {
                vviews(w@).skip(1)
            }),
            strict_values(fields.take(k - 1)) == Some(values@),
            total == wrapping_sum(values@),
        decreases w.len() - k,
    {
        assert(fields.take(k as int).drop_last() == fields.take(k - 1));
        assert(fields.take(k as int).last() == w@[k as int]@);
        match parse_u64_chars(w[k].as_slice()) {
            Some(n) => {
                let ghost before = values@;
                values.push(n);
                assert(values@.drop_last() == before);
                total = total.wrapping_add(n);
            },
            None => {
                proof {
                    lemma_strict_values_prefix(fields, k as int, fields.len() as int);
                    assert(fields.take(fields.len() as int) == fields);
                }
                return Err(owned("formato invalido en /proc/stat"));
            },
        }
        k = k + 1;
    }
    if w.len() > 0 {
        assert(fields.take(k - 1) == fields);
    } else {
        assert(fields.take(0) == fields);
    }
    let a: u64 = if values.len() > 3 {
        values[3]
    } else {
        0
    };
    let b: u64 = if values.len() > 4 {
        values[4]
    } else {
        0
    };
    Ok((total, a.wrapping_add(b)))
}

/// `read_bytes` and `write_bytes` of `/proc/PID/io`; a value that is not a
/// number reads as none.
pub open spec fn io_spec(ls: Seq<Seq<char>>) -> (Option<u64>, Option<u64>)
    decreases ls.len(),
{
    if ls.len() == 0 {
        (None, None)
    } else {
        let prev = io_spec(ls.drop_last());
        let l = ls.last();
        match strip_prefix(l, "read_bytes:"@) {
            Some(x) => (parse_u64_spec(trim(x)), prev.1),
            None => match strip_prefix(l, "write_bytes:"@) {
                Some(x) => (prev.0, parse_u64_spec(trim(x))),
                None => prev,
            },
        }
    }
}

pub fn parse_proc_io(io: &str) -> (r: (Option<u64>, Option<u64>))
    ensures
        r == io_spec(lines(io@)),
{
    let c = chars_of(io);
    let ls = lines_of(c.as_slice());
    let ghost v = vviews(ls@);
    let mut read_bytes: Option<u64> = None;
    let mut write_bytes: Option<u64> = None;
    let mut i: usize = 0;
    while i < ls.len()
        invariant
            i <= ls.len(),
            v == vviews(ls@),
            (read_bytes, write_bytes) == io_spec(v.take(i as int)),
        decreases ls.len() - i,
    {
        let l = ls[i].as_slice();
        assert(v.take(i + 1).drop_last() == v.take(i as int));
        assert(v.take(i + 1).last() == l@);
        if let Some(x) = strip_lit(l, "read_bytes:") {
            let t = trim_chars(x.as_slice());
            read_bytes = parse_u64_chars(t.as_slice());
        } else if let Some(x) = strip_lit(l, "write_bytes:") {
            let t = trim_chars(x.as_slice());
            write_bytes = parse_u64_chars(t.as_slice());
        }
        i = i + 1;
    }
    assert(v.take(i as int) == v);
    (read_bytes, write_bytes)
}

/// Reading one more line of `/proc/PID/io`: only `read_bytes:` and
/// `write_bytes:` lines change a counter, each to the trimmed number after
/// its label (none where it is not one).
pub proof fn lemma_io_line(ls: Seq<Seq<char>>, l: Seq<char>)
    ensures
        has_prefix(l, "read_bytes:"@) ==> io_spec(ls.push(l)) == (
            parse_u64_spec(trim(l.skip(11))),
            io_spec(ls).1,
        ),
        has_prefix(l, "write_bytes:"@) ==> io_spec(ls.push(l)) == (
            io_spec(ls).0,
            parse_u64_spec(trim(l.skip(12))),
        ),
        !has_prefix(l, "read_bytes:"@) && !has_prefix(l, "write_bytes:"@) ==> io_spec(ls.push(l))
            == io_spec(ls),
{
    reveal_strlit("read_bytes:");
    reveal_strlit("write_bytes:");
    assert(ls.push(l).drop_last() =~= ls);
    assert(ls.push(l).last() == l);
    if has_prefix(l, "write_bytes:"@) {
        assert(l.take(12)[0] == l[0]);
        assert(!has_prefix(l, "read_bytes:"@)) by {
            if has_prefix(l, "read_bytes:"@) {
                assert(l.take(11)[0] == l[0]);
            }
        }
    }
}

/// Lines of `/proc/PID/status` other than `VmRSS:`, `VmSize:` and
/// `Threads:` change nothing, and neither do lines of `/proc/meminfo`
/// other than `MemTotal:` and `MemAvailable:`.
pub proof fn lemma_other_lines(ls: Seq<Seq<char>>, l: Seq<char>)
    ensures
        !has_prefix(l, "VmRSS:"@) && !has_prefix(l, "VmSize:"@) && !has_prefix(l, "Threads:"@)
            ==> status_spec(ls.push(l)) == status_spec(ls),
        !has_prefix(l, "MemTotal:"@) && !has_prefix(l, "MemAvailable:"@) ==> meminfo_fold(
            ls.push(l),
        ) == meminfo_fold(ls),
{
    assert(ls.push(l).drop_last() =~= ls);
    assert(ls.push(l).last() == l);
}

} // verus!
