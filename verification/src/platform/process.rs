//! Finding the process of a name-based target, the PID of a Docker
//! container, and the command line of a process.
use crate::text::{
    chars_of, concat, concat3, contains_str, i32_to_string, join, parse_i32_chars, parse_i32_spec,
    signed_decimal, str_contains, string_from, trim, trim_chars,
};
use vstd::prelude::*;

verus! {

/// A process under `/proc` with its command name and command line.
#[derive(Debug)]
pub struct ProcessCandidate {
    pub pid: i32,
    pub comm: String,
    pub cmdline: String,
}

/// What `str::to_lowercase` gives: Unicode lower case.
pub uninterp spec fn lowercase(s: Seq<char>) -> Seq<char>;

/// `str::to_lowercase`.
#[verifier::external_body]
fn to_lowercase(s: &str) -> (r: String)
    ensures
        r@ == lowercase(s@),
{
    s.to_lowercase()
}

/// Whether a process matches: the lower-cased needle occurs in its
/// lower-cased command name, a space and its lower-cased command line.
pub open spec fn matches_needle(needle: Seq<char>, comm: Seq<char>, cmdline: Seq<char>) -> bool {
    contains_str(lowercase(comm) + " "@ + lowercase(cmdline), lowercase(needle))
}

/// A process as `(pid, command name, command line)`.
pub type CandidateView = (i32, Seq<char>, Seq<char>);

pub open spec fn candidate_view(c: ProcessCandidate) -> CandidateView {
    (c.pid, c.comm@, c.cmdline@)
}

pub open spec fn candidate_views(s: Seq<ProcessCandidate>) -> Seq<CandidateView> {
    s.map_values(|c: ProcessCandidate| candidate_view(c))
}

pub open spec fn candidate_matches(needle: Seq<char>, c: CandidateView) -> bool {
    matches_needle(needle, c.1, c.2)
}

/// The processes that match, in the order given.
pub open spec fn matching(needle: Seq<char>, ps: Seq<CandidateView>) -> Seq<CandidateView>
    decreases ps.len(),
{
    if ps.len() == 0 {
        Seq::<CandidateView>::empty()
    } else {
        let rest = matching(needle, ps.drop_last());
        if candidate_matches(needle, ps.last()) {
            rest.push(ps.last())
        } else {
            rest
        }
    }
}

pub open spec fn candidate_line(c: CandidateView) -> Seq<char> {
    "  pid="@ + signed_decimal(c.0 as int) + " comm="@ + c.1 + " cmdline="@ + c.2 + "\n"@
}

pub open spec fn candidate_lines(cs: Seq<CandidateView>) -> Seq<char>
    decreases cs.len(),
{
    if cs.len() == 0 {
        Seq::<char>::empty()
    } else {
        candidate_lines(cs.drop_last()) + candidate_line(cs.last())
    }
}

/// The single matching process, or an error that lists up to twelve of
/// them.
pub open spec fn single_process_spec(needle: Seq<char>, ps: Seq<CandidateView>) -> Result<
    CandidateView,
    Seq<char>,
> {
    let m = matching(needle, ps);
    let n = lowercase(needle);
    if m.len() == 0 {
        Err("no processes match '"@ + n + "'"@)
    } else if m.len() == 1 {
        Ok(m[0])
    } else {
        Err(
            "found several processes for '"@ + n + "'. Use --pid with one of these:\n"@
                + candidate_lines(if m.len() > 12 {
                m.take(12)
            } else {
                m
            }),
        )
    }
}

pub open spec fn candidate_result_view(r: Result<ProcessCandidate, String>) -> Result<
    (i32, Seq<char>, Seq<char>),
    Seq<char>,
> {
    match r {
        Ok(c) => Ok((c.pid, c.comm@, c.cmdline@)),
        Err(e) => Err(e@),
    }
}

fn candidate_text(c: &ProcessCandidate) -> (s: String)
    ensures
        s@ == candidate_line(candidate_view(*c)),
{
    let p = i32_to_string(c.pid);
    let mut s = concat3("  pid=", p.as_str(), " comm=");
    s.append(c.comm.as_str());
    s.append(" cmdline=");
    s.append(c.cmdline.as_str());
    s.append("\n");
    s
}

/// The process that a name-based target means, among the processes
/// listed under `/proc`.
pub fn find_single_process(needle: &str, processes: Vec<ProcessCandidate>) -> (r: Result<
    ProcessCandidate,
    String,
>)
    ensures
        candidate_result_view(r) == single_process_spec(needle@, candidate_views(processes@)),
{
    let lower = to_lowercase(needle);
    let ghost ps = candidate_views(processes@);
    let mut found: Vec<ProcessCandidate> = Vec::new();
    let mut i: usize = 0;
    while i < processes.len()
        invariant
            i <= processes.len(),
            ps == candidate_views(processes@),
            candidate_views(found@) == matching(needle@, ps.take(i as int)),
            lower@ == lowercase(needle@),
        decreases processes.len() - i,
    {
        let x = &processes[i];
        assert(ps.take(i + 1).drop_last() == ps.take(i as int));
        assert(ps.take(i + 1).last() == candidate_view(*x));
        let cl = to_lowercase(x.comm.as_str());
        let ml = to_lowercase(x.cmdline.as_str());
        let mut hay = concat(cl.as_str(), " ");
        hay.append(ml.as_str());
        if str_contains(hay.as_str(), lower.as_str()) {
            let c = ProcessCandidate {
                pid: x.pid,
                comm: crate::text::copy_string(&x.comm),
                cmdline: crate::text::copy_string(&x.cmdline),
            };
            assert(candidate_view(c) == candidate_view(*x));
            let ghost before = found@;
            found.push(c);
            assert(candidate_views(found@) =~= candidate_views(before).push(candidate_view(c)));
        }
        i = i + 1;
    }
    assert(ps.take(i as int) == ps);
    if found.len() == 0 {
        return Err(concat3("no processes match '", lower.as_str(), "'"));
    }
    if found.len() == 1 {
        let c = found.pop().unwrap();
        assert(candidate_view(c) == candidate_views(found@.push(c))[0]);
        return Ok(c);
    }
    let mut message = concat3("found several processes for '", lower.as_str(), "'. Use --pid with one of these:\n");
    let limit: usize = if found.len() > 12 {
        12
    } else {
        found.len()
    };
    let ghost shown = if found@.len() > 12 {
        candidate_views(found@).take(12)
    } else {
        candidate_views(found@)
    };
    let ghost head = message@;
    let mut i: usize = 0;
    while i < limit
        invariant
            i <= limit <= found.len(),
            limit == shown.len(),
            shown == candidate_views(found@).take(limit as int),
            message@ == head + candidate_lines(shown.take(i as int)),
        decreases limit - i,
    {
        assert(shown.take(i + 1).drop_last() == shown.take(i as int));
        let line = candidate_text(&found[i]);
        message.append(line.as_str());
        i = i + 1;
    }
    assert(shown.take(i as int) == shown);
    Err(message)
}

/// The PID that `docker inspect -f {{.State.Pid}}` printed: none where the
/// command failed or the container is not running (PID zero), an error
/// where the output is not a number.
pub open spec fn docker_pid_spec(success: bool, stdout: Seq<char>) -> Result<Option<i32>, Seq<char>> {
    if !success {
        Ok(None)
    } else {
        match parse_i32_spec(trim(stdout)) {
            None => Err("docker inspect returned an invalid PID: "@ + trim(stdout)),
            Some(p) => if p > 0 {
                Ok(Some(p))
            } else {
                Ok(None)
            },
        }
    }
}

pub open spec fn pid_result_view(r: Result<Option<i32>, String>) -> Result<Option<i32>, Seq<char>> {
    match r {
        Ok(p) => Ok(p),
        Err(e) => Err(e@),
    }
}

/// The PID of a container, from the exit status and output of `docker
/// inspect`.
pub fn docker_container_pid(success: bool, stdout: &str) -> (r: Result<Option<i32>, String>)
    ensures
        pid_result_view(r) == docker_pid_spec(success, stdout@),
{
    if !success {
        return Ok(None);
    }
    let c = chars_of(stdout);
    let value = trim_chars(c.as_slice());
    match parse_i32_chars(value.as_slice()) {
        None => {
            let v = string_from(value.as_slice());
            Err(concat("docker inspect returned an invalid PID: ", v.as_str()))
        },
        Some(p) => if p > 0 {
            Ok(Some(p))
        } else {
            Ok(None)
        },
    }
}


/// What `String::from_utf8_lossy` gives: the text of the bytes, with each
/// invalid sequence replaced by U+FFFD.
pub uninterp spec fn utf8_lossy(bytes: Seq<u8>) -> Seq<char>;

/// `String::from_utf8_lossy`, made owned.
#[verifier::external_body]
fn from_utf8_lossy(bytes: &[u8]) -> (s: String)
    ensures
        s@ == utf8_lossy(bytes@),
{
    String::from_utf8_lossy(bytes).into_owned()
}

/// The non-empty runs of bytes between NUL bytes, in order.
pub open spec fn nul_separated(bytes: Seq<u8>) -> Seq<Seq<u8>>
    decreases bytes.len(),
{
    if bytes.len() == 0 {
        Seq::<Seq<u8>>::empty()
    } else {
        let prev = nul_separated(bytes.drop_last());
        let b = bytes.last();
        if b == 0 {
            prev
        } else if bytes.len() >= 2 && bytes[bytes.len() - 2] != 0 {
            prev.update(prev.len() - 1, prev.last().push(b))
        } else {
            prev.push(seq![b])
        }
    }
}

proof fn lemma_nul_separated_nonempty(bytes: Seq<u8>)
    requires
        bytes.len() > 0,
        bytes.last() != 0,
    ensures
        nul_separated(bytes).len() > 0,
    decreases bytes.len(),
{
    if bytes.len() >= 2 && bytes[bytes.len() - 2] != 0 {
        lemma_nul_separated_nonempty(bytes.drop_last());
    }
}

pub open spec fn bviews(v: Seq<Vec<u8>>) -> Seq<Seq<u8>> {
    v.map_values(|x: Vec<u8>| x@)
}

/// The command line of `/proc/PID/cmdline`: its NUL-separated arguments,
/// each decoded as `from_utf8_lossy` does, joined by spaces.
pub open spec fn cmdline_spec(bytes: Seq<u8>) -> Seq<char> {
    join(nul_separated(bytes).map_values(|p: Seq<u8>| utf8_lossy(p)), " "@)
}

fn nul_parts(bytes: &[u8]) -> (out: Vec<Vec<u8>>)
    ensures
        bviews(out@) == nul_separated(bytes@),
{
    let mut out: Vec<Vec<u8>> = Vec::new();
    let mut i: usize = 0;
    while i < bytes.len()
        invariant
            i <= bytes.len(),
            bviews(out@) == nul_separated(bytes@.take(i as int)),
        decreases bytes.len() - i,
    {
        let ghost before = bytes@.take(i as int);
        let ghost after = bytes@.take(i + 1);
        assert(after.drop_last() == before);
        let b = bytes[i];
        if b == 0 {
        } else if i >= 1 && bytes[i - 1] != 0 {
            proof {
                assert(before.last() == bytes@[i - 1]);
                lemma_nul_separated_nonempty(before);
            }
            let mut last = out.pop().unwrap();
            last.push(b);
            out.push(last);
            assert(after[after.len() - 2] == bytes@[i - 1]);
        } else {
            let mut w: Vec<u8> = Vec::new();
            w.push(b);
            out.push(w);
            assert(w@ == seq![b]);
        }
        i = i + 1;
        assert(bviews(out@) =~= nul_separated(bytes@.take(i as int)));
    }
    assert(bytes@.take(i as int) == bytes@);
    out
}

/// The command line of a process from the bytes of its
/// `/proc/PID/cmdline`.
pub fn cmdline_text(bytes: &[u8]) -> (s: String)
    ensures
        s@ == cmdline_spec(bytes@),
{
    let parts = nul_parts(bytes);
    let ghost p = nul_separated(bytes@);
    let mut texts: Vec<String> = Vec::new();
    let mut i: usize = 0;
    while i < parts.len()
        invariant
            i <= parts.len(),
            bviews(parts@) == p,
            crate::text::svs(texts@) == p.take(i as int).map_values(|x: Seq<u8>| utf8_lossy(x)),
        decreases parts.len() - i,
    {
        let t = from_utf8_lossy(parts[i].as_slice());
        assert(p[i as int] == parts@[i as int]@);
        let ghost before = texts@;
        texts.push(t);
        assert(crate::text::svs(texts@) =~= crate::text::svs(before).push(t@));
        assert(p.take(i + 1).map_values(|x: Seq<u8>| utf8_lossy(x)) =~= p.take(i as int).map_values(
            |x: Seq<u8>| utf8_lossy(x),
        ).push(utf8_lossy(p[i as int])));
        i = i + 1;
        assert(crate::text::svs(texts@) =~= p.take(i as int).map_values(
            |x: Seq<u8>| utf8_lossy(x),
        ));
    }
    assert(p.take(i as int) == p);
    crate::text::join_strings(&texts, " ")
}
/// A process matches where the lower-cased needle occurs in its
/// lower-cased command name or in its lower-cased command line.
pub proof fn lemma_match_in_name_or_command_line(
    needle: Seq<char>,
    comm: Seq<char>,
    cmdline: Seq<char>,
)
    ensures
        contains_str(lowercase(comm), lowercase(needle)) ==> matches_needle(needle, comm, cmdline),
        contains_str(lowercase(cmdline), lowercase(needle)) ==> matches_needle(
            needle,
            comm,
            cmdline,
        ),
{
    crate::text::lemma_contains_concat(lowercase(comm), " "@ + lowercase(cmdline), lowercase(needle));
    crate::text::lemma_contains_concat(" "@, lowercase(cmdline), lowercase(needle));
    crate::text::lemma_contains_concat(lowercase(comm) + " "@, lowercase(cmdline), lowercase(needle));
    assert(lowercase(comm) + " "@ + lowercase(cmdline) =~= lowercase(comm) + (" "@ + lowercase(
        cmdline,
    )));
}

proof fn lemma_matching_members(needle: Seq<char>, ps: Seq<CandidateView>)
    ensures
        forall|x: CandidateView|
            #[trigger] matching(needle, ps).contains(x) ==> ps.contains(x) && candidate_matches(
                needle,
                x,
            ),
        forall|i: int|
            0 <= i < ps.len() && candidate_matches(needle, #[trigger] ps[i]) ==> matching(
                needle,
                ps,
            ).contains(ps[i]),
    decreases ps.len(),
{
    if ps.len() > 0 {
        let d = ps.drop_last();
        lemma_matching_members(needle, d);
        let rest = matching(needle, d);
        assert forall|x: CandidateView| #[trigger] matching(needle, ps).contains(x) implies ps.contains(
            x,
        ) && candidate_matches(needle, x) by {
            if rest.contains(x) {
                let k = choose|k: int| 0 <= k < d.len() && d[k] == x;
                assert(ps[k] == x);
            } else {
                let k = choose|k: int| 0 <= k < matching(needle, ps).len() && matching(needle, ps)[k] == x;
                assert(k == rest.len());
                assert(ps[ps.len() - 1] == x);
            }
        }
        assert forall|i: int| 0 <= i < ps.len() && candidate_matches(needle, #[trigger] ps[i]) implies matching(
            needle,
            ps,
        ).contains(ps[i]) by {
            if i < ps.len() - 1 {
                assert(d[i] == ps[i]);
                let k = choose|k: int| 0 <= k < rest.len() && rest[k] == ps[i];
                assert(matching(needle, ps)[k] == ps[i]);
            } else {
                assert(matching(needle, ps)[rest.len() as int] == ps[i]);
            }
        }
    }
}

proof fn lemma_two_matches(needle: Seq<char>, ps: Seq<CandidateView>, i: int, j: int)
    requires
        0 <= i < j < ps.len(),
        candidate_matches(needle, ps[i]),
        candidate_matches(needle, ps[j]),
    ensures
        matching(needle, ps).len() >= 2,
    decreases ps.len(),
{
    let d = ps.drop_last();
    if j < ps.len() - 1 {
        assert(d[i] == ps[i] && d[j] == ps[j]);
        lemma_two_matches(needle, d, i, j);
    } else {
        lemma_matching_members(needle, d);
        assert(d[i] == ps[i]);
        assert(matching(needle, d).contains(d[i]));
    }
}

/// The lookup succeeds only with a listed process that matches, and it
/// succeeds exactly when one listed process matches: a process whose
/// command line holds the needle is found when it is the only match, and
/// two matching processes are refused.
pub proof fn lemma_single_process(needle: Seq<char>, ps: Seq<CandidateView>)
    ensures
        single_process_spec(needle, ps) matches Ok(c) ==> ps.contains(c) && candidate_matches(
            needle,
            c,
        ),
        forall|i: int, j: int|
            0 <= i < j < ps.len() && candidate_matches(needle, #[trigger] ps[i])
                && candidate_matches(needle, #[trigger] ps[j]) ==> single_process_spec(
                needle,
                ps,
            ) is Err,
        ps.len() == 1 && contains_str(lowercase(ps[0].2), lowercase(needle)) ==> single_process_spec(
            needle,
            ps,
        ) == Ok::<CandidateView, Seq<char>>(ps[0]),
{
    lemma_matching_members(needle, ps);
    let m = matching(needle, ps);
    if m.len() == 1 {
        assert(m.contains(m[0]));
    }
    assert forall|i: int, j: int|
        0 <= i < j < ps.len() && candidate_matches(needle, #[trigger] ps[i]) && candidate_matches(
            needle,
            #[trigger] ps[j],
        ) implies single_process_spec(needle, ps) is Err by {
        lemma_two_matches(needle, ps, i, j);
    }
    if ps.len() == 1 {
        lemma_match_in_name_or_command_line(needle, ps[0].1, ps[0].2);
        if contains_str(lowercase(ps[0].2), lowercase(needle)) {
            assert(ps.drop_last() =~= Seq::<CandidateView>::empty());
            assert(matching(needle, ps.drop_last()) =~= Seq::<CandidateView>::empty());
            assert(ps.last() == ps[0]);
            assert(candidate_matches(needle, ps[0]));
            assert(m =~= seq![ps[0]]);
        }
    }
}

} // verus!
