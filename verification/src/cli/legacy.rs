//! The single-target command line of earlier releases: one `--pid`,
//! `--name`, `--container` or launched command per run, with messages in
//! Spanish.
use crate::cli::{result_view, TargetView};
use crate::text::{
    concat, copy_string, copy_strings, opt_view, owned, parse_i32, parse_i32_spec, parse_u64,
    parse_u64_spec, str_eq, svs,
};
use vstd::prelude::*;

pub use crate::cli::Target;

verus! {

pub const DEFAULT_INTERVAL_SECS: u64 = 2;

pub const DEFAULT_RETENTION_HOURS: u64 = 72;

pub const DEFAULT_MAX_SAMPLES: u64 = 150_000;

#[derive(Debug, PartialEq)]
pub enum Command {
    Watch(WatchArgs),
    Summary(SummaryArgs),
    Help,
}

/// Settings of a single-target run; the interval is in seconds.
#[derive(Debug, PartialEq)]
pub struct WatchArgs {
    pub target: Target,
    pub interval: u64,
    pub db_path: String,
    pub once: bool,
    pub retention_hours: u64,
    pub max_samples: u64,
}

#[derive(Debug, PartialEq)]
pub struct SummaryArgs {
    pub db_path: String,
}

pub struct WatchArgsView {
    pub target: TargetView,
    pub interval: u64,
    pub db_path: Seq<char>,
    pub once: bool,
    pub retention_hours: u64,
    pub max_samples: u64,
}

pub enum CommandView {
    Watch(WatchArgsView),
    Summary(Seq<char>),
    Help,
}

impl View for WatchArgs {
    type V = WatchArgsView;

    open spec fn view(&self) -> WatchArgsView {
        WatchArgsView {
            target: self.target@,
            interval: self.interval,
            db_path: self.db_path@,
            once: self.once,
            retention_hours: self.retention_hours,
            max_samples: self.max_samples,
        }
    }
}

impl View for Command {
    type V = CommandView;

    open spec fn view(&self) -> CommandView {
        match self {
            Command::Watch(a) => CommandView::Watch(a@),
            Command::Summary(s) => CommandView::Summary(s.db_path@),
            Command::Help => CommandView::Help,
        }
    }
}

/// The options read so far.
pub struct LegacyScan {
    pub pid: Option<i32>,
    pub name: Option<Seq<char>>,
    pub container: Option<Seq<char>>,
    pub launch: Option<Seq<Seq<char>>>,
    pub interval: u64,
    pub db_path: Seq<char>,
    pub once: bool,
    pub retention_hours: u64,
    pub max_samples: u64,
}

pub enum LegacyEnd {
    Done(LegacyScan),
    Help,
    Fail(Seq<char>),
}

pub open spec fn initial_legacy_scan() -> LegacyScan {
    LegacyScan {
        pid: None,
        name: None,
        container: None,
        launch: None,
        interval: DEFAULT_INTERVAL_SECS,
        db_path: "server-metrics.db"@,
        once: false,
        retention_hours: DEFAULT_RETENTION_HOURS,
        max_samples: DEFAULT_MAX_SAMPLES,
    }
}

pub open spec fn scan_legacy(raw: Seq<Seq<char>>, i: int, o: LegacyScan) -> LegacyEnd
    decreases raw.len() - i,
{
    if i < 0 || i >= raw.len() {
        LegacyEnd::Done(o)
    } else {
        let a = raw[i];
        let has_value = i + 1 < raw.len();
        let v = raw[i + 1];
        if a == "--pid"@ {
            if !has_value {
                LegacyEnd::Fail("--pid necesita un valor"@)
            } else {
                match parse_i32_spec(v) {
                    Some(p) => scan_legacy(raw, i + 2, LegacyScan { pid: Some(p), ..o }),
                    None => LegacyEnd::Fail("--pid debe ser numerico"@),
                }
            }
        } else if a == "--name"@ {
            if !has_value {
                LegacyEnd::Fail("--name necesita un valor"@)
            } else {
                scan_legacy(raw, i + 2, LegacyScan { name: Some(v), ..o })
            }
        } else if a == "--container"@ {
            if !has_value {
                LegacyEnd::Fail("--container necesita un nombre"@)
            } else {
                scan_legacy(raw, i + 2, LegacyScan { container: Some(v), ..o })
            }
        } else if a == "--interval"@ {
            if !has_value {
                LegacyEnd::Fail("--interval necesita segundos"@)
            } else {
                match parse_u64_spec(v) {
                    None => LegacyEnd::Fail("--interval debe ser numerico"@),
                    Some(n) => if n == 0 {
                        LegacyEnd::Fail("--interval debe ser mayor a 0"@)
                    } else {
                        scan_legacy(raw, i + 2, LegacyScan { interval: n, ..o })
                    },
                }
            }
        } else if a == "--db"@ {
            if !has_value {
                LegacyEnd::Fail("--db necesita una ruta"@)
            } else {
                scan_legacy(raw, i + 2, LegacyScan { db_path: v, ..o })
            }
        } else if a == "--once"@ {
            scan_legacy(raw, i + 1, LegacyScan { once: true, ..o })
        } else if a == "--retention-hours"@ {
            if !has_value {
                LegacyEnd::Fail("--retention-hours necesita horas"@)
            } else {
                match parse_u64_spec(v) {
                    None => LegacyEnd::Fail("--retention-hours debe ser numerico"@),
                    Some(n) => scan_legacy(raw, i + 2, LegacyScan { retention_hours: n, ..o }),
                }
            }
        } else if a == "--max-samples"@ {
            if !has_value {
                LegacyEnd::Fail("--max-samples necesita una cantidad"@)
            } else {
                match parse_u64_spec(v) {
                    None => LegacyEnd::Fail("--max-samples debe ser numerico"@),
                    Some(n) => scan_legacy(raw, i + 2, LegacyScan { max_samples: n, ..o }),
                }
            }
        } else if a == "--"@ {
            let command = raw.skip(i + 1);
            if command.len() == 0 {
                LegacyEnd::Fail("despues de -- debes pasar el binario a lanzar"@)
            } else {
                LegacyEnd::Done(LegacyScan { launch: Some(command), ..o })
            }
        } else if a == "-h"@ || a == "--help"@ {
            LegacyEnd::Help
        } else {
            LegacyEnd::Fail("argumento no reconocido en watch: "@ + a)
        }
    }
}

pub open spec fn target_count(o: LegacyScan) -> nat {
    crate::cli::count_some(o.pid) + crate::cli::count_some(o.name) + crate::cli::count_some(
        o.container,
    ) + crate::cli::count_some(o.launch)
}

/// `watch` and its arguments: exactly one target.
pub open spec fn parse_watch_spec(raw: Seq<Seq<char>>) -> Result<CommandView, Seq<char>> {
    match scan_legacy(raw, 0, initial_legacy_scan()) {
        LegacyEnd::Help => Ok(CommandView::Help),
        LegacyEnd::Fail(e) => Err(e),
        LegacyEnd::Done(o) => if target_count(o) != 1 {
            Err("watch necesita exactamente uno: --pid, --name, --container o -- <comando>"@)
        } else {
            let target = if o.pid is Some {
                TargetView::Pid(o.pid->0)
            } else if o.name is Some {
                TargetView::Name(o.name->0)
            } else if o.container is Some {
                TargetView::Container(o.container->0)
            } else {
                TargetView::Launch(o.launch->0)
            };
            Ok(
                CommandView::Watch(
                    WatchArgsView {
                        target,
                        interval: o.interval,
                        db_path: o.db_path,
                        once: o.once,
                        retention_hours: o.retention_hours,
                        max_samples: o.max_samples,
                    },
                ),
            )
        },
    }
}

pub open spec fn scan_summary(raw: Seq<Seq<char>>, i: int, db: Seq<char>) -> Result<
    CommandView,
    Seq<char>,
>
    decreases raw.len() - i,
{
    if i < 0 || i >= raw.len() {
        Ok(CommandView::Summary(db))
    } else if raw[i] == "--db"@ {
        if i + 1 >= raw.len() {
            Err("--db necesita una ruta"@)
        } else {
            scan_summary(raw, i + 2, raw[i + 1])
        }
    } else if raw[i] == "-h"@ || raw[i] == "--help"@ {
        Ok(CommandView::Help)
    } else {
        Err("argumento no reconocido en summary: "@ + raw[i])
    }
}

/// The command of the arguments (without the program name).
pub open spec fn parse_spec(raw: Seq<Seq<char>>) -> Result<CommandView, Seq<char>> {
    if raw.len() == 0 {
        Ok(CommandView::Help)
    } else {
        let first = raw[0];
        if first == "-h"@ || first == "--help"@ || first == "help"@ {
            Ok(CommandView::Help)
        } else if first == "watch"@ {
            parse_watch_spec(raw.drop_first())
        } else if first == "summary"@ {
            scan_summary(raw.drop_first(), 0, "server-metrics.db"@)
        } else if first == "--pid"@ || first == "--name"@ {
            parse_watch_spec(raw)
        } else {
            Err("comando no reconocido: "@ + first)
        }
    }
}

struct LegacyOptions {
    pid: Option<i32>,
    name: Option<String>,
    container: Option<String>,
    launch: Option<Vec<String>>,
    interval: u64,
    db_path: String,
    once: bool,
    retention_hours: u64,
    max_samples: u64,
}

impl View for LegacyOptions {
    type V = LegacyScan;

    closed spec fn view(&self) -> LegacyScan {
        LegacyScan {
            pid: self.pid,
            name: opt_view(self.name),
            container: opt_view(self.container),
            launch: crate::cli::opt_launch_view(self.launch),
            interval: self.interval,
            db_path: self.db_path@,
            once: self.once,
            retention_hours: self.retention_hours,
            max_samples: self.max_samples,
        }
    }
}

fn parse_watch(raw: &[String]) -> (r: Result<Command, String>)
    ensures
        result_view(r) == parse_watch_spec(svs(raw@)),
{
    let ghost v = svs(raw@);
    let mut o = LegacyOptions {
        pid: None,
        name: None,
        container: None,
        launch: None,
        interval: DEFAULT_INTERVAL_SECS,
        db_path: crate::cli::default_db_path(),
        once: false,
        retention_hours: DEFAULT_RETENTION_HOURS,
        max_samples: DEFAULT_MAX_SAMPLES,
    };
    let ghost start = o@;
    assert(start == initial_legacy_scan());
    let mut i: usize = 0;
    let mut stopped = false;
    while i < raw.len() && !stopped
        invariant
            v == svs(raw@),
            v.len() == raw.len(),
            stopped ==> scan_legacy(v, 0, start) == LegacyEnd::Done(o@),
            !stopped ==> scan_legacy(v, 0, start) == scan_legacy(v, i as int, o@),
            start == initial_legacy_scan(),
        decreases raw.len() - i, if stopped {
            0int
        } else {
            1int
        },
    {
        let a = raw[i].as_str();
        assert(v[i as int] == a@);
        let has_value = i + 1 < raw.len();
        if has_value {
            assert(v[i + 1] == raw@[i + 1]@);
        }
        if str_eq(a, "--pid") {
            if !has_value {
                return Err(owned("--pid necesita un valor"));
            }
            match parse_i32(raw[i + 1].as_str()) {
                Some(p) => o.pid = Some(p),
                None => return Err(owned("--pid debe ser numerico")),
            }
            i = i + 2;
        } else if str_eq(a, "--name") {
            if !has_value {
                return Err(owned("--name necesita un valor"));
            }
            o.name = Some(copy_string(&raw[i + 1]));
            i = i + 2;
        } else if str_eq(a, "--container") {
            if !has_value {
                return Err(owned("--container necesita un nombre"));
            }
            o.container = Some(copy_string(&raw[i + 1]));
            i = i + 2;
        } else if str_eq(a, "--interval") {
            if !has_value {
                return Err(owned("--interval necesita segundos"));
            }
            match parse_u64(raw[i + 1].as_str()) {
                None => return Err(owned("--interval debe ser numerico")),
                Some(n) => {
                    if n == 0 {
                        return Err(owned("--interval debe ser mayor a 0"));
                    }
                    o.interval = n;
                },
            }
            i = i + 2;
        } else if str_eq(a, "--db") {
            if !has_value {
                return Err(owned("--db necesita una ruta"));
            }
            o.db_path = copy_string(&raw[i + 1]);
            i = i + 2;
        } else if str_eq(a, "--once") {
            o.once = true;
            i = i + 1;
        } else if str_eq(a, "--retention-hours") {
            if !has_value {
                return Err(owned("--retention-hours necesita horas"));
            }
            match parse_u64(raw[i + 1].as_str()) {
                None => return Err(owned("--retention-hours debe ser numerico")),
                Some(n) => o.retention_hours = n,
            }
            i = i + 2;
        } else if str_eq(a, "--max-samples") {
            if !has_value {
                return Err(owned("--max-samples necesita una cantidad"));
            }
            match parse_u64(raw[i + 1].as_str()) {
                None => return Err(owned("--max-samples debe ser numerico")),
                Some(n) => o.max_samples = n,
            }
            i = i + 2;
        } else if str_eq(a, "--") {
            let mut command: Vec<String> = Vec::new();
            let mut j: usize = i + 1;
            while j < raw.len()
                invariant
                    i + 1 <= j <= raw.len(),
                    v == svs(raw@),
                    svs(command@) == v.subrange(i + 1, j as int),
                decreases raw.len() - j,
            {
                let c = copy_string(&raw[j]);
                let ghost before = command@;
                command.push(c);
                assert(svs(command@) =~= svs(before).push(c@));
                j = j + 1;
                assert(svs(command@) =~= v.subrange(i + 1, j as int));
            }
            assert(v.subrange(i + 1, raw.len() as int) == v.skip(i + 1));
            if command.len() == 0 {
                return Err(owned("despues de -- debes pasar el binario a lanzar"));
            }
            o.launch = Some(command);
            stopped = true;
        } else if str_eq(a, "-h") || str_eq(a, "--help") {
            return Ok(Command::Help);
        } else {
            return Err(concat("argumento no reconocido en watch: ", a));
        }
    }
    let count: u8 = (if o.pid.is_some() {
        1u8
    } else {
        0u8
    }) + (if o.name.is_some() {
        1u8
    } else {
        0u8
    }) + (if o.container.is_some() {
        1u8
    } else {
        0u8
    }) + (if o.launch.is_some() {
        1u8
    } else {
        0u8
    });
    assert(count == target_count(o@));
    if count != 1 {
        return Err(owned("watch necesita exactamente uno: --pid, --name, --container o -- <comando>"));
    }
    let target = match (&o.pid, &o.name, &o.container, &o.launch) {
        (Some(p), _, _, _) => Target::Pid(*p),
        (None, Some(n), _, _) => Target::Name(copy_string(n)),
        (None, None, Some(c), _) => Target::Container(copy_string(c)),
        (None, None, None, Some(l)) => Target::Launch(copy_strings(l)),
        (None, None, None, None) => Target::Pid(0),
    };
    Ok(
        Command::Watch(
            WatchArgs {
                target,
                interval: o.interval,
                db_path: copy_string(&o.db_path),
                once: o.once,
                retention_hours: o.retention_hours,
                max_samples: o.max_samples,
            },
        ),
    )
}

fn parse_summary(raw: &[String]) -> (r: Result<Command, String>)
    ensures
        result_view(r) == scan_summary(svs(raw@), 0, "server-metrics.db"@),
{
    let ghost v = svs(raw@);
    let mut db_path = crate::cli::default_db_path();
    let mut i: usize = 0;
    while i < raw.len()
        invariant
            v == svs(raw@),
            v.len() == raw.len(),
            scan_summary(v, 0, "server-metrics.db"@) == scan_summary(v, i as int, db_path@),
        decreases raw.len() - i,
    {
        let a = raw[i].as_str();
        assert(v[i as int] == a@);
        if str_eq(a, "--db") {
            if i + 1 >= raw.len() {
                return Err(owned("--db necesita una ruta"));
            }
            assert(v[i + 1] == raw@[i + 1]@);
            db_path = copy_string(&raw[i + 1]);
            i = i + 2;
        } else if str_eq(a, "-h") || str_eq(a, "--help") {
            return Ok(Command::Help);
        } else {
            return Err(concat("argumento no reconocido en summary: ", a));
        }
    }
    Ok(Command::Summary(SummaryArgs { db_path }))
}

fn tail(raw: &Vec<String>) -> (out: Vec<String>)
    requires
        raw.len() > 0,
    ensures
        svs(out@) == svs(raw@).drop_first(),
{
    let mut out: Vec<String> = Vec::new();
    let mut i: usize = 1;
    while i < raw.len()
        invariant
            1 <= i <= raw.len(),
            svs(out@) == svs(raw@).subrange(1, i as int),
        decreases raw.len() - i,
    {
        let c = copy_string(&raw[i]);
        let ghost before = out@;
        out.push(c);
        assert(svs(out@) =~= svs(before).push(c@));
        i = i + 1;
        assert(svs(out@) =~= svs(raw@).subrange(1, i as int));
    }
    out
}

pub fn parse(raw: Vec<String>) -> (r: Result<Command, String>)
    ensures
        result_view(r) == parse_spec(svs(raw@)),
{
    let ghost v = svs(raw@);
    if raw.len() == 0 {
        return Ok(Command::Help);
    }
    let first = raw[0].as_str();
    assert(v[0] == first@);
    if str_eq(first, "-h") || str_eq(first, "--help") || str_eq(first, "help") {
        Ok(Command::Help)
    } else if str_eq(first, "watch") {
        let rest = tail(&raw);
        parse_watch(rest.as_slice())
    } else if str_eq(first, "summary") {
        let rest = tail(&raw);
        parse_summary(rest.as_slice())
    } else if str_eq(first, "--pid") || str_eq(first, "--name") {
        parse_watch(raw.as_slice())
    } else {
        Err(concat("comando no reconocido: ", first))
    }
}

} // verus!
