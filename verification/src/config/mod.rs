//! Configuration-file mode: the settings of a TOML file, checked and
//! turned into watch arguments.
use crate::cli::{
    parse_target_spec, parse_target_spec_spec, service_views, valid_service_name,
    validate_service_name, Command, CommandView, ConfigRequest, ServiceSpec, ServiceView, TargetView,
    WatchArgs, WatchArgsView, DEFAULT_INTERVAL_SECS, DEFAULT_MAX_SAMPLES,
    DEFAULT_PPROF_INTERVAL_SECS, DEFAULT_RETENTION_HOURS,
};
use crate::text::{concat, concat3, copy_string, has_prefix, opt_view, owned, str_eq, str_starts_with};
use vstd::prelude::*;

verus! {

/// The settings of a configuration file.
pub struct FileConfig {
    pub database: Option<String>,
    pub interval_seconds: Option<u64>,
    pub pprof_interval_seconds: Option<u64>,
    pub retention_hours: Option<u64>,
    pub max_samples: Option<u64>,
    pub services: Vec<FileService>,
}

/// One `[[services]]` entry.
pub struct FileService {
    pub name: String,
    pub target: String,
    pub pprof_url: Option<String>,
}

pub struct FileServiceView {
    pub name: Seq<char>,
    pub target: Seq<char>,
    pub pprof_url: Option<Seq<char>>,
}

pub struct FileConfigView {
    pub database: Option<Seq<char>>,
    pub interval_seconds: Option<u64>,
    pub pprof_interval_seconds: Option<u64>,
    pub retention_hours: Option<u64>,
    pub max_samples: Option<u64>,
    pub services: Seq<FileServiceView>,
}

impl View for FileService {
    type V = FileServiceView;

    open spec fn view(&self) -> FileServiceView {
        FileServiceView { name: self.name@, target: self.target@, pprof_url: opt_view(self.pprof_url) }
    }
}

pub open spec fn file_service_views(s: Seq<FileService>) -> Seq<FileServiceView> {
    s.map_values(|x: FileService| x@)
}

impl View for FileConfig {
    type V = FileConfigView;

    open spec fn view(&self) -> FileConfigView {
        FileConfigView {
            database: opt_view(self.database),
            interval_seconds: self.interval_seconds,
            pprof_interval_seconds: self.pprof_interval_seconds,
            retention_hours: self.retention_hours,
            max_samples: self.max_samples,
            services: file_service_views(self.services@),
        }
    }
}

/// The value given, or the default; zero is refused.
pub open spec fn positive_or_default_spec(value: Option<u64>, default: u64, name: Seq<char>) -> Result<
    u64,
    Seq<char>,
> {
    let v = match value {
        Some(v) => v,
        None => default,
    };
    if v == 0 {
        Err(name + " must be greater than zero"@)
    } else {
        Ok(v)
    }
}

pub fn positive_or_default(value: Option<u64>, default: u64, name: &str) -> (r: Result<u64, String>)
    ensures
        crate::cli::u64_result_view(r) == positive_or_default_spec(value, default, name@),
{
    let value = match value {
        Some(v) => v,
        None => default,
    };
    if value == 0 {
        return Err(concat(name, " must be greater than zero"));
    }
    Ok(value)
}

pub open spec fn has_name(s: Seq<ServiceView>, n: Seq<char>) -> bool {
    exists|k: int| 0 <= k < s.len() && s[k].name == n
}

/// The services of the file from entry `i` on, after the services `acc`
/// accepted before it.
pub open spec fn config_services(fs: Seq<FileServiceView>, i: int, acc: Seq<ServiceView>) -> Result<
    Seq<ServiceView>,
    Seq<char>,
>
    decreases fs.len() - i,
{
    if i < 0 || i >= fs.len() {
        Ok(acc)
    } else {
        let f = fs[i];
        if !valid_service_name(f.name) {
            Err(crate::cli::invalid_name_message(f.name))
        } else if has_name(acc, f.name) {
            Err("duplicate service name: '"@ + f.name + "'"@)
        } else if f.pprof_url matches Some(u) && !has_prefix(u, "http://"@) {
            Err("pprof_url for '"@ + f.name + "' must use local http://"@)
        } else {
            match parse_target_spec_spec(f.target) {
                Err(e) => Err(e),
                Ok(t) => config_services(
                    fs,
                    i + 1,
                    acc.push(ServiceView { name: f.name, target: t, pprof_url: f.pprof_url }),
                ),
            }
        }
    }
}

/// The watch arguments that a configuration file gives.
pub open spec fn load_spec(c: FileConfigView, once: bool) -> Result<WatchArgsView, Seq<char>> {
    if c.services.len() == 0 {
        Err("config must define at least one [[services]] entry"@)
    } else {
        match positive_or_default_spec(c.interval_seconds, DEFAULT_INTERVAL_SECS, "interval_seconds"@) {
            Err(e) => Err(e),
            Ok(interval) => match positive_or_default_spec(
                c.pprof_interval_seconds,
                DEFAULT_PPROF_INTERVAL_SECS,
                "pprof_interval_seconds"@,
            ) {
                Err(e) => Err(e),
                Ok(pprof_interval) => match config_services(c.services, 0, Seq::empty()) {
                    Err(e) => Err(e),
                    Ok(services) => Ok(
                        WatchArgsView {
                            services,
                            interval,
                            pprof_interval,
                            db_path: match c.database {
                                Some(d) => d,
                                None => "server-metrics.db"@,
                            },
                            once,
                            retention_hours: match c.retention_hours {
                                Some(h) => h,
                                None => DEFAULT_RETENTION_HOURS,
                            },
                            max_samples: match c.max_samples {
                                Some(m) => m,
                                None => DEFAULT_MAX_SAMPLES,
                            },
                            dashboard: true,
                        },
                    ),
                },
            },
        }
    }
}

fn name_taken(services: &Vec<ServiceSpec>, name: &str) -> (b: bool)
    ensures
        b == has_name(service_views(services@), name@),
{
    let ghost s = service_views(services@);
    let mut k: usize = 0;
    while k < services.len()
        invariant
            k <= services.len(),
            s == service_views(services@),
            forall|x: int| 0 <= x < k ==> s[x].name != name@,
        decreases services.len() - k,
    {
        if str_eq(services[k].name.as_str(), name) {
            assert(s[k as int].name == name@);
            return true;
        }
        k = k + 1;
    }
    false
}

/// The watch arguments of a configuration file; `once` comes from the
/// command line.
pub fn load(config: FileConfig, once: bool) -> (r: Result<WatchArgs, String>)
    ensures
        crate::cli::result_view(r) == load_spec(config@, once),
{
    if config.services.len() == 0 {
        return Err(owned("config must define at least one [[services]] entry"));
    }
    let interval = positive_or_default(config.interval_seconds, DEFAULT_INTERVAL_SECS, "interval_seconds")?;
    let pprof_interval = positive_or_default(
        config.pprof_interval_seconds,
        DEFAULT_PPROF_INTERVAL_SECS,
        "pprof_interval_seconds",
    )?;
    let ghost fs = file_service_views(config.services@);
    let mut services: Vec<ServiceSpec> = Vec::new();
    let mut i: usize = 0;
    assert(service_views(services@) =~= Seq::<ServiceView>::empty());
    while i < config.services.len()
        invariant
            i <= config.services.len(),
            fs == file_service_views(config.services@),
            config@.services.len() > 0,
            positive_or_default_spec(config.interval_seconds, DEFAULT_INTERVAL_SECS, "interval_seconds"@)
                == Ok::<u64, Seq<char>>(interval),
            positive_or_default_spec(
                config.pprof_interval_seconds,
                DEFAULT_PPROF_INTERVAL_SECS,
                "pprof_interval_seconds"@,
            ) == Ok::<u64, Seq<char>>(pprof_interval),
            config_services(fs, 0, Seq::empty()) == config_services(
                fs,
                i as int,
                service_views(services@),
            ),
        decreases config.services.len() - i,
    {
        let f = &config.services[i];
        assert(fs[i as int] == f@);
        validate_service_name(f.name.as_str())?;
        if name_taken(&services, f.name.as_str()) {
            return Err(concat3("duplicate service name: '", f.name.as_str(), "'"));
        }
        let url = match &f.pprof_url {
            Some(u) => {
                if !str_starts_with(u.as_str(), "http://") {
                    return Err(concat3("pprof_url for '", f.name.as_str(), "' must use local http://"));
                }
                Some(copy_string(u))
            },
            None => None,
        };
        let target = parse_target_spec(f.target.as_str())?;
        let spec = ServiceSpec { name: copy_string(&f.name), target, pprof_url: url };
        let ghost before = services@;
        services.push(spec);
        assert(service_views(services@) =~= service_views(before).push(spec@));
        i = i + 1;
    }
    let db_path = match &config.database {
        Some(d) => copy_string(d),
        None => crate::cli::default_db_path(),
    };
    Ok(
        WatchArgs {
            services,
            interval,
            pprof_interval,
            db_path,
            once,
            retention_hours: match config.retention_hours {
                Some(h) => h,
                None => DEFAULT_RETENTION_HOURS,
            },
            max_samples: match config.max_samples {
                Some(m) => m,
                None => DEFAULT_MAX_SAMPLES,
            },
            dashboard: true,
        },
    )
}

/// The command that a configuration request becomes once its file is
/// read: `watch` with the dashboard, `agent` without it.
pub open spec fn load_requested_spec(dashboard: bool, once: bool, c: FileConfigView) -> Result<
    CommandView,
    Seq<char>,
> {
    match load_spec(c, once) {
        Err(e) => Err(e),
        Ok(a) => if dashboard {
            Ok(CommandView::Watch(a))
        } else {
            Ok(CommandView::Agent(WatchArgsView { dashboard: false, ..a }))
        },
    }
}

pub fn load_requested(request: &ConfigRequest, config: FileConfig) -> (r: Result<Command, String>)
    ensures
        crate::cli::result_view(r) == load_requested_spec(request.dashboard, request.once, config@),
{
    let mut args = load(config, request.once)?;
    if request.dashboard {
        Ok(Command::Watch(args))
    } else {
        args.dashboard = false;
        Ok(Command::Agent(args))
    }
}

proof fn lemma_config_services(fs: Seq<FileServiceView>, i: int, acc: Seq<ServiceView>)
    requires
        0 <= i,
        forall|x: int, y: int| 0 <= x < y < acc.len() ==> acc[x].name != acc[y].name,
        forall|x: int| 0 <= x < acc.len() ==> valid_service_name(#[trigger] acc[x].name),
        forall|x: int|
            0 <= x < acc.len() && (#[trigger] acc[x]).pprof_url is Some ==> has_prefix(
                acc[x].pprof_url->0,
                "http://"@,
            ),
        acc.len() + fs.len() - i >= 0,
    ensures
        config_services(fs, i, acc) matches Ok(s) ==> {
            &&& s.len() >= acc.len()
            &&& forall|x: int, y: int| 0 <= x < y < s.len() ==> s[x].name != s[y].name
            &&& forall|x: int| 0 <= x < s.len() ==> valid_service_name(#[trigger] s[x].name)
            &&& forall|x: int|
                0 <= x < s.len() && (#[trigger] s[x]).pprof_url is Some ==> has_prefix(
                    s[x].pprof_url->0,
                    "http://"@,
                )
        },
    decreases fs.len() - i,
{
    if i < fs.len() {
        let f = fs[i];
        if valid_service_name(f.name) && !has_name(acc, f.name) && !(f.pprof_url matches Some(u)
            && !has_prefix(u, "http://"@)) {
            if let Ok(t) = parse_target_spec_spec(f.target) {
                let next = acc.push(ServiceView { name: f.name, target: t, pprof_url: f.pprof_url });
                assert forall|x: int, y: int| 0 <= x < y < next.len() implies next[x].name
                    != next[y].name by {
                    if y == acc.len() {
                        assert(!(0 <= x < acc.len() && acc[x].name == f.name));
                    }
                }
                lemma_config_services(fs, i + 1, next);
            }
        }
    }
}

/// A configuration file that loads defines at least one service; its
/// service names are valid and distinct, its pprof URLs use `http://`,
/// and both intervals are positive.
pub proof fn lemma_load_checks(c: FileConfigView, once: bool)
    requires
        load_spec(c, once) is Ok,
    ensures
        ({
            let a = load_spec(c, once)->Ok_0;
            &&& a.services.len() >= 1
            &&& forall|x: int, y: int|
                0 <= x < y < a.services.len() ==> a.services[x].name != a.services[y].name
            &&& forall|x: int|
                0 <= x < a.services.len() ==> valid_service_name(#[trigger] a.services[x].name)
            &&& forall|x: int|
                0 <= x < a.services.len() && (#[trigger] a.services[x]).pprof_url is Some
                    ==> has_prefix(a.services[x].pprof_url->0, "http://"@)
            &&& a.interval > 0
            &&& a.pprof_interval > 0
            &&& a.once == once
        }),
{
    lemma_config_services(c.services, 0, Seq::empty());
    lemma_config_services_len(c.services, 0, Seq::empty());
}

proof fn lemma_config_services_len(fs: Seq<FileServiceView>, i: int, acc: Seq<ServiceView>)
    requires
        0 <= i <= fs.len(),
    ensures
        config_services(fs, i, acc) matches Ok(s) ==> s.len() == acc.len() + fs.len() - i,
    decreases fs.len() - i,
{
    if i < fs.len() {
        let f = fs[i];
        if let Ok(t) = parse_target_spec_spec(f.target) {
            lemma_config_services_len(
                fs,
                i + 1,
                acc.push(ServiceView { name: f.name, target: t, pprof_url: f.pprof_url }),
            );
        }
    }
}

/// Whether entry `k` of the file's services is accepted: a valid name that
/// no earlier entry has, a pprof URL, if any, that uses `http://`, and a
/// target that parses.
pub open spec fn entry_ok(fs: Seq<FileServiceView>, k: int) -> bool {
    &&& valid_service_name(fs[k].name)
    &&& !(exists|j: int| 0 <= j < k && fs[j].name == fs[k].name)
    &&& !(fs[k].pprof_url matches Some(u) && !has_prefix(u, "http://"@))
    &&& parse_target_spec_spec(fs[k].target) is Ok
}

proof fn lemma_config_services_ok(fs: Seq<FileServiceView>, i: int, acc: Seq<ServiceView>)
    requires
        0 <= i <= fs.len(),
        acc.len() == i,
        forall|x: int| 0 <= x < i ==> acc[x].name == fs[x].name,
    ensures
        config_services(fs, i, acc) is Ok <==> forall|k: int| i <= k < fs.len() ==> #[trigger] entry_ok(fs, k),
    decreases fs.len() - i,
{
    if i < fs.len() {
        let f = fs[i];
        assert(has_name(acc, f.name) <==> exists|j: int| 0 <= j < i && fs[j].name == f.name) by {
            if has_name(acc, f.name) {
                let k = choose|k: int| 0 <= k < acc.len() && acc[k].name == f.name;
                assert(fs[k].name == f.name);
            }
            if exists|j: int| 0 <= j < i && fs[j].name == f.name {
                let j = choose|j: int| 0 <= j < i && fs[j].name == f.name;
                assert(acc[j].name == f.name);
            }
        }
        if entry_ok(fs, i) {
            let t = parse_target_spec_spec(f.target)->Ok_0;
            let next = acc.push(ServiceView { name: f.name, target: t, pprof_url: f.pprof_url });
            lemma_config_services_ok(fs, i + 1, next);
            assert((forall|k: int| i <= k < fs.len() ==> #[trigger] entry_ok(fs, k)) <==> (forall|
                k: int,
            | i + 1 <= k < fs.len() ==> #[trigger] entry_ok(fs, k)));
        } else {
            assert(config_services(fs, i, acc) is Err);
            assert(!entry_ok(fs, i));
        }
    }
}

/// A configuration file is refused exactly when it defines no service,
/// sets either interval to zero, or has an entry whose name is invalid or
/// taken by an earlier entry, whose pprof URL does not use `http://`, or
/// whose target does not parse.
pub proof fn lemma_load_refusals(c: FileConfigView, once: bool)
    ensures
        load_spec(c, once) is Err <==> {
            ||| c.services.len() == 0
            ||| c.interval_seconds == Some(0u64)
            ||| c.pprof_interval_seconds == Some(0u64)
            ||| exists|k: int| 0 <= k < c.services.len() && !#[trigger] entry_ok(c.services, k)
        },
{
    lemma_config_services_ok(c.services, 0, Seq::empty());
}

/// `agent` without `--config` is refused; with it, it asks for the file
/// with the dashboard off, and the file then gives agent arguments without
/// the dashboard.
pub proof fn lemma_agent_command(rest: Seq<Seq<char>>, c: FileConfigView)
    ensures
        !crate::cli::contains_config(rest) ==> crate::cli::parse_spec(seq!["agent"@] + rest)
            == Err::<CommandView, Seq<char>>("agent requires --config PATH"@),
        crate::cli::contains_config(rest) ==> crate::cli::parse_spec(seq!["agent"@] + rest)
            == crate::cli::parse_config_watch_spec(rest, false),
        crate::cli::parse_spec(seq!["agent"@] + rest) matches Ok(CommandView::Configured(r)) ==> {
            &&& !r.dashboard
            &&& load_requested_spec(r.dashboard, r.once, c) == match load_spec(c, r.once) {
                Ok(a) => Ok(CommandView::Agent(WatchArgsView { dashboard: false, ..a })),
                Err(e) => Err(e),
            }
        },
{
    reveal_strlit("agent");
    reveal_strlit("-h");
    reveal_strlit("--help");
    reveal_strlit("help");
    reveal_strlit("watch");
    let raw = seq!["agent"@] + rest;
    assert(raw[0] == "agent"@);
    assert(raw.drop_first() =~= rest);
    assert("agent"@.len() != "-h"@.len() && "agent"@.len() != "--help"@.len() && "agent"@.len()
        != "help"@.len());
    assert("agent"@[0] != "watch"@[0]);
}

/// The settings of a file that loads are the file's own: each interval,
/// retention and sample limit the file sets is used as it stands, and one
/// it leaves out takes its default (5 s, 30 s, 168 hours, 150000 samples,
/// `server-metrics.db`); `once` comes from the command line, and the
/// dashboard is shown.
pub proof fn lemma_load_keeps_settings(c: FileConfigView, once: bool, a: WatchArgsView)
    requires
        load_spec(c, once) == Ok::<WatchArgsView, Seq<char>>(a),
    ensures
        c.interval_seconds matches Some(x) ==> a.interval == x,
        c.interval_seconds is None ==> a.interval == 5,
        c.pprof_interval_seconds matches Some(x) ==> a.pprof_interval == x,
        c.pprof_interval_seconds is None ==> a.pprof_interval == 30,
        c.retention_hours matches Some(x) ==> a.retention_hours == x,
        c.retention_hours is None ==> a.retention_hours == 168,
        c.max_samples matches Some(x) ==> a.max_samples == x,
        c.max_samples is None ==> a.max_samples == 150000,
        c.database matches Some(d) ==> a.db_path == d,
        c.database is None ==> a.db_path == "server-metrics.db"@,
        a.once == once,
        a.dashboard,
        a.services.len() == c.services.len(),
        forall|k: int|
            0 <= k < a.services.len() ==> {
                &&& (#[trigger] a.services[k]).name == c.services[k].name
                &&& a.services[k].pprof_url == c.services[k].pprof_url
                &&& parse_target_spec_spec(c.services[k].target) == Ok::<TargetView, Seq<char>>(
                    a.services[k].target,
                )
            },
{
    lemma_config_services_keep(c.services, 0, Seq::empty());
}

proof fn lemma_config_services_keep(fs: Seq<FileServiceView>, i: int, acc: Seq<ServiceView>)
    requires
        0 <= i <= fs.len(),
        acc.len() == i,
        forall|k: int|
            0 <= k < i ==> {
                &&& (#[trigger] acc[k]).name == fs[k].name
                &&& acc[k].pprof_url == fs[k].pprof_url
                &&& parse_target_spec_spec(fs[k].target) == Ok::<TargetView, Seq<char>>(
                    acc[k].target,
                )
            },
    ensures
        config_services(fs, i, acc) matches Ok(s) ==> {
            &&& s.len() == fs.len()
            &&& forall|k: int|
                0 <= k < s.len() ==> {
                    &&& (#[trigger] s[k]).name == fs[k].name
                    &&& s[k].pprof_url == fs[k].pprof_url
                    &&& parse_target_spec_spec(fs[k].target) == Ok::<TargetView, Seq<char>>(
                        s[k].target,
                    )
                }
        },
    decreases fs.len() - i,
{
    if i < fs.len() {
        let f = fs[i];
        if let Ok(t) = parse_target_spec_spec(f.target) {
            let next = acc.push(ServiceView { name: f.name, target: t, pprof_url: f.pprof_url });
            assert forall|k: int| 0 <= k < i + 1 implies {
                &&& (#[trigger] next[k]).name == fs[k].name
                &&& next[k].pprof_url == fs[k].pprof_url
                &&& parse_target_spec_spec(fs[k].target) == Ok::<TargetView, Seq<char>>(
                    next[k].target,
                )
            } by {
                if k < i {
                    assert(next[k] == acc[k]);
                }
            }
            lemma_config_services_keep(fs, i + 1, next);
        }
    }
}

} // verus!
