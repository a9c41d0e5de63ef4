//! Command-line parsing: multi-service targets, the legacy single-target
//! forms, configuration-file mode and the summary command.
use crate::text::{
    chars_of, concat, concat3, copy_string, copy_strings, has_prefix, i32_to_string, join, join_strings,
    opt_view, owned, parse_i32, parse_i32_chars, parse_i32_spec, parse_u64, parse_u64_spec, signed_decimal,
    split_char, split_chars, split_once, split_once_chars, str_eq, str_starts_with, string_from, svs, vviews,
};
use vstd::prelude::*;

pub mod legacy;

verus! {

pub const DEFAULT_INTERVAL_SECS: u64 = 5;

pub const DEFAULT_PPROF_INTERVAL_SECS: u64 = 30;

pub const DEFAULT_RETENTION_HOURS: u64 = 168;

pub const DEFAULT_MAX_SAMPLES: u64 = 150_000;

/// The database file used where none is given.
pub fn default_db_path() -> (s: String)
    ensures
        s@ == "server-metrics.db"@,
{
    owned("server-metrics.db")
}

/// What the command line asks for.
#[derive(Debug, PartialEq)]
pub enum Command {
    Watch(WatchArgs),
    Agent(WatchArgs),
    Summary(SummaryArgs),
    Help,
    /// Watch with every setting taken from a configuration file, which the
    /// caller reads and hands to `config::load_requested`.
    Configured(ConfigRequest),
}

/// Settings of a watch or agent run. Intervals are in seconds.
#[derive(Debug, PartialEq)]
pub struct WatchArgs {
    pub services: Vec<ServiceSpec>,
    pub interval: u64,
    pub pprof_interval: u64,
    pub db_path: String,
    pub once: bool,
    pub retention_hours: u64,
    pub max_samples: u64,
    pub dashboard: bool,
}

#[derive(Debug, PartialEq)]
pub struct ServiceSpec {
    pub name: String,
    pub target: Target,
    pub pprof_url: Option<String>,
}

#[derive(Debug, PartialEq)]
pub enum Target {
    Pid(i32),
    Name(String),
    Container(String),
    Launch(Vec<String>),
}

#[derive(Debug, PartialEq)]
pub struct SummaryArgs {
    pub db_path: String,
    pub service: Option<String>,
}

/// A configuration file to load, with the options given beside it.
#[derive(Debug, PartialEq)]
pub struct ConfigRequest {
    pub path: String,
    pub once: bool,
    pub dashboard: bool,
}

// ---------------------------------------------------------------------------
// Views
// ---------------------------------------------------------------------------

pub enum TargetView {
    Pid(i32),
    Name(Seq<char>),
    Container(Seq<char>),
    Launch(Seq<Seq<char>>),
}

pub struct ServiceView {
    pub name: Seq<char>,
    pub target: TargetView,
    pub pprof_url: Option<Seq<char>>,
}

pub struct WatchArgsView {
    pub services: Seq<ServiceView>,
    pub interval: u64,
    pub pprof_interval: u64,
    pub db_path: Seq<char>,
    pub once: bool,
    pub retention_hours: u64,
    pub max_samples: u64,
    pub dashboard: bool,
}

pub struct SummaryView {
    pub db_path: Seq<char>,
    pub service: Option<Seq<char>>,
}

pub struct ConfigRequestView {
    pub path: Seq<char>,
    pub once: bool,
    pub dashboard: bool,
}

pub enum CommandView {
    Watch(WatchArgsView),
    Agent(WatchArgsView),
    Summary(SummaryView),
    Help,
    Configured(ConfigRequestView),
}

impl View for Target {
    type V = TargetView;

    open spec fn view(&self) -> TargetView {
        match self {
            Target::Pid(p) => TargetView::Pid(*p),
            Target::Name(n) => TargetView::Name(n@),
            Target::Container(n) => TargetView::Container(n@),
            Target::Launch(c) => TargetView::Launch(svs(c@)),
        }
    }
}

impl View for ServiceSpec {
    type V = ServiceView;

    open spec fn view(&self) -> ServiceView {
        ServiceView { name: self.name@, target: self.target@, pprof_url: opt_view(self.pprof_url) }
    }
}

pub open spec fn service_views(s: Seq<ServiceSpec>) -> Seq<ServiceView> {
    s.map_values(|x: ServiceSpec| x@)
}

impl View for WatchArgs {
    type V = WatchArgsView;

    open spec fn view(&self) -> WatchArgsView {
        WatchArgsView {
            services: service_views(self.services@),
            interval: self.interval,
            pprof_interval: self.pprof_interval,
            db_path: self.db_path@,
            once: self.once,
            retention_hours: self.retention_hours,
            max_samples: self.max_samples,
            dashboard: self.dashboard,
        }
    }
}

impl View for SummaryArgs {
    type V = SummaryView;

    open spec fn view(&self) -> SummaryView {
        SummaryView { db_path: self.db_path@, service: opt_view(self.service) }
    }
}

impl View for ConfigRequest {
    type V = ConfigRequestView;

    open spec fn view(&self) -> ConfigRequestView {
        ConfigRequestView { path: self.path@, once: self.once, dashboard: self.dashboard }
    }
}

impl View for Command {
    type V = CommandView;

    open spec fn view(&self) -> CommandView {
        match self {
            Command::Watch(a) => CommandView::Watch(a@),
            Command::Agent(a) => CommandView::Agent(a@),
            Command::Summary(a) => CommandView::Summary(a@),
            Command::Help => CommandView::Help,
            Command::Configured(r) => CommandView::Configured(r@),
        }
    }
}

pub open spec fn result_view<T: View>(r: Result<T, String>) -> Result<T::V, Seq<char>> {
    match r {
        Ok(v) => Ok(v@),
        Err(e) => Err(e@),
    }
}

// ---------------------------------------------------------------------------
// Targets and service names
// ---------------------------------------------------------------------------

/// How a target is shown: `pid:N`, `name:TEXT`, `container:NAME` or
/// `launch:` and the command line.
pub open spec fn description_spec(t: TargetView) -> Seq<char> {
    match t {
        TargetView::Pid(p) => "pid:"@ + signed_decimal(p as int),
        TargetView::Name(n) => "name:"@ + n,
        TargetView::Container(n) => "container:"@ + n,
        TargetView::Launch(c) => "launch:"@ + join(c, " "@),
    }
}

impl Target {
    pub fn description(&self) -> (s: String)
        ensures
            s@ == description_spec(self@),
    {
        match self {
            Target::Pid(pid) => {
                let n = i32_to_string(*pid);
                concat("pid:", n.as_str())
            },
            Target::Name(name) => concat("name:", name.as_str()),
            Target::Container(name) => concat("container:", name.as_str()),
            Target::Launch(command) => {
                let j = join_strings(command, " ");
                concat("launch:", j.as_str())
            },
        }
    }
}

pub open spec fn is_name_char(c: char) -> bool {
    ||| 'a' <= c <= 'z'
    ||| 'A' <= c <= 'Z'
    ||| '0' <= c <= '9'
    ||| c == '-'
    ||| c == '_'
    ||| c == '.'
}

/// A service name is non-empty and made of ASCII letters, digits, `.`,
/// `_` and `-`.
pub open spec fn valid_service_name(name: Seq<char>) -> bool {
    name.len() > 0 && forall|i: int| 0 <= i < name.len() ==> is_name_char(#[trigger] name[i])
}

pub open spec fn invalid_name_message(name: Seq<char>) -> Seq<char> {
    "invalid service name '"@ + name + "'; use letters, numbers, '.', '_' or '-'"@
}

pub open spec fn validate_service_name_spec(name: Seq<char>) -> Result<(), Seq<char>> {
    if valid_service_name(name) {
        Ok(())
    } else {
        Err(invalid_name_message(name))
    }
}

fn name_char(c: char) -> (b: bool)
    ensures
        b == is_name_char(c),
{
    ('a' <= c && c <= 'z') || ('A' <= c && c <= 'Z') || ('0' <= c && c <= '9') || c == '-' || c
        == '_' || c == '.'
}

pub fn validate_service_name(name: &str) -> (r: Result<(), String>)
    ensures
        result_unit_view(r) == validate_service_name_spec(name@),
{
    let c = chars_of(name);
    let mut ok = c.len() > 0;
    let mut i: usize = 0;
    while i < c.len()
        invariant
            i <= c.len(),
            c@ == name@,
            ok == (c.len() > 0 && forall|j: int| 0 <= j < i ==> is_name_char(#[trigger] c@[j])),
        decreases c.len() - i,
    {
        if !name_char(c[i]) {
            ok = false;
        }
        i = i + 1;
    }
    if ok {
        Ok(())
    } else {
        Err(concat3("invalid service name '", name, "'; use letters, numbers, '.', '_' or '-'"))
    }
}

pub open spec fn result_unit_view(r: Result<(), String>) -> Result<(), Seq<char>> {
    match r {
        Ok(()) => Ok(()),
        Err(e) => Err(e@),
    }
}

/// `TYPE:VALUE` with TYPE one of `pid`, `name`, `container`.
pub open spec fn parse_target_spec_spec(target: Seq<char>) -> Result<TargetView, Seq<char>> {
    match split_once(target, ':') {
        None => Err("service target requires TYPE:VALUE"@),
        Some((kind, value)) => if value.len() == 0 {
            Err("--service target value cannot be empty"@)
        } else if kind == "pid"@ {
            match parse_i32_spec(value) {
                Some(p) => Ok(TargetView::Pid(p)),
                None => Err("service pid must be numeric"@),
            }
        } else if kind == "name"@ {
            Ok(TargetView::Name(value))
        } else if kind == "container"@ {
            Ok(TargetView::Container(value))
        } else {
            Err("unsupported service target type: "@ + kind)
        },
    }
}

pub fn parse_target_spec(target: &str) -> (r: Result<Target, String>)
    ensures
        result_view(r) == parse_target_spec_spec(target@),
{
    let t = chars_of(target);
    match split_once_chars(t.as_slice(), ':') {
        None => Err(owned("service target requires TYPE:VALUE")),
        Some((kind, value)) => {
            if value.len() == 0 {
                return Err(owned("--service target value cannot be empty"));
            }
            let kind_s = string_from(kind.as_slice());
            if str_eq(kind_s.as_str(), "pid") {
                match parse_i32_chars(value.as_slice()) {
                    Some(p) => Ok(Target::Pid(p)),
                    None => Err(owned("service pid must be numeric")),
                }
            } else if str_eq(kind_s.as_str(), "name") {
                Ok(Target::Name(string_from(value.as_slice())))
            } else if str_eq(kind_s.as_str(), "container") {
                Ok(Target::Container(string_from(value.as_slice())))
            } else {
                Err(concat("unsupported service target type: ", kind_s.as_str()))
            }
        },
    }
}

/// `NAME=TYPE:VALUE`.
pub open spec fn parse_service_spec(value: Seq<char>) -> Result<ServiceView, Seq<char>> {
    match split_once(value, '=') {
        None => Err("--service requires NAME=TYPE:VALUE"@),
        Some((name, target)) => if !valid_service_name(name) {
            Err(invalid_name_message(name))
        } else {
            match parse_target_spec_spec(target) {
                Ok(t) => Ok(ServiceView { name, target: t, pprof_url: None }),
                Err(e) => Err(e),
            }
        },
    }
}

fn parse_service(value: &str) -> (r: Result<ServiceSpec, String>)
    ensures
        result_view(r) == parse_service_spec(value@),
{
    let v = chars_of(value);
    match split_once_chars(v.as_slice(), '=') {
        None => Err(owned("--service requires NAME=TYPE:VALUE")),
        Some((name, target)) => {
            let name_s = string_from(name.as_slice());
            let target_s = string_from(target.as_slice());
            match validate_service_name(name_s.as_str()) {
                Err(e) => Err(e),
                Ok(()) => match parse_target_spec(target_s.as_str()) {
                    Ok(t) => Ok(ServiceSpec { name: name_s, target: t, pprof_url: None }),
                    Err(e) => Err(e),
                },
            }
        },
    }
}

/// The last component of a path that is a name, as `Path::file_name`:
/// empty components and `.` do not count, and `..` gives none.
pub open spec fn last_normal(parts: Seq<Seq<char>>) -> Option<Seq<char>>
    decreases parts.len(),
{
    if parts.len() == 0 {
        None
    } else if parts.last().len() == 0 || parts.last() == seq!['.'] {
        last_normal(parts.drop_last())
    } else {
        Some(parts.last())
    }
}

pub open spec fn file_name(path: Seq<char>) -> Option<Seq<char>> {
    match last_normal(split_char(path, '/')) {
        Some(p) => if p == seq!['.', '.'] {
            None
        } else {
            Some(p)
        },
        None => None,
    }
}

pub open spec fn default_service_name_spec(t: TargetView) -> Seq<char> {
    match t {
        TargetView::Pid(p) => "pid-"@ + signed_decimal(p as int),
        TargetView::Name(n) => n,
        TargetView::Container(n) => n,
        TargetView::Launch(c) => if c.len() > 0 && file_name(c[0]) is Some {
            file_name(c[0])->0
        } else {
            "process"@
        },
    }
}

fn is_dot(p: &Vec<char>) -> (b: bool)
    ensures
        b == (p@ == seq!['.']),
{
    let r = p.len() == 1 && p[0] == '.';
    if p.len() == 1 && p[0] == '.' {
        assert(p@ =~= seq!['.']);
    }
    r
}

fn file_name_of(path: &str) -> (r: Option<String>)
    ensures
        opt_view(r) == file_name(path@),
{
    let c = chars_of(path);
    let parts = split_chars(c.as_slice(), '/');
    let mut k: usize = parts.len();
    assert(vviews(parts@).take(k as int) == vviews(parts@));
    while k > 0 && (parts[k - 1].len() == 0 || is_dot(&parts[k - 1]))
        invariant
            k <= parts.len(),
            vviews(parts@) == split_char(path@, '/'),
            last_normal(split_char(path@, '/')) == last_normal(vviews(parts@).take(k as int)),
        decreases k,
    {
        assert(vviews(parts@).take(k as int).drop_last() == vviews(parts@).take(k - 1));
        k = k - 1;
    }
    if k == 0 {
        return None;
    }
    let ghost t = vviews(parts@).take(k as int);
    assert(t.last() == parts@[k - 1]@);
    let last = &parts[k - 1];
    if last.len() == 2 && last[0] == '.' && last[1] == '.' {
        assert(last@ =~= seq!['.', '.']);
        None
    } else {
        assert(last@ != seq!['.', '.']);
        Some(string_from(last.as_slice()))
    }
}

fn default_service_name(target: &Target) -> (s: String)
    ensures
        s@ == default_service_name_spec(target@),
{
    match target {
        Target::Pid(pid) => {
            let n = i32_to_string(*pid);
            concat("pid-", n.as_str())
        },
        Target::Name(name) => copy_string(name),
        Target::Container(name) => copy_string(name),
        Target::Launch(command) => {
            if command.len() > 0 {
                assert(svs(command@)[0] == command@[0]@);
                match file_name_of(command[0].as_str()) {
                    Some(n) => n,
                    None => owned("process"),
                }
            } else {
                owned("process")
            }
        },
    }
}

// ---------------------------------------------------------------------------
// Numbers
// ---------------------------------------------------------------------------

pub open spec fn parse_u64_arg_spec(value: Seq<char>, argument: Seq<char>) -> Result<u64, Seq<char>> {
    match parse_u64_spec(value) {
        Some(n) => Ok(n),
        None => Err(argument + " must be numeric"@),
    }
}

pub open spec fn parse_positive_u64_spec(value: Seq<char>, argument: Seq<char>) -> Result<
    u64,
    Seq<char>,
> {
    match parse_u64_arg_spec(value, argument) {
        Ok(n) => if n == 0 {
            Err(argument + " must be greater than zero"@)
        } else {
            Ok(n)
        },
        Err(e) => Err(e),
    }
}

pub open spec fn u64_result_view(r: Result<u64, String>) -> Result<u64, Seq<char>> {
    match r {
        Ok(n) => Ok(n),
        Err(e) => Err(e@),
    }
}

fn parse_u64_arg(value: &str, argument: &str) -> (r: Result<u64, String>)
    ensures
        u64_result_view(r) == parse_u64_arg_spec(value@, argument@),
{
    match parse_u64(value) {
        Some(n) => Ok(n),
        None => Err(concat(argument, " must be numeric")),
    }
}

fn parse_positive_u64(value: &str, argument: &str) -> (r: Result<u64, String>)
    ensures
        u64_result_view(r) == parse_positive_u64_spec(value@, argument@),
{
    let n = parse_u64_arg(value, argument)?;
    if n == 0 {
        return Err(concat(argument, " must be greater than zero"));
    }
    Ok(n)
}

// ---------------------------------------------------------------------------
// Watch options, one argument at a time
// ---------------------------------------------------------------------------

/// The options of `watch` read so far.
pub struct WatchScan {
    pub pid: Option<i32>,
    pub name: Option<Seq<char>>,
    pub container: Option<Seq<char>>,
    pub launch: Option<Seq<Seq<char>>>,
    pub label: Option<Seq<char>>,
    pub services: Seq<ServiceView>,
    pub pprof: Seq<(Seq<char>, Seq<char>)>,
    pub interval: u64,
    pub pprof_interval: u64,
    pub db_path: Seq<char>,
    pub once: bool,
    pub retention_hours: u64,
    pub max_samples: u64,
}

pub enum ScanEnd {
    Done(WatchScan),
    Help,
    Fail(Seq<char>),
}

pub open spec fn initial_scan() -> WatchScan {
    WatchScan {
        pid: None,
        name: None,
        container: None,
        launch: None,
        label: None,
        services: Seq::empty(),
        pprof: Seq::empty(),
        interval: DEFAULT_INTERVAL_SECS,
        pprof_interval: DEFAULT_PPROF_INTERVAL_SECS,
        db_path: "server-metrics.db"@,
        once: false,
        retention_hours: DEFAULT_RETENTION_HOURS,
        max_samples: DEFAULT_MAX_SAMPLES,
    }
}

/// The URL configured for `name`, if any.
pub open spec fn lookup(pprof: Seq<(Seq<char>, Seq<char>)>, name: Seq<char>) -> Option<Seq<char>>
    decreases pprof.len(),
{
    if pprof.len() == 0 {
        None
    } else if pprof[0].0 == name {
        Some(pprof[0].1)
    } else {
        lookup(pprof.drop_first(), name)
    }
}

/// `NAME=URL` for `--pprof`.
pub open spec fn scan_pprof(value: Seq<char>, o: WatchScan) -> Result<WatchScan, Seq<char>> {
    match split_once(value, '=') {
        None => Err("--pprof requires NAME=URL"@),
        Some((service, url)) => if !valid_service_name(service) {
            Err(invalid_name_message(service))
        } else if !has_prefix(url, "http://"@) {
            Err("--pprof currently supports local http:// URLs only"@)
        } else if lookup(o.pprof, service) is Some {
            Err("duplicate --pprof configuration for '"@ + service + "'"@)
        } else {
            Ok(WatchScan { pprof: o.pprof.push((service, url)), ..o })
        },
    }
}

/// What the option `raw[i]` does, with the value after it where it takes
/// one.
pub open spec fn scan(raw: Seq<Seq<char>>, i: int, o: WatchScan) -> ScanEnd
    decreases raw.len() - i,
{
    if i < 0 || i >= raw.len() {
        ScanEnd::Done(o)
    } else {
        let a = raw[i];
        let has_value = i + 1 < raw.len();
        let v = raw[i + 1];
        if a == "--service"@ {
            if !has_value {
                ScanEnd::Fail("--service requires NAME=TYPE:VALUE"@)
            } else {
                match parse_service_spec(v) {
                    Ok(s) => scan(raw, i + 2, WatchScan { services: o.services.push(s), ..o }),
                    Err(e) => ScanEnd::Fail(e),
                }
            }
        } else if a == "--pprof"@ {
            if !has_value {
                ScanEnd::Fail("--pprof requires NAME=URL"@)
            } else {
                match scan_pprof(v, o) {
                    Ok(o2) => scan(raw, i + 2, o2),
                    Err(e) => ScanEnd::Fail(e),
                }
            }
        } else if a == "--pid"@ {
            if !has_value {
                ScanEnd::Fail("--pid requires a value"@)
            } else {
                match parse_i32_spec(v) {
                    Some(p) => scan(raw, i + 2, WatchScan { pid: Some(p), ..o }),
                    None => ScanEnd::Fail("--pid must be numeric"@),
                }
            }
        } else if a == "--name"@ {
            if !has_value {
                ScanEnd::Fail("--name requires a value"@)
            } else {
                scan(raw, i + 2, WatchScan { name: Some(v), ..o })
            }
        } else if a == "--container"@ {
            if !has_value {
                ScanEnd::Fail("--container requires a name"@)
            } else {
                scan(raw, i + 2, WatchScan { container: Some(v), ..o })
            }
        } else if a == "--label"@ {
            if !has_value {
                ScanEnd::Fail("--label requires a value"@)
            } else if !valid_service_name(v) {
                ScanEnd::Fail(invalid_name_message(v))
            } else {
                scan(raw, i + 2, WatchScan { label: Some(v), ..o })
            }
        } else if a == "--interval"@ {
            if !has_value {
                ScanEnd::Fail("--interval requires seconds"@)
            } else {
                match parse_positive_u64_spec(v, "--interval"@) {
                    Ok(n) => scan(raw, i + 2, WatchScan { interval: n, ..o }),
                    Err(e) => ScanEnd::Fail(e),
                }
            }
        } else if a == "--pprof-interval"@ {
            if !has_value {
                ScanEnd::Fail("--pprof-interval requires seconds"@)
            } else {
                match parse_positive_u64_spec(v, "--pprof-interval"@) {
                    Ok(n) => scan(raw, i + 2, WatchScan { pprof_interval: n, ..o }),
                    Err(e) => ScanEnd::Fail(e),
                }
            }
        } else if a == "--db"@ {
            if !has_value {
                ScanEnd::Fail("--db requires a path"@)
            } else {
                scan(raw, i + 2, WatchScan { db_path: v, ..o })
            }
        } else if a == "--once"@ {
            scan(raw, i + 1, WatchScan { once: true, ..o })
        } else if a == "--retention-hours"@ {
            if !has_value {
                ScanEnd::Fail("--retention-hours requires hours"@)
            } else {
                match parse_u64_arg_spec(v, "--retention-hours"@) {
                    Ok(n) => scan(raw, i + 2, WatchScan { retention_hours: n, ..o }),
                    Err(e) => ScanEnd::Fail(e),
                }
            }
        } else if a == "--max-samples"@ {
            if !has_value {
                ScanEnd::Fail("--max-samples requires a count"@)
            } else {
                match parse_u64_arg_spec(v, "--max-samples"@) {
                    Ok(n) => scan(raw, i + 2, WatchScan { max_samples: n, ..o }),
                    Err(e) => ScanEnd::Fail(e),
                }
            }
        } else if a == "--"@ {
            let command = raw.skip(i + 1);
            if command.len() == 0 {
                ScanEnd::Fail("a command is required after --"@)
            } else {
                ScanEnd::Done(WatchScan { launch: Some(command), ..o })
            }
        } else if a == "-h"@ || a == "--help"@ {
            ScanEnd::Help
        } else {
            ScanEnd::Fail("unknown watch argument: "@ + a)
        }
    }
}

pub open spec fn count_some<A>(o: Option<A>) -> nat {
    if o is Some {
        1
    } else {
        0
    }
}

pub open spec fn legacy_count(o: WatchScan) -> nat {
    count_some(o.pid) + count_some(o.name) + count_some(o.container) + count_some(o.launch)
}

pub open spec fn legacy_target(o: WatchScan) -> TargetView {
    if o.pid is Some {
        TargetView::Pid(o.pid->0)
    } else if o.name is Some {
        TargetView::Name(o.name->0)
    } else if o.container is Some {
        TargetView::Container(o.container->0)
    } else {
        TargetView::Launch(o.launch->0)
    }
}

/// The name of the first service whose name an earlier service already
/// has.
pub open spec fn first_duplicate(s: Seq<ServiceView>, j: int) -> Option<Seq<char>>
    decreases s.len() - j,
{
    if j < 0 || j >= s.len() {
        None
    } else if exists|k: int| 0 <= k < j && s[k].name == s[j].name {
        Some(s[j].name)
    } else {
        first_duplicate(s, j + 1)
    }
}

/// Whether some service has the name `n`.
pub open spec fn has_service(s: Seq<ServiceView>, n: Seq<char>) -> bool {
    exists|k: int| 0 <= k < s.len() && s[k].name == n
}

/// The first `--pprof` entry that names no service.
pub open spec fn first_unmatched(pprof: Seq<(Seq<char>, Seq<char>)>, s: Seq<ServiceView>) -> Option<
    Seq<char>,
>
    decreases pprof.len(),
{
    if pprof.len() == 0 {
        None
    } else if !has_service(s, pprof[0].0) {
        Some(pprof[0].0)
    } else {
        first_unmatched(pprof.drop_first(), s)
    }
}

/// Each service with the URL that `--pprof` gave its name.
pub open spec fn with_pprof(s: Seq<ServiceView>, pprof: Seq<(Seq<char>, Seq<char>)>) -> Seq<
    ServiceView,
> {
    s.map_values(|x: ServiceView| ServiceView { pprof_url: lookup(pprof, x.name), ..x })
}

pub open spec fn assign_pprof(s: Seq<ServiceView>, pprof: Seq<(Seq<char>, Seq<char>)>) -> Result<
    Seq<ServiceView>,
    Seq<char>,
> {
    match first_duplicate(s, 0) {
        Some(n) => Err("duplicate service name: '"@ + n + "'"@),
        None => match first_unmatched(pprof, s) {
            Some(n) => Err("--pprof references unknown service '"@ + n + "'"@),
            None => Ok(with_pprof(s, pprof)),
        },
    }
}

/// The services that the options name.
pub open spec fn scan_services(o: WatchScan) -> Result<Seq<ServiceView>, Seq<char>> {
    if o.services.len() > 0 && legacy_count(o) > 0 {
        Err("--service cannot be combined with --pid, --name, --container, or --"@)
    } else if o.services.len() == 0 {
        if legacy_count(o) != 1 {
            Err(
                "watch requires --service or exactly one legacy target: --pid, --name, --container, or -- <command>"@,
            )
        } else {
            let t = legacy_target(o);
            let name = match o.label {
                Some(l) => l,
                None => default_service_name_spec(t),
            };
            Ok(seq![ServiceView { name, target: t, pprof_url: None }])
        }
    } else if o.label is Some {
        Err("--label is only valid with a legacy single target"@)
    } else {
        Ok(o.services)
    }
}

pub open spec fn finish_watch(o: WatchScan) -> Result<WatchArgsView, Seq<char>> {
    match scan_services(o) {
        Err(e) => Err(e),
        Ok(s) => match assign_pprof(s, o.pprof) {
            Err(e) => Err(e),
            Ok(services) => Ok(
                WatchArgsView {
                    services,
                    interval: o.interval,
                    pprof_interval: o.pprof_interval,
                    db_path: o.db_path,
                    once: o.once,
                    retention_hours: o.retention_hours,
                    max_samples: o.max_samples,
                    dashboard: true,
                },
            ),
        },
    }
}

pub open spec fn contains_config(raw: Seq<Seq<char>>) -> bool {
    exists|k: int| 0 <= k < raw.len() && raw[k] == "--config"@
}

/// `watch` and its arguments.
pub open spec fn parse_watch_spec(raw: Seq<Seq<char>>) -> Result<CommandView, Seq<char>> {
    if contains_config(raw) {
        parse_config_watch_spec(raw, true)
    } else {
        match scan(raw, 0, initial_scan()) {
            ScanEnd::Help => Ok(CommandView::Help),
            ScanEnd::Fail(e) => Err(e),
            ScanEnd::Done(o) => match finish_watch(o) {
                Ok(a) => Ok(CommandView::Watch(a)),
                Err(e) => Err(e),
            },
        }
    }
}

// ---------------------------------------------------------------------------
// Configuration-file mode
// ---------------------------------------------------------------------------

pub enum ConfigScan {
    Done(Option<Seq<char>>, bool),
    Help,
    Fail(Seq<char>),
}

pub open spec fn scan_config(raw: Seq<Seq<char>>, i: int, path: Option<Seq<char>>, once: bool) -> ConfigScan
    decreases raw.len() - i,
{
    if i < 0 || i >= raw.len() {
        ConfigScan::Done(path, once)
    } else if raw[i] == "--config"@ {
        if path is Some {
            ConfigScan::Fail("--config can only be specified once"@)
        } else if i + 1 >= raw.len() {
            ConfigScan::Fail("--config requires a path"@)
        } else {
            scan_config(raw, i + 2, Some(raw[i + 1]), once)
        }
    } else if raw[i] == "--once"@ {
        scan_config(raw, i + 1, path, true)
    } else if raw[i] == "-h"@ || raw[i] == "--help"@ {
        ConfigScan::Help
    } else {
        ConfigScan::Fail(raw[i] + " cannot be combined with --config; put the setting in the TOML file"@)
    }
}

pub open spec fn parse_config_watch_spec(raw: Seq<Seq<char>>, dashboard: bool) -> Result<
    CommandView,
    Seq<char>,
> {
    match scan_config(raw, 0, None, false) {
        ConfigScan::Help => Ok(CommandView::Help),
        ConfigScan::Fail(e) => Err(e),
        ConfigScan::Done(path, once) => match path {
            None => Err("--config requires a path"@),
            Some(p) => Ok(
                CommandView::Configured(ConfigRequestView { path: p, once, dashboard }),
            ),
        },
    }
}

fn contains_arg(raw: &[String], lit: &str) -> (r: bool)
    ensures
        r == exists|k: int| 0 <= k < raw@.len() && raw@[k]@ == lit@,
{
    let mut i: usize = 0;
    while i < raw.len()
        invariant
            i <= raw.len(),
            forall|k: int| 0 <= k < i ==> raw@[k]@ != lit@,
        decreases raw.len() - i,
    {
        if str_eq(raw[i].as_str(), lit) {
            return true;
        }
        i = i + 1;
    }
    false
}

fn parse_config_watch(raw: &[String], dashboard: bool) -> (r: Result<Command, String>)
    ensures
        result_view(r) == parse_config_watch_spec(svs(raw@), dashboard),
{
    let ghost v = svs(raw@);
    let mut path: Option<String> = None;
    let mut once = false;
    let mut i: usize = 0;
    while i < raw.len()
        invariant
            v == svs(raw@),
            i <= raw.len() + 1,
            scan_config(v, 0, None, false) == scan_config(v, i as int, opt_view(path), once),
        decreases raw.len() + 1 - i,
    {
        let a = raw[i].as_str();
        assert(v[i as int] == a@);
        if str_eq(a, "--config") {
            if path.is_some() {
                return Err(owned("--config can only be specified once"));
            }
            if i + 1 >= raw.len() {
                return Err(owned("--config requires a path"));
            }
            assert(v[i + 1] == raw@[i + 1]@);
            path = Some(copy_string(&raw[i + 1]));
            i = i + 2;
        } else if str_eq(a, "--once") {
            once = true;
            i = i + 1;
        } else if str_eq(a, "-h") || str_eq(a, "--help") {
            return Ok(Command::Help);
        } else {
            return Err(concat(a, " cannot be combined with --config; put the setting in the TOML file"));
        }
    }
    match path {
        None => Err(owned("--config requires a path")),
        Some(p) => Ok(Command::Configured(ConfigRequest { path: p, once, dashboard })),
    }
}

// ---------------------------------------------------------------------------
// Watch arguments
// ---------------------------------------------------------------------------

struct WatchOptions {
    pid: Option<i32>,
    name: Option<String>,
    container: Option<String>,
    launch: Option<Vec<String>>,
    label: Option<String>,
    services: Vec<ServiceSpec>,
    pprof: Vec<(String, String)>,
    interval: u64,
    pprof_interval: u64,
    db_path: String,
    once: bool,
    retention_hours: u64,
    max_samples: u64,
}

pub open spec fn pair_views(p: Seq<(String, String)>) -> Seq<(Seq<char>, Seq<char>)> {
    p.map_values(|x: (String, String)| (x.0@, x.1@))
}

pub open spec fn opt_launch_view(o: Option<Vec<String>>) -> Option<Seq<Seq<char>>> {
    match o {
        Some(v) => Some(svs(v@)),
        None => None,
    }
}

impl View for WatchOptions {
    type V = WatchScan;

    closed spec fn view(&self) -> WatchScan {
        WatchScan {
            pid: self.pid,
            name: opt_view(self.name),
            container: opt_view(self.container),
            launch: opt_launch_view(self.launch),
            label: opt_view(self.label),
            services: service_views(self.services@),
            pprof: pair_views(self.pprof@),
            interval: self.interval,
            pprof_interval: self.pprof_interval,
            db_path: self.db_path@,
            once: self.once,
            retention_hours: self.retention_hours,
            max_samples: self.max_samples,
        }
    }
}

fn lookup_pprof(pprof: &Vec<(String, String)>, name: &str) -> (r: Option<usize>)
    ensures
        r matches Some(k) ==> k < pprof.len() && lookup(pair_views(pprof@), name@) == Some(
            pprof@[k as int].1@,
        ),
        r is None ==> lookup(pair_views(pprof@), name@) is None,
{
    let ghost p = pair_views(pprof@);
    let mut i: usize = 0;
    assert(p.skip(0) == p);
    while i < pprof.len()
        invariant
            i <= pprof.len(),
            p == pair_views(pprof@),
            lookup(p, name@) == lookup(p.skip(i as int), name@),
        decreases pprof.len() - i,
    {
        assert(p.skip(i as int)[0] == p[i as int]);
        if str_eq(pprof[i].0.as_str(), name) {
            return Some(i);
        }
        assert(p.skip(i as int).drop_first() == p.skip(i + 1));
        i = i + 1;
    }
    None
}

fn scan_pprof_exec(value: &str, opts: &mut WatchOptions) -> (r: Result<(), String>)
    ensures
        match scan_pprof(value@, old(opts)@) {
            Ok(o2) => r is Ok && final(opts)@ == o2,
            Err(e) => r matches Err(m) && m@ == e,
        },
{
    let v = chars_of(value);
    match split_once_chars(v.as_slice(), '=') {
        None => Err(owned("--pprof requires NAME=URL")),
        Some((service, url)) => {
            let service_s = string_from(service.as_slice());
            validate_service_name(service_s.as_str())?;
            let url_s = string_from(url.as_slice());
            if !str_starts_with(url_s.as_str(), "http://") {
                return Err(owned("--pprof currently supports local http:// URLs only"));
            }
            if lookup_pprof(&opts.pprof, service_s.as_str()).is_some() {
                return Err(concat3("duplicate --pprof configuration for '", service_s.as_str(), "'"));
            }
            let ghost before = opts.pprof@;
            opts.pprof.push((service_s, url_s));
            assert(pair_views(opts.pprof@) =~= pair_views(before).push((service@, url@)));
            Ok(())
        },
    }
}

fn scan_exec(raw: &[String], opts: &mut WatchOptions) -> (r: Result<bool, String>)
    requires
        scan(svs(raw@), 0, initial_scan()) == scan(svs(raw@), 0, old(opts)@),
    ensures
        match scan(svs(raw@), 0, old(opts)@) {
            ScanEnd::Done(o) => r == Ok::<bool, String>(true) && final(opts)@ == o,
            ScanEnd::Help => r == Ok::<bool, String>(false),
            ScanEnd::Fail(e) => r matches Err(m) && m@ == e,
        },
{
    let ghost v = svs(raw@);
    let ghost start = old(opts)@;
    let mut i: usize = 0;
    while i < raw.len()
        invariant
            v == svs(raw@),
            v.len() == raw.len(),
            start == old(opts)@,
            scan(v, 0, start) == scan(v, i as int, opts@),
        decreases raw.len() - i,
    {
        let a = raw[i].as_str();
        assert(v[i as int] == a@);
        let has_value = i + 1 < raw.len();
        if has_value {
            assert(v[i + 1] == raw@[i + 1]@);
        }
        if str_eq(a, "--service") {
            if !has_value {
                return Err(owned("--service requires NAME=TYPE:VALUE"));
            }
            let s = parse_service(raw[i + 1].as_str())?;
            let ghost before = opts.services@;
            opts.services.push(s);
            assert(service_views(opts.services@) =~= service_views(before).push(s@));
            i = i + 2;
        } else if str_eq(a, "--pprof") {
            if !has_value {
                return Err(owned("--pprof requires NAME=URL"));
            }
            scan_pprof_exec(raw[i + 1].as_str(), opts)?;
            i = i + 2;
        } else if str_eq(a, "--pid") {
            if !has_value {
                return Err(owned("--pid requires a value"));
            }
            match parse_i32(raw[i + 1].as_str()) {
                Some(p) => opts.pid = Some(p),
                None => return Err(owned("--pid must be numeric")),
            }
            i = i + 2;
        } else if str_eq(a, "--name") {
            if !has_value {
                return Err(owned("--name requires a value"));
            }
            opts.name = Some(copy_string(&raw[i + 1]));
            i = i + 2;
        } else if str_eq(a, "--container") {
            if !has_value {
                return Err(owned("--container requires a name"));
            }
            opts.container = Some(copy_string(&raw[i + 1]));
            i = i + 2;
        } else if str_eq(a, "--label") {
            if !has_value {
                return Err(owned("--label requires a value"));
            }
            validate_service_name(raw[i + 1].as_str())?;
            opts.label = Some(copy_string(&raw[i + 1]));
            i = i + 2;
        } else if str_eq(a, "--interval") {
            if !has_value {
                return Err(owned("--interval requires seconds"));
            }
            opts.interval = parse_positive_u64(raw[i + 1].as_str(), "--interval")?;
            i = i + 2;
        } else if str_eq(a, "--pprof-interval") {
            if !has_value {
                return Err(owned("--pprof-interval requires seconds"));
            }
            opts.pprof_interval = parse_positive_u64(raw[i + 1].as_str(), "--pprof-interval")?;
            i = i + 2;
        } else if str_eq(a, "--db") {
            if !has_value {
                return Err(owned("--db requires a path"));
            }
            opts.db_path = copy_string(&raw[i + 1]);
            i = i + 2;
        } else if str_eq(a, "--once") {
            opts.once = true;
            i = i + 1;
        } else if str_eq(a, "--retention-hours") {
            if !has_value {
                return Err(owned("--retention-hours requires hours"));
            }
            opts.retention_hours = parse_u64_arg(raw[i + 1].as_str(), "--retention-hours")?;
            i = i + 2;
        } else if str_eq(a, "--max-samples") {
            if !has_value {
                return Err(owned("--max-samples requires a count"));
            }
            opts.max_samples = parse_u64_arg(raw[i + 1].as_str(), "--max-samples")?;
            i = i + 2;
        } else if str_eq(a, "--") {
            let mut command: Vec<String> = Vec::new();
            let mut j: usize = i + 1;
            while j < raw.len()
                invariant
                    i + 1 <= j <= raw.len(),
                    v == svs(raw@),
                    svs(command@) == v.subrange(i + 1, j as int),
                decreases raw.len() - j,
            {
                let c = copy_string(&raw[j]);
                let ghost before = command@;
                command.push(c);
                assert(command@ == before.push(c));
                assert(svs(command@) =~= svs(before).push(c@));
                j = j + 1;
                assert(svs(command@) =~= v.subrange(i + 1, j as int));
            }
            assert(v.subrange(i + 1, raw.len() as int) == v.skip(i + 1));
            if command.len() == 0 {
                return Err(owned("a command is required after --"));
            }
            opts.launch = Some(command);
            return Ok(true);
        } else if str_eq(a, "-h") || str_eq(a, "--help") {
            return Ok(false);
        } else {
            return Err(concat("unknown watch argument: ", a));
        }
    }
    Ok(true)
}

fn has_duplicate_before(services: &Vec<ServiceSpec>, j: usize) -> (r: bool)
    requires
        j < services.len(),
    ensures
        r == exists|k: int|
            0 <= k < j && service_views(services@)[k].name == service_views(services@)[j as int].name,
{
    let ghost s = service_views(services@);
    let mut k: usize = 0;
    while k < j
        invariant
            k <= j < services.len(),
            s == service_views(services@),
            forall|x: int| 0 <= x < k ==> s[x].name != s[j as int].name,
        decreases j - k,
    {
        if str_eq(services[k].name.as_str(), services[j].name.as_str()) {
            assert(s[k as int].name == s[j as int].name);
            return true;
        }
        k = k + 1;
    }
    false
}

fn find_service(services: &Vec<ServiceSpec>, name: &str) -> (r: bool)
    ensures
        r == has_service(service_views(services@), name@),
{
    let ghost s = service_views(services@);
    let mut k: usize = 0;
    while k < services.len()
        invariant
            k <= services.len(),
            s == service_views(services@),
            forall|x: int| 0 <= x < k ==> s[x].name != name@,
        decreases services.len() - k,
    {
        if str_eq(services[k].name.as_str(), name) {
            assert(s[k as int].name == name@);
            return true;
        }
        k = k + 1;
    }
    false
}

fn assign_pprof_exec(services: Vec<ServiceSpec>, pprof: &Vec<(String, String)>) -> (r: Result<
    Vec<ServiceSpec>,
    String,
>)
    ensures
        match assign_pprof(service_views(services@), pair_views(pprof@)) {
            Ok(s) => r matches Ok(v) && service_views(v@) == s,
            Err(e) => r matches Err(m) && m@ == e,
        },
{
    let ghost s = service_views(services@);
    let ghost p = pair_views(pprof@);
    let mut j: usize = 0;
    while j < services.len()
        invariant
            j <= services.len(),
            s == service_views(services@),
            first_duplicate(s, 0) == first_duplicate(s, j as int),
        decreases services.len() - j,
    {
        if has_duplicate_before(&services, j) {
            return Err(concat3("duplicate service name: '", services[j].name.as_str(), "'"));
        }
        j = j + 1;
    }
    let mut k: usize = 0;
    assert(p.skip(0) == p);
    while k < pprof.len()
        invariant
            k <= pprof.len(),
            p == pair_views(pprof@),
            first_duplicate(s, 0) is None,
            s == service_views(services@),
            first_unmatched(p, s) == first_unmatched(p.skip(k as int), s),
        decreases pprof.len() - k,
    {
        assert(p.skip(k as int)[0] == p[k as int]);
        if !find_service(&services, pprof[k].0.as_str()) {
            return Err(concat3("--pprof references unknown service '", pprof[k].0.as_str(), "'"));
        }
        assert(p.skip(k as int).drop_first() == p.skip(k + 1));
        k = k + 1;
    }
    let mut out: Vec<ServiceSpec> = Vec::new();
    let mut i: usize = 0;
    while i < services.len()
        invariant
            i <= services.len(),
            s == service_views(services@),
            p == pair_views(pprof@),
            service_views(out@) == with_pprof(s, p).take(i as int),
        decreases services.len() - i,
    {
        let url = match lookup_pprof(pprof, services[i].name.as_str()) {
            Some(k) => Some(copy_string(&pprof[k].1)),
            None => None,
        };
        let spec = ServiceSpec {
            name: copy_string(&services[i].name),
            target: copy_target(&services[i].target),
            pprof_url: url,
        };
        assert(s[i as int] == services@[i as int]@);
        assert(spec@ == with_pprof(s, p)[i as int]);
        let ghost before = out@;
        out.push(spec);
        assert(service_views(out@) =~= service_views(before).push(spec@));
        i = i + 1;
        assert(service_views(out@) =~= with_pprof(s, p).take(i as int));
    }
    assert(with_pprof(s, p).take(i as int) == with_pprof(s, p));
    Ok(out)
}

fn copy_services(v: &Vec<ServiceSpec>) -> (out: Vec<ServiceSpec>)
    ensures
        service_views(out@) == service_views(v@),
{
    let mut out: Vec<ServiceSpec> = Vec::new();
    let mut i: usize = 0;
    while i < v.len()
        invariant
            i <= v.len(),
            service_views(out@) == service_views(v@).take(i as int),
        decreases v.len() - i,
    {
        let c = ServiceSpec {
            name: copy_string(&v[i].name),
            target: copy_target(&v[i].target),
            pprof_url: match &v[i].pprof_url {
                Some(u) => Some(copy_string(u)),
                None => None,
            },
        };
        assert(c@ == v@[i as int]@);
        let ghost before = out@;
        out.push(c);
        assert(service_views(out@) =~= service_views(before).push(c@));
        i = i + 1;
        assert(service_views(out@) =~= service_views(v@).take(i as int));
    }
    assert(service_views(v@).take(i as int) == service_views(v@));
    out
}

pub fn copy_target(t: &Target) -> (r: Target)
    ensures
        r@ == t@,
{
    match t {
        Target::Pid(p) => Target::Pid(*p),
        Target::Name(n) => Target::Name(copy_string(n)),
        Target::Container(n) => Target::Container(copy_string(n)),
        Target::Launch(c) => Target::Launch(copy_strings(c)),
    }
}


fn default_options() -> (o: WatchOptions)
    ensures
        o@ == initial_scan(),
{
    let o = WatchOptions {
        pid: None,
        name: None,
        container: None,
        launch: None,
        label: None,
        services: Vec::new(),
        pprof: Vec::new(),
        interval: DEFAULT_INTERVAL_SECS,
        pprof_interval: DEFAULT_PPROF_INTERVAL_SECS,
        db_path: default_db_path(),
        once: false,
        retention_hours: DEFAULT_RETENTION_HOURS,
        max_samples: DEFAULT_MAX_SAMPLES,
    };
    assert(service_views(o.services@) =~= Seq::<ServiceView>::empty());
    assert(pair_views(o.pprof@) =~= Seq::<(Seq<char>, Seq<char>)>::empty());
    o
}

fn scan_services_exec(opts: &WatchOptions, services: Vec<ServiceSpec>) -> (r: Result<
    Vec<ServiceSpec>,
    String,
>)
    requires
        service_views(services@) == opts@.services,
    ensures
        match scan_services(opts@) {
            Ok(s) => r matches Ok(v) && service_views(v@) == s,
            Err(e) => r matches Err(m) && m@ == e,
        },
{
    let count: u8 = (if opts.pid.is_some() {
        1u8
    } else {
        0u8
    }) + (if opts.name.is_some() {
        1u8
    } else {
        0u8
    }) + (if opts.container.is_some() {
        1u8
    } else {
        0u8
    }) + (if opts.launch.is_some() {
        1u8
    } else {
        0u8
    });
    assert(count == legacy_count(opts@));
    if services.len() > 0 && count > 0 {
        return Err(owned("--service cannot be combined with --pid, --name, --container, or --"));
    }
    if services.len() == 0 {
        if count != 1 {
            return Err(
                owned(
                    "watch requires --service or exactly one legacy target: --pid, --name, --container, or -- <command>",
                ),
            );
        }
        let target = match (&opts.pid, &opts.name, &opts.container, &opts.launch) {
            (Some(p), _, _, _) => Target::Pid(*p),
            (None, Some(n), _, _) => Target::Name(copy_string(n)),
            (None, None, Some(c), _) => Target::Container(copy_string(c)),
            (None, None, None, Some(l)) => Target::Launch(copy_strings(l)),
            (None, None, None, None) => Target::Pid(0),
        };
        assert(target@ == legacy_target(opts@));
        let name = match &opts.label {
            Some(l) => copy_string(l),
            None => default_service_name(&target),
        };
        let mut out: Vec<ServiceSpec> = Vec::new();
        let spec = ServiceSpec { name, target, pprof_url: None };
        out.push(spec);
        assert(service_views(out@) =~= seq![spec@]);
        return Ok(out);
    }
    if opts.label.is_some() {
        return Err(owned("--label is only valid with a legacy single target"));
    }
    Ok(services)
}

fn parse_watch(raw: &[String]) -> (r: Result<Command, String>)
    ensures
        result_view(r) == parse_watch_spec(svs(raw@)),
{
    let ghost v = svs(raw@);
    if contains_arg(raw, "--config") {
        assert(contains_config(v)) by {
            let k = choose|k: int| 0 <= k < raw@.len() && raw@[k]@ == "--config"@;
            assert(v[k] == raw@[k]@);
        }
        return parse_config_watch(raw, true);
    }
    assert(!contains_config(v)) by {
        if contains_config(v) {
            let k = choose|k: int| 0 <= k < v.len() && v[k] == "--config"@;
            assert(v[k] == raw@[k]@);
        }
    }
    let mut opts = default_options();
    let more = scan_exec(raw, &mut opts)?;
    if !more {
        return Ok(Command::Help);
    }
    let services = copy_services(&opts.services);
    let services = scan_services_exec(&opts, services)?;
    let services = assign_pprof_exec(services, &opts.pprof)?;
    Ok(
        Command::Watch(
            WatchArgs {
                services,
                interval: opts.interval,
                pprof_interval: opts.pprof_interval,
                db_path: copy_string(&opts.db_path),
                once: opts.once,
                retention_hours: opts.retention_hours,
                max_samples: opts.max_samples,
                dashboard: true,
            },
        ),
    )
}

pub open spec fn parse_agent_spec(raw: Seq<Seq<char>>) -> Result<CommandView, Seq<char>> {
    if !contains_config(raw) {
        Err("agent requires --config PATH"@)
    } else {
        parse_config_watch_spec(raw, false)
    }
}

fn parse_agent(raw: &[String]) -> (r: Result<Command, String>)
    ensures
        result_view(r) == parse_agent_spec(svs(raw@)),
{
    let ghost v = svs(raw@);
    if !contains_arg(raw, "--config") {
        assert(!contains_config(v)) by {
            if contains_config(v) {
                let k = choose|k: int| 0 <= k < v.len() && v[k] == "--config"@;
                assert(v[k] == raw@[k]@);
            }
        }
        return Err(owned("agent requires --config PATH"));
    }
    assert(contains_config(v)) by {
        let k = choose|k: int| 0 <= k < raw@.len() && raw@[k]@ == "--config"@;
        assert(v[k] == raw@[k]@);
    }
    parse_config_watch(raw, false)
}

// ---------------------------------------------------------------------------
// Summary arguments
// ---------------------------------------------------------------------------

pub enum SummaryScan {
    Done(Seq<char>, Option<Seq<char>>),
    Help,
    Fail(Seq<char>),
}

pub open spec fn scan_summary(
    raw: Seq<Seq<char>>,
    i: int,
    db: Seq<char>,
    service: Option<Seq<char>>,
) -> SummaryScan
    decreases raw.len() - i,
{
    if i < 0 || i >= raw.len() {
        SummaryScan::Done(db, service)
    } else if raw[i] == "--db"@ {
        if i + 1 >= raw.len() {
            SummaryScan::Fail("--db requires a path"@)
        } else {
            scan_summary(raw, i + 2, raw[i + 1], service)
        }
    } else if raw[i] == "--service"@ {
        if i + 1 >= raw.len() {
            SummaryScan::Fail("--service requires a name"@)
        } else if !valid_service_name(raw[i + 1]) {
            SummaryScan::Fail(invalid_name_message(raw[i + 1]))
        } else {
            scan_summary(raw, i + 2, db, Some(raw[i + 1]))
        }
    } else if raw[i] == "-h"@ || raw[i] == "--help"@ {
        SummaryScan::Help
    } else {
        SummaryScan::Fail("unknown summary argument: "@ + raw[i])
    }
}

pub open spec fn parse_summary_spec(raw: Seq<Seq<char>>) -> Result<CommandView, Seq<char>> {
    match scan_summary(raw, 0, "server-metrics.db"@, None) {
        SummaryScan::Done(db, service) => Ok(
            CommandView::Summary(SummaryView { db_path: db, service }),
        ),
        SummaryScan::Help => Ok(CommandView::Help),
        SummaryScan::Fail(e) => Err(e),
    }
}

fn parse_summary(raw: &[String]) -> (r: Result<Command, String>)
    ensures
        result_view(r) == parse_summary_spec(svs(raw@)),
{
    let ghost v = svs(raw@);
    let mut db_path = default_db_path();
    let mut service: Option<String> = None;
    let mut i: usize = 0;
    while i < raw.len()
        invariant
            v == svs(raw@),
            v.len() == raw.len(),
            scan_summary(v, 0, "server-metrics.db"@, None) == scan_summary(
                v,
                i as int,
                db_path@,
                opt_view(service),
            ),
        decreases raw.len() - i,
    {
        let a = raw[i].as_str();
        assert(v[i as int] == a@);
        if i + 1 < raw.len() {
            assert(v[i + 1] == raw@[i + 1]@);
        }
        if str_eq(a, "--db") {
            if i + 1 >= raw.len() {
                return Err(owned("--db requires a path"));
            }
            db_path = copy_string(&raw[i + 1]);
            i = i + 2;
        } else if str_eq(a, "--service") {
            if i + 1 >= raw.len() {
                return Err(owned("--service requires a name"));
            }
            validate_service_name(raw[i + 1].as_str())?;
            service = Some(copy_string(&raw[i + 1]));
            i = i + 2;
        } else if str_eq(a, "-h") || str_eq(a, "--help") {
            return Ok(Command::Help);
        } else {
            return Err(concat("unknown summary argument: ", a));
        }
    }
    Ok(Command::Summary(SummaryArgs { db_path, service }))
}

// ---------------------------------------------------------------------------
// The command
// ---------------------------------------------------------------------------

/// The command that the arguments (without the program name) ask for.
pub open spec fn parse_spec(raw: Seq<Seq<char>>) -> Result<CommandView, Seq<char>> {
    if raw.len() == 0 {
        Ok(CommandView::Help)
    } else {
        let first = raw[0];
        if first == "-h"@ || first == "--help"@ || first == "help"@ {
            Ok(CommandView::Help)
        } else if first == "watch"@ {
            parse_watch_spec(raw.drop_first())
        } else if first == "agent"@ {
            parse_agent_spec(raw.drop_first())
        } else if first == "summary"@ {
            parse_summary_spec(raw.drop_first())
        } else if first == "--pid"@ || first == "--name"@ {
            parse_watch_spec(raw)
        } else {
            Err("unknown command: "@ + first)
        }
    }
}

fn tail_strings(raw: &Vec<String>) -> (out: Vec<String>)
    requires
        raw.len() > 0,
    ensures
        svs(out@) == svs(raw@).drop_first(),
{
    let mut out: Vec<String> = Vec::new();
    let mut i: usize = 1;
    while i < raw.len()
        invariant
            1 <= i <= raw.len(),
            svs(out@) == svs(raw@).subrange(1, i as int),
        decreases raw.len() - i,
    {
        let c = copy_string(&raw[i]);
        let ghost before = out@;
        out.push(c);
        assert(svs(out@) =~= svs(before).push(c@));
        i = i + 1;
        assert(svs(out@) =~= svs(raw@).subrange(1, i as int));
    }
    out
}

pub fn parse(raw: Vec<String>) -> (r: Result<Command, String>)
    ensures
        result_view(r) == parse_spec(svs(raw@)),
{
    let ghost v = svs(raw@);
    if raw.len() == 0 {
        return Ok(Command::Help);
    }
    let first = raw[0].as_str();
    assert(v[0] == first@);
    if str_eq(first, "-h") || str_eq(first, "--help") || str_eq(first, "help") {
        Ok(Command::Help)
    } else if str_eq(first, "watch") {
        let rest = tail_strings(&raw);
        parse_watch(rest.as_slice())
    } else if str_eq(first, "agent") {
        let rest = tail_strings(&raw);
        parse_agent(rest.as_slice())
    } else if str_eq(first, "summary") {
        let rest = tail_strings(&raw);
        parse_summary(rest.as_slice())
    } else if str_eq(first, "--pid") || str_eq(first, "--name") {
        parse_watch(raw.as_slice())
    } else {
        Err(concat("unknown command: ", first))
    }
}


// ---------------------------------------------------------------------------
// Laws
// ---------------------------------------------------------------------------

pub proof fn lemma_first_duplicate_none(s: Seq<ServiceView>, j: int)
    requires
        0 <= j,
        first_duplicate(s, j) is None,
    ensures
        forall|a: int, b: int| 0 <= a < b < s.len() && j <= b ==> s[a].name != s[b].name,
    decreases s.len() - j,
{
    if j < s.len() {
        lemma_first_duplicate_none(s, j + 1);
    }
}

pub open spec fn pprof_ok(p: Seq<(Seq<char>, Seq<char>)>) -> bool {
    forall|k: int| 0 <= k < p.len() ==> has_prefix(#[trigger] p[k].1, "http://"@)
}

pub proof fn lemma_lookup_ok(p: Seq<(Seq<char>, Seq<char>)>, name: Seq<char>)
    requires
        pprof_ok(p),
    ensures
        lookup(p, name) matches Some(u) ==> has_prefix(u, "http://"@),
    decreases p.len(),
{
    if p.len() > 0 {
        assert(has_prefix(p[0].1, "http://"@));
        assert forall|k: int| 0 <= k < p.drop_first().len() implies has_prefix(
            #[trigger] p.drop_first()[k].1,
            "http://"@,
        ) by {
            assert(p.drop_first()[k] == p[k + 1]);
        }
        lemma_lookup_ok(p.drop_first(), name);
    }
}

pub proof fn lemma_scan_pprof_ok(raw: Seq<Seq<char>>, i: int, o: WatchScan)
    requires
        pprof_ok(o.pprof),
        o.interval > 0,
        o.pprof_interval > 0,
    ensures
        scan(raw, i, o) matches ScanEnd::Done(o2) ==> pprof_ok(o2.pprof) && o2.interval > 0
            && o2.pprof_interval > 0,
    decreases raw.len() - i,
{
    if 0 <= i < raw.len() && i + 1 >= raw.len() {
        if raw[i] == "--once"@ {
            lemma_scan_pprof_ok(raw, i + 1, WatchScan { once: true, ..o });
        }
    } else if 0 <= i < raw.len() {
        let a = raw[i];
        let v = raw[i + 1];
        if a == "--service"@ {
            if let Ok(sv) = parse_service_spec(v) {
                lemma_scan_pprof_ok(raw, i + 2, WatchScan { services: o.services.push(sv), ..o });
            }
        } else if a == "--pprof"@ {
            if let Ok(o2) = scan_pprof(v, o) {
                let (service, url) = split_once(v, '=')->0;
                assert(o2.pprof == o.pprof.push((service, url)));
                assert(pprof_ok(o2.pprof)) by {
                    assert forall|k: int| 0 <= k < o2.pprof.len() implies has_prefix(
                        #[trigger] o2.pprof[k].1,
                        "http://"@,
                    ) by {
                        if k < o.pprof.len() {
                            assert(o2.pprof[k] == o.pprof[k]);
                        }
                    }
                }
                lemma_scan_pprof_ok(raw, i + 2, o2);
            }
        } else if a == "--pid"@ {
            if let Some(p) = parse_i32_spec(v) {
                lemma_scan_pprof_ok(raw, i + 2, WatchScan { pid: Some(p), ..o });
            }
        } else if a == "--name"@ {
            lemma_scan_pprof_ok(raw, i + 2, WatchScan { name: Some(v), ..o });
        } else if a == "--container"@ {
            lemma_scan_pprof_ok(raw, i + 2, WatchScan { container: Some(v), ..o });
        } else if a == "--label"@ {
            lemma_scan_pprof_ok(raw, i + 2, WatchScan { label: Some(v), ..o });
        } else if a == "--interval"@ {
            if let Ok(n) = parse_positive_u64_spec(v, "--interval"@) {
                lemma_scan_pprof_ok(raw, i + 2, WatchScan { interval: n, ..o });
            }
        } else if a == "--pprof-interval"@ {
            if let Ok(n) = parse_positive_u64_spec(v, "--pprof-interval"@) {
                lemma_scan_pprof_ok(raw, i + 2, WatchScan { pprof_interval: n, ..o });
            }
        } else if a == "--db"@ {
            lemma_scan_pprof_ok(raw, i + 2, WatchScan { db_path: v, ..o });
        } else if a == "--once"@ {
            lemma_scan_pprof_ok(raw, i + 1, WatchScan { once: true, ..o });
        } else if a == "--retention-hours"@ {
            if let Ok(n) = parse_u64_arg_spec(v, "--retention-hours"@) {
                lemma_scan_pprof_ok(raw, i + 2, WatchScan { retention_hours: n, ..o });
            }
        } else if a == "--max-samples"@ {
            if let Ok(n) = parse_u64_arg_spec(v, "--max-samples"@) {
                lemma_scan_pprof_ok(raw, i + 2, WatchScan { max_samples: n, ..o });
            }
        }
    }
}

/// A parsed `watch` command names at least one service, no two of its
/// services share a name, every pprof URL it attaches uses `http://`, both
/// intervals are at least one second, and the dashboard is shown.
pub proof fn lemma_watch_services(raw: Seq<Seq<char>>, a: WatchArgsView)
    requires
        parse_spec(raw) == Ok::<CommandView, Seq<char>>(CommandView::Watch(a)),
    ensures
        a.services.len() >= 1,
        forall|x: int, y: int|
            0 <= x < y < a.services.len() ==> a.services[x].name != a.services[y].name,
        forall|x: int|
            0 <= x < a.services.len() && (#[trigger] a.services[x]).pprof_url is Some
                ==> has_prefix(a.services[x].pprof_url->0, "http://"@),
        a.interval >= 1,
        a.pprof_interval >= 1,
        a.dashboard,
{
    let f = raw[0];
    let w = if f == "watch"@ {
        raw.drop_first()
    } else {
        raw
    };
    assert(parse_watch_spec(w) == Ok::<CommandView, Seq<char>>(CommandView::Watch(a))) by {
        if f == "-h"@ || f == "--help"@ || f == "help"@ {
        } else if f == "watch"@ {
        } else if f == "agent"@ {
        } else if f == "summary"@ {
        } else {
        }
    }
    assert(!contains_config(w));
    let o = scan(w, 0, initial_scan())->Done_0;
    lemma_scan_pprof_ok(w, 0, initial_scan());
    let s = scan_services(o)->Ok_0;
    assert(s.len() >= 1);
    lemma_first_duplicate_none(s, 0);
    assert forall|x: int|
        0 <= x < a.services.len() && (#[trigger] a.services[x]).pprof_url is Some implies has_prefix(
        a.services[x].pprof_url->0,
        "http://"@,
    ) by {
        lemma_lookup_ok(o.pprof, s[x].name);
    }
}

/// The description of a `pid:`, `name:` or `container:` target reads back
/// as the same target.
pub proof fn lemma_description_round_trip(t: TargetView)
    requires
        !(t is Launch),
        t matches TargetView::Name(n) ==> n.len() > 0,
        t matches TargetView::Container(n) ==> n.len() > 0,
    ensures
        parse_target_spec_spec(description_spec(t)) == Ok::<TargetView, Seq<char>>(t),
{
    reveal_strlit("pid:");
    reveal_strlit("name:");
    reveal_strlit("container:");
    reveal_strlit("pid");
    reveal_strlit("name");
    reveal_strlit("container");
    let d = description_spec(t);
    match t {
        TargetView::Pid(p) => {
            crate::text::lemma_parse_i32_decimal(p);
            crate::text::lemma_find_char_first(d, ':', 3);
            assert(d.take(3) =~= "pid"@);
            assert(d.skip(4) =~= signed_decimal(p as int));
        },
        TargetView::Name(n) => {
            crate::text::lemma_find_char_first(d, ':', 4);
            assert(d.take(4) =~= "name"@);
            assert(d.skip(5) =~= n);
        },
        TargetView::Container(n) => {
            crate::text::lemma_find_char_first(d, ':', 9);
            assert(d.take(9) =~= "container"@);
            assert(d.skip(10) =~= n);
        },
        TargetView::Launch(_) => {},
    }
}


proof fn lemma_split_after_kind(kind: Seq<char>, value: Seq<char>)
    requires
        forall|j: int| 0 <= j < kind.len() ==> kind[j] != ':',
    ensures
        split_once(kind + ":"@ + value, ':') == Some((kind, value)),
{
    reveal_strlit(":");
    let t = kind + ":"@ + value;
    assert(t[kind.len() as int] == ':');
    assert forall|j: int| 0 <= j < kind.len() implies t[j] != ':' by {
        assert(t[j] == kind[j]);
    }
    crate::text::lemma_find_char_first(t, ':', kind.len() as int);
    assert(t.take(kind.len() as int) =~= kind);
    assert(t.skip(kind.len() as int + 1) =~= value);
}

/// `pid:VALUE` is the PID that VALUE reads as, and `name:VALUE` and
/// `container:VALUE` are those targets, wherever VALUE is not empty.
pub proof fn lemma_target_forms(value: Seq<char>)
    ensures
        parse_target_spec_spec("pid:"@ + value) == if value.len() == 0 {
            Err::<TargetView, Seq<char>>("--service target value cannot be empty"@)
        } else {
            match parse_i32_spec(value) {
                Some(n) => Ok(TargetView::Pid(n)),
                None => Err("service pid must be numeric"@),
            }
        },
        parse_target_spec_spec("name:"@ + value) == if value.len() == 0 {
            Err::<TargetView, Seq<char>>("--service target value cannot be empty"@)
        } else {
            Ok(TargetView::Name(value))
        },
        parse_target_spec_spec("container:"@ + value) == if value.len() == 0 {
            Err::<TargetView, Seq<char>>("--service target value cannot be empty"@)
        } else {
            Ok(TargetView::Container(value))
        },
{
    reveal_strlit("pid:");
    reveal_strlit("name:");
    reveal_strlit("container:");
    reveal_strlit("pid");
    reveal_strlit("name");
    reveal_strlit("container");
    reveal_strlit(":");
    assert("pid:"@ + value =~= "pid"@ + ":"@ + value);
    assert("name:"@ + value =~= "name"@ + ":"@ + value);
    assert("container:"@ + value =~= "container"@ + ":"@ + value);
    lemma_split_after_kind("pid"@, value);
    lemma_split_after_kind("name"@, value);
    lemma_split_after_kind("container"@, value);
}

/// A target that parses has one of the three forms, with a value that is
/// not empty; a `pid:` value reads as the PID.
pub proof fn lemma_target_parsed(target: Seq<char>)
    ensures
        parse_target_spec_spec(target) matches Ok(TargetView::Pid(n)) ==> {
            &&& target == "pid:"@ + target.skip(4)
            &&& target.skip(4).len() > 0
            &&& parse_i32_spec(target.skip(4)) == Some(n)
        },
        parse_target_spec_spec(target) matches Ok(TargetView::Name(v)) ==> target == "name:"@ + v
            && v.len() > 0,
        parse_target_spec_spec(target) matches Ok(TargetView::Container(v)) ==> target
            == "container:"@ + v && v.len() > 0,
        !(parse_target_spec_spec(target) matches Ok(TargetView::Launch(_))),
{
    reveal_strlit("pid:");
    reveal_strlit("name:");
    reveal_strlit("container:");
    reveal_strlit("pid");
    reveal_strlit("name");
    reveal_strlit("container");
    crate::text::lemma_find_char(target, ':');
    if let Some(i) = crate::text::find_char(target, ':') {
        let kind = target.take(i);
        let value = target.skip(i + 1);
        assert(0 <= i < target.len() && target[i] == ':');
        assert(kind.len() == i);
        assert(split_once(target, ':') == Some((kind, value)));
        reveal_strlit(":");
        assert(target =~= kind + ":"@ + value);
        if parse_target_spec_spec(target) is Ok {
            if kind == "pid"@ {
                assert("pid"@.len() == 3);
                assert(i == 3);
                assert("pid:"@ =~= "pid"@ + ":"@);
                assert(value =~= target.skip(4));
            } else if kind == "name"@ {
                assert(i == 4);
                assert("name:"@ =~= "name"@ + ":"@);
            } else if kind == "container"@ {
                assert(i == 9);
                assert("container:"@ =~= "container"@ + ":"@);
            }
        }
    }
}

/// The watch options that set one value from the argument after them.
pub enum ValueOption {
    Interval,
    PprofInterval,
    RetentionHours,
    MaxSamples,
    Db,
}

/// The spelling of a value option on the command line.
pub open spec fn option_name(k: ValueOption) -> Seq<char> {
    match k {
        ValueOption::Interval => "--interval"@,
        ValueOption::PprofInterval => "--pprof-interval"@,
        ValueOption::RetentionHours => "--retention-hours"@,
        ValueOption::MaxSamples => "--max-samples"@,
        ValueOption::Db => "--db"@,
    }
}

/// Whether `value` is accepted after option `k`, and is not itself
/// spelled like an option: a number (positive for the intervals), or for
/// `--db` any path that does not start with `-`.
pub open spec fn accepted_value(k: ValueOption, value: Seq<char>) -> bool {
    &&& value.len() > 0
    &&& value[0] != '-'
    &&& match k {
        ValueOption::Interval | ValueOption::PprofInterval => parse_u64_spec(value) matches Some(
            n,
        ) && n > 0,
        ValueOption::RetentionHours | ValueOption::MaxSamples => parse_u64_spec(value) is Some,
        ValueOption::Db => true,
    }
}

/// Whether the watch arguments hold `value` as the setting of option `k`.
pub open spec fn holds_setting(a: WatchArgsView, k: ValueOption, value: Seq<char>) -> bool {
    match k {
        ValueOption::Interval => parse_u64_spec(value) == Some(a.interval),
        ValueOption::PprofInterval => parse_u64_spec(value) == Some(a.pprof_interval),
        ValueOption::RetentionHours => parse_u64_spec(value) == Some(a.retention_hours),
        ValueOption::MaxSamples => parse_u64_spec(value) == Some(a.max_samples),
        ValueOption::Db => a.db_path == value,
    }
}

pub open spec fn scan_holds(o: WatchScan, k: ValueOption, value: Seq<char>) -> bool {
    match k {
        ValueOption::Interval => parse_u64_spec(value) == Some(o.interval),
        ValueOption::PprofInterval => parse_u64_spec(value) == Some(o.pprof_interval),
        ValueOption::RetentionHours => parse_u64_spec(value) == Some(o.retention_hours),
        ValueOption::MaxSamples => parse_u64_spec(value) == Some(o.max_samples),
        ValueOption::Db => o.db_path == value,
    }
}

proof fn lemma_scan_last_setting(r: Seq<Seq<char>>, m: int, i: int, o: WatchScan, k: ValueOption)
    requires
        r.len() == m + 2,
        0 <= i <= m + 1,
        r[m] == option_name(k),
        accepted_value(k, r[m + 1]),
        forall|j: int| 0 <= j < m ==> r[j] != "--"@,
    ensures
        scan(r, i, o) matches ScanEnd::Done(o2) ==> scan_holds(o2, k, r[m + 1]),
    decreases m + 2 - i,
{
    reveal_strlit("--service");
    reveal_strlit("--pprof");
    reveal_strlit("--pid");
    reveal_strlit("--name");
    reveal_strlit("--container");
    reveal_strlit("--label");
    reveal_strlit("--interval");
    reveal_strlit("--pprof-interval");
    reveal_strlit("--db");
    reveal_strlit("--once");
    reveal_strlit("--retention-hours");
    reveal_strlit("--max-samples");
    reveal_strlit("--");
    reveal_strlit("-h");
    reveal_strlit("--help");
    let a = r[i];
    let v = r[i + 1];
    if i == m + 1 {
        assert(scan(r, i, o) is Fail);
    } else if i == m {
        let o2 = match k {
            ValueOption::Interval => WatchScan { interval: parse_u64_spec(v)->0, ..o },
            ValueOption::PprofInterval => WatchScan { pprof_interval: parse_u64_spec(v)->0, ..o },
            ValueOption::RetentionHours => WatchScan { retention_hours: parse_u64_spec(v)->0, ..o },
            ValueOption::MaxSamples => WatchScan { max_samples: parse_u64_spec(v)->0, ..o },
            ValueOption::Db => WatchScan { db_path: v, ..o },
        };
        assert(scan(r, m + 2, o2) == ScanEnd::Done(o2));
        assert(scan(r, i, o) == ScanEnd::Done(o2));
    } else {
        assert(a != "--"@);
        if a == "--service"@ {
            if let Ok(sv) = parse_service_spec(v) {
                lemma_scan_last_setting(r, m, i + 2, WatchScan { services: o.services.push(sv), ..o }, k);
            }
        } else if a == "--pprof"@ {
            if let Ok(o2) = scan_pprof(v, o) {
                lemma_scan_last_setting(r, m, i + 2, o2, k);
            }
        } else if a == "--pid"@ {
            if let Some(p) = parse_i32_spec(v) {
                lemma_scan_last_setting(r, m, i + 2, WatchScan { pid: Some(p), ..o }, k);
            }
        } else if a == "--name"@ {
            lemma_scan_last_setting(r, m, i + 2, WatchScan { name: Some(v), ..o }, k);
        } else if a == "--container"@ {
            lemma_scan_last_setting(r, m, i + 2, WatchScan { container: Some(v), ..o }, k);
        } else if a == "--label"@ {
            lemma_scan_last_setting(r, m, i + 2, WatchScan { label: Some(v), ..o }, k);
        } else if a == "--interval"@ {
            if let Ok(n) = parse_positive_u64_spec(v, "--interval"@) {
                lemma_scan_last_setting(r, m, i + 2, WatchScan { interval: n, ..o }, k);
            }
        } else if a == "--pprof-interval"@ {
            if let Ok(n) = parse_positive_u64_spec(v, "--pprof-interval"@) {
                lemma_scan_last_setting(r, m, i + 2, WatchScan { pprof_interval: n, ..o }, k);
            }
        } else if a == "--db"@ {
            lemma_scan_last_setting(r, m, i + 2, WatchScan { db_path: v, ..o }, k);
        } else if a == "--once"@ {
            lemma_scan_last_setting(r, m, i + 1, WatchScan { once: true, ..o }, k);
        } else if a == "--retention-hours"@ {
            if let Ok(n) = parse_u64_arg_spec(v, "--retention-hours"@) {
                lemma_scan_last_setting(r, m, i + 2, WatchScan { retention_hours: n, ..o }, k);
            }
        } else if a == "--max-samples"@ {
            if let Ok(n) = parse_u64_arg_spec(v, "--max-samples"@) {
                lemma_scan_last_setting(r, m, i + 2, WatchScan { max_samples: n, ..o }, k);
            }
        }
    }
}

/// The last `--interval`, `--pprof-interval`, `--retention-hours`,
/// `--max-samples` or `--db` given decides that setting: where a `watch`
/// command line (with no `--` among its options) ends with such an option
/// and an accepted value, and parses to a watch, the watch holds that
/// value.
pub proof fn lemma_last_setting_wins(
    raw: Seq<Seq<char>>,
    k: ValueOption,
    value: Seq<char>,
    a: WatchArgsView,
)
    requires
        forall|j: int| 0 <= j < raw.len() ==> raw[j] != "--"@,
        accepted_value(k, value),
        parse_spec(seq!["watch"@] + raw + seq![option_name(k), value]) == Ok::<
            CommandView,
            Seq<char>,
        >(CommandView::Watch(a)),
    ensures
        holds_setting(a, k, value),
{
    reveal_strlit("watch");
    reveal_strlit("-h");
    reveal_strlit("--help");
    reveal_strlit("help");
    let full = seq!["watch"@] + raw + seq![option_name(k), value];
    let r = raw + seq![option_name(k), value];
    assert(full[0] == "watch"@);
    assert(full.drop_first() =~= r);
    assert(parse_watch_spec(r) == Ok::<CommandView, Seq<char>>(CommandView::Watch(a)));
    assert(!contains_config(r));
    let m = raw.len() as int;
    assert(r[m] == option_name(k));
    assert(r[m + 1] == value);
    assert forall|j: int| 0 <= j < m implies r[j] != "--"@ by {
        assert(r[j] == raw[j]);
    }
    lemma_scan_last_setting(r, m, 0, initial_scan(), k);
}

} // verus!
