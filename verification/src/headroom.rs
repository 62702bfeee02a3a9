//! The headroom proxy: its configuration, the command that starts it, the
//! decisions of starting it, and the rewriting of API URLs to go through it.

use vstd::prelude::*;
use crate::text::{contains_seq, decimal, push_decimal, str_contains};

verus! {

/// The headroom settings.
#[derive(Clone, Debug)]
pub struct HeadroomConfig {
    pub enabled: bool,
    pub auto_start: bool,
    pub port: u16,
    pub command: String,
    pub custom_hosts: Vec<String>,
}

pub struct HeadroomConfigView {
    pub enabled: bool,
    pub auto_start: bool,
    pub port: u16,
    pub command: Seq<char>,
    pub custom_hosts: Seq<Seq<char>>,
}

pub open spec fn strings_view(v: Seq<String>) -> Seq<Seq<char>> {
    v.map_values(|s: String| s@)
}

impl View for HeadroomConfig {
    type V = HeadroomConfigView;

    open spec fn view(&self) -> HeadroomConfigView {
        HeadroomConfigView {
            enabled: self.enabled,
            auto_start: self.auto_start,
            port: self.port,
            command: self.command@,
            custom_hosts: strings_view(self.custom_hosts@),
        }
    }
}

/// The settings when nothing is configured: disabled, started automatically
/// when enabled, port 8787, command `headroom`, no custom hosts.
pub open spec fn default_config() -> HeadroomConfigView {
    HeadroomConfigView {
        enabled: false,
        auto_start: true,
        port: 8787,
        command: "headroom"@,
        custom_hosts: seq![],
    }
}

/// Whether the proxy is started automatically, when not configured.
pub fn default_auto_start() -> (b: bool)
    ensures
        b,
{
    true
}

/// The proxy's port, when not configured.
pub fn default_port() -> (p: u16)
    ensures
        p == 8787,
{
    8787
}

/// The command that runs the proxy, when not configured.
pub fn default_command() -> (s: String)
    ensures
        s@ == "headroom"@,
{
    "headroom".to_string()
}

impl Default for HeadroomConfig {
    fn default() -> (c: Self)
        ensures
            c@ == default_config(),
    {
        let c = HeadroomConfig {
            enabled: false,
            auto_start: default_auto_start(),
            port: default_port(),
            command: default_command(),
            custom_hosts: Vec::new(),
        };
        assert(strings_view(c.custom_hosts@) =~= Seq::<Seq<char>>::empty());
        c
    }
}

/// The headroom settings, from what the configuration holds under
/// `headroom` (`None` when it holds nothing usable there).
pub fn get_config(loaded: Option<HeadroomConfig>) -> (c: HeadroomConfig)
    ensures
        c@ == (match loaded {
            Some(l) => l@,
            None => default_config(),
        }),
{
    match loaded {
        Some(l) => l,
        None => HeadroomConfig::default(),
    }
}


/// Whether an executable named `name` is found on the search path
/// (`which::which` succeeds). The answer depends on the environment and the
/// file system, so nothing is claimed of it.
#[verifier::external_body]
fn on_search_path(name: &str) -> (found: bool) {
    which::which(name).is_ok()
}

/// The arguments that make `uvx` run headroom (after `tool run` for `uv`).
pub open spec fn uvx_prefix() -> Seq<Seq<char>> {
    seq!["--python"@, "python3.13"@, "--from"@, "headroom-ai[proxy,mcp]"@, "headroom"@]
}

/// The command and arguments that run headroom with `sub`: the configured
/// command when it is not the default `headroom` or when `headroom` is on the
/// search path; else `uvx` or, failing that, `uv tool run` with the headroom
/// package; else the configured command anyway.
pub open spec fn resolved_command(command: Seq<char>, sub: Seq<Seq<char>>, headroom_found: bool, uvx_found: bool, uv_found: bool) -> (Seq<char>, Seq<Seq<char>>) {
    if command != "headroom"@ || headroom_found {
        (command, sub)
    } else if uvx_found {
        ("uvx"@, uvx_prefix() + sub)
    } else if uv_found {
        ("uv"@, seq!["tool"@, "run"@] + uvx_prefix() + sub)
    } else {
        (command, sub)
    }
}

fn push_strings(out: &mut Vec<String>, items: &[&str])
    ensures
        strings_view(final(out)@) == strings_view(old(out)@) + items@.map_values(|s: &str| s@),
{
    let mut k: usize = 0;
    while k < items.len()
        invariant
            k <= items.len(),
            strings_view(out@) == strings_view(old(out)@) + items@.map_values(|s: &str| s@).take(k as int),
        decreases items.len() - k,
    {
        let ghost before = strings_view(out@);
        out.push(items[k].to_string());
        assert(strings_view(out@) == before.push(items@[k as int]@));
        assert(items@.map_values(|s: &str| s@).take(k + 1)
            == items@.map_values(|s: &str| s@).take(k as int).push(items@[k as int]@));
        k = k + 1;
    }
    assert(items@.map_values(|s: &str| s@).take(items.len() as int) == items@.map_values(|s: &str| s@));
}

fn clone_strings(v: &Vec<String>) -> (r: Vec<String>)
    ensures
        strings_view(r@) == strings_view(v@),
{
    let mut r: Vec<String> = Vec::new();
    let mut k: usize = 0;
    while k < v.len()
        invariant
            k <= v.len(),
            strings_view(r@) == strings_view(v@).take(k as int),
        decreases v.len() - k,
    {
        let ghost before = strings_view(r@);
        r.push(v[k].clone());
        assert(strings_view(r@) == before.push(v@[k as int]@));
        assert(strings_view(v@).take(k + 1) == strings_view(v@).take(k as int).push(v@[k as int]@));
        k = k + 1;
    }
    assert(strings_view(v@).take(v.len() as int) == strings_view(v@));
    r
}

fn append_strings(out: &mut Vec<String>, v: &Vec<String>)
    ensures
        strings_view(final(out)@) == strings_view(old(out)@) + strings_view(v@),
{
    let mut k: usize = 0;
    while k < v.len()
        invariant
            k <= v.len(),
            strings_view(out@) == strings_view(old(out)@) + strings_view(v@).take(k as int),
        decreases v.len() - k,
    {
        let ghost before = strings_view(out@);
        out.push(v[k].clone());
        assert(strings_view(out@) == before.push(v@[k as int]@));
        assert(strings_view(v@).take(k + 1) == strings_view(v@).take(k as int).push(v@[k as int]@));
        k = k + 1;
    }
    assert(strings_view(v@).take(v.len() as int) == strings_view(v@));
}

/// The command and arguments that run headroom with `sub`, given which of
/// `headroom`, `uvx` and `uv` are on the search path.
pub fn resolve_command(config: &HeadroomConfig, sub: &Vec<String>, headroom_found: bool, uvx_found: bool, uv_found: bool) -> (r: (String, Vec<String>))
    ensures
        (r.0@, strings_view(r.1@)) == resolved_command(config.command@, strings_view(sub@), headroom_found, uvx_found, uv_found),
{
    let prefix: [&str; 5] = ["--python", "python3.13", "--from", "headroom-ai[proxy,mcp]", "headroom"];
    assert(prefix@.map_values(|s: &str| s@) =~= uvx_prefix());
    if config.command != "headroom".to_string() || headroom_found {
        (config.command.clone(), clone_strings(sub))
    } else if uvx_found {
        let mut args: Vec<String> = Vec::new();
        push_strings(&mut args, &prefix);
        append_strings(&mut args, sub);
        ("uvx".to_string(), args)
    } else if uv_found {
        let mut args: Vec<String> = Vec::new();
        let tool_run: [&str; 2] = ["tool", "run"];
        assert(tool_run@.map_values(|s: &str| s@) =~= seq!["tool"@, "run"@]);
        push_strings(&mut args, &tool_run);
        push_strings(&mut args, &prefix);
        append_strings(&mut args, sub);
        ("uv".to_string(), args)
    } else {
        (config.command.clone(), clone_strings(sub))
    }
}

/// The next executable to look for on the search path when resolving the
/// command `command`, given the answers so far (`found[i]` for the `i`-th
/// name asked): `headroom`, then `uvx`, then `uv`, each only while the ones
/// before were not found; nothing for a command other than `headroom`.
pub open spec fn next_probe(command: Seq<char>, found: Seq<bool>) -> Option<Seq<char>> {
    if command != "headroom"@ {
        None
    } else if found.len() == 0 {
        Some("headroom"@)
    } else if found[0] {
        None
    } else if found.len() == 1 {
        Some("uvx"@)
    } else if found[1] {
        None
    } else if found.len() == 2 {
        Some("uv"@)
    } else {
        None
    }
}

/// Whether `found` is a complete run of lookups: each answer was asked for
/// by `next_probe`, and `next_probe` asks for nothing more.
pub open spec fn probes_complete(command: Seq<char>, found: Seq<bool>) -> bool {
    &&& next_probe(command, found) is None
    &&& forall|i: int| 0 <= i < found.len() ==> #[trigger] next_probe(command, found.take(i)) is Some
}

/// The `i`-th answer, or `false` for a name that was not asked about.
pub open spec fn answer(found: Seq<bool>, i: int) -> bool {
    0 <= i < found.len() && found[i]
}

/// The command and arguments for the answers `found`.
pub open spec fn command_for(command: Seq<char>, sub: Seq<Seq<char>>, found: Seq<bool>) -> (Seq<char>, Seq<Seq<char>>) {
    resolved_command(command, sub, answer(found, 0), answer(found, 1), answer(found, 2))
}

/// The next executable to look for on the search path, given the answers so far.
pub fn next_path_probe(config: &HeadroomConfig, found: &Vec<bool>) -> (r: Option<String>)
    ensures
        opt_view(r) == next_probe(config.command@, found@),
{
    if config.command != "headroom".to_string() {
        None
    } else if found.len() == 0 {
        Some("headroom".to_string())
    } else if found[0] {
        None
    } else if found.len() == 1 {
        Some("uvx".to_string())
    } else if found[1] {
        None
    } else if found.len() == 2 {
        Some("uv".to_string())
    } else {
        None
    }
}

/// The command and arguments that run headroom with `sub`, falling back to
/// `uvx` or `uv` when the default `headroom` command is not on the search
/// path. It looks for the names `next_probe` gives, in turn; what is found
/// depends on the machine, so the result is `command_for` some complete run
/// of answers.
pub fn get_command_and_args(config: &HeadroomConfig, sub: &Vec<String>) -> (r: (String, Vec<String>))
    ensures
        exists|found: Seq<bool>| #[trigger] probes_complete(config.command@, found)
            && (r.0@, strings_view(r.1@)) == command_for(config.command@, strings_view(sub@), found),
        config.command@ != "headroom"@ ==> r.0@ == config.command@ && strings_view(r.1@) == strings_view(sub@),
{
    let mut found: Vec<bool> = Vec::new();
    loop
        invariant
            found.len() <= 3,
            forall|i: int| 0 <= i < found@.len() ==> #[trigger] next_probe(config.command@, found@.take(i)) is Some,
        ensures
            next_probe(config.command@, found@) is None,
        decreases 3 - found.len(),
    {
        match next_path_probe(config, &found) {
            Some(name) => {
                let ghost before = found@;
                let hit = on_search_path(name.as_str());
                found.push(hit);
                assert forall|i: int| 0 <= i < found@.len() implies #[trigger] next_probe(config.command@, found@.take(i)) is Some by {
                    if i < before.len() {
                        assert(found@.take(i) == before.take(i));
                    } else {
                        assert(found@.take(i) == before);
                    }
                }
            },
            None => {
                break;
            },
        }
    }
    let h = found.len() > 0 && found[0];
    let u = found.len() > 1 && found[1];
    let v = found.len() > 2 && found[2];
    assert(probes_complete(config.command@, found@));
    resolve_command(config, sub, h, u, v)
}

/// The address the proxy listens on: `127.0.0.1:{port}`.
pub open spec fn proxy_address_of(port: u16) -> Seq<char> {
    "127.0.0.1:"@ + decimal(port as nat)
}

/// The address to probe for the proxy on `port`.
pub fn proxy_address(port: u16) -> (a: String)
    ensures
        a@ == proxy_address_of(port),
{
    let mut a = "127.0.0.1:".to_string();
    push_decimal(&mut a, port as usize);
    a
}

/// The address to probe when asking whether the proxy is active: the
/// proxy's address when headroom is enabled; nothing to probe otherwise.
pub fn active_probe_address(config: &HeadroomConfig) -> (r: Option<String>)
    ensures
        opt_view(r) == (if config.enabled { Some(proxy_address_of(config.port)) } else { None }),
{
    if config.enabled {
        Some(proxy_address(config.port))
    } else {
        None
    }
}

/// Whether the proxy is active: it is enabled and something answers on its
/// port (`port_answers`, the outcome of connecting there).
pub fn is_active(config: &HeadroomConfig, port_answers: bool) -> (r: bool)
    ensures
        r == (config.enabled && port_answers),
{
    config.enabled && port_answers
}

/// Whether `url` goes to an API that the proxy serves: OpenAI, Anthropic,
/// Google, the proxy itself, or one of the custom hosts.
pub open spec fn is_supported_url(url: Seq<char>, custom_hosts: Seq<Seq<char>>) -> bool {
    contains_seq(url, "api.openai.com"@) || contains_seq(url, "api.anthropic.com"@)
        || contains_seq(url, "api.google"@) || contains_seq(url, "googleapis.com"@)
        || contains_seq(url, "localhost:8787"@) || contains_seq(url, "127.0.0.1:8787"@)
        || exists|i: int| 0 <= i < custom_hosts.len() && contains_seq(url, #[trigger] custom_hosts[i])
}

/// `url::Url::parse(s)` taken by its `path()` and `query()`, or `None` when
/// `s` is not an absolute URL.
pub uninterp spec fn url_path_and_query(s: Seq<char>) -> Option<(Seq<char>, Option<Seq<char>>)>;

pub open spec fn opt_view(o: Option<String>) -> Option<Seq<char>> {
    match o {
        Some(s) => Some(s@),
        None => None,
    }
}

/// Parses `s` with `url::Url::parse` and gives its path and query. Claimed:
/// the result is `url_path_and_query` of `s`.
#[verifier::external_body]
fn parse_url(s: &str) -> (r: Option<(String, Option<String>)>)
    ensures
        match r {
            Some(pq) => url_path_and_query(s@) == Some((pq.0@, opt_view(pq.1))),
            None => url_path_and_query(s@) is None,
        },
{
    match url::Url::parse(s) {
        Ok(u) => Some((u.path().to_string(), u.query().map(str::to_owned))),
        Err(_) => None,
    }
}

/// What `url` becomes: when the proxy is enabled, serves the URL's API and is
/// active, the URL's path and query on the local proxy; else `url` itself
/// (also when `url` does not parse).
pub open spec fn rewritten_url(url: Seq<char>, config: HeadroomConfigView, active: bool) -> Seq<char> {
    if !config.enabled || !is_supported_url(url, config.custom_hosts) || !active {
        url
    } else {
        match url_path_and_query(url) {
            None => url,
            Some(pq) => "http://127.0.0.1:"@ + decimal(config.port as nat) + pq.0 + (match pq.1 {
                Some(q) => seq!['?'] + q,
                None => seq![],
            }),
        }
    }
}

/// Whether `url` would be rewritten if the proxy were active: the proxy is
/// enabled and serves the URL's API. Only then is the proxy probed.
pub fn is_proxy_candidate(url: &str, config: &HeadroomConfig) -> (r: bool)
    ensures
        r == (config.enabled && is_supported_url(url@, config@.custom_hosts)),
{
    if !config.enabled {
        return false;
    }
    if str_contains(url, "api.openai.com") || str_contains(url, "api.anthropic.com")
        || str_contains(url, "api.google") || str_contains(url, "googleapis.com")
        || str_contains(url, "localhost:8787") || str_contains(url, "127.0.0.1:8787") {
        return true;
    }
    let ghost hosts = config@.custom_hosts;
    let mut i: usize = 0;
    while i < config.custom_hosts.len()
        invariant
            i <= config.custom_hosts.len(),
            hosts == config@.custom_hosts,
            config.enabled,
            forall|j: int| 0 <= j < i ==> !contains_seq(url@, #[trigger] hosts[j]),
        decreases config.custom_hosts.len() - i,
    {
        assert(hosts[i as int] == config.custom_hosts@[i as int]@);
        if str_contains(url, config.custom_hosts[i].as_str()) {
            assert(contains_seq(url@, hosts[i as int]));
            return true;
        }
        i = i + 1;
    }
    false
}

/// Rewrites `url` to go through the local proxy when it is enabled, serves
/// the URL's API and is active (`proxy_active`, the outcome of probing it).
pub fn rewrite_url_if_needed(original_url: &str, config: &HeadroomConfig, proxy_active: bool) -> (r: String)
    ensures
        r@ == rewritten_url(original_url@, config@, proxy_active),
{
    if !is_proxy_candidate(original_url, config) || !proxy_active {
        return original_url.to_string();
    }
    match parse_url(original_url) {
        None => original_url.to_string(),
        Some((path, query)) => {
            let mut r = "http://127.0.0.1:".to_string();
            push_decimal(&mut r, config.port as usize);
            r.append(path.as_str());
            match query {
                Some(q) => {
                    r.append("?");
                    proof { reveal_strlit("?"); }
                    r.append(q.as_str());
                },
                None => {},
            }
            r
        },
    }
}


/// What the caller of `start_proxy_step` reports: the start of the
/// procedure, or the outcome of the work the previous action asked for.
#[derive(Clone, Copy, Debug)]
pub enum StartEvent {
    /// Starting the proxy was asked for.
    Begin,
    /// Whether a sidecar is already recorded.
    SlotChecked { occupied: bool },
    /// Whether something answers on the proxy's port.
    PortProbed { answers: bool },
    /// Whether the proxy process could be spawned (its log file included).
    SpawnFinished { spawned: bool },
    /// Whether the spawned proxy answers on its port after the wait.
    Settled { answers: bool },
}

/// The work that `start_proxy_step` asks of its caller.
pub enum StartAction {
    /// Return successfully.
    Finish,
    /// Lock the sidecar slot and report whether it is occupied.
    CheckSlot,
    /// Connect to `address` and report whether something answers.
    ProbePort { address: String },
    /// Record a sidecar that owns no process (one already listens on `port`), then finish.
    AdoptRunning { port: u16 },
    /// Automatic start is off: expect a proxy started elsewhere on `port`, then finish.
    KeepExternal { port: u16 },
    /// Spawn `command` with `args`, its output going to `log_file` in the
    /// state directory's `log_dir`, and report whether that worked.
    Spawn { command: String, args: Vec<String>, log_dir: String, log_file: String },
    /// Wait `wait_ms` milliseconds, connect to `address`, and report whether something answers.
    Settle { wait_ms: u64, address: String },
    /// Record the spawned sidecar on `port` (`answering` tells whether it
    /// answered already), then finish.
    RecordSpawned { port: u16, answering: bool },
    /// Return the error of the spawn.
    Fail,
}

/// The kinds of `StartAction`.
pub enum StartPhase {
    Finish,
    CheckSlot,
    ProbePort,
    AdoptRunning,
    KeepExternal,
    Spawn,
    Settle,
    RecordSpawned,
    Fail,
}

pub open spec fn phase_of(a: StartAction) -> StartPhase {
    match a {
        StartAction::Finish => StartPhase::Finish,
        StartAction::CheckSlot => StartPhase::CheckSlot,
        StartAction::ProbePort { .. } => StartPhase::ProbePort,
        StartAction::AdoptRunning { .. } => StartPhase::AdoptRunning,
        StartAction::KeepExternal { .. } => StartPhase::KeepExternal,
        StartAction::Spawn { .. } => StartPhase::Spawn,
        StartAction::Settle { .. } => StartPhase::Settle,
        StartAction::RecordSpawned { .. } => StartPhase::RecordSpawned,
        StartAction::Fail => StartPhase::Fail,
    }
}

/// The next step of starting the proxy after `e`: nothing when disabled or
/// a sidecar is recorded; adopt a proxy that already answers; nothing more
/// when automatic start is off; else spawn it, wait, and record it.
pub open spec fn start_phase(config: HeadroomConfigView, e: StartEvent) -> StartPhase {
    match e {
        StartEvent::Begin => if config.enabled { StartPhase::CheckSlot } else { StartPhase::Finish },
        StartEvent::SlotChecked { occupied } => if occupied { StartPhase::Finish } else { StartPhase::ProbePort },
        StartEvent::PortProbed { answers } => if answers {
            StartPhase::AdoptRunning
        } else if !config.auto_start {
            StartPhase::KeepExternal
        } else {
            StartPhase::Spawn
        },
        StartEvent::SpawnFinished { spawned } => if spawned { StartPhase::Settle } else { StartPhase::Fail },
        StartEvent::Settled { .. } => StartPhase::RecordSpawned,
    }
}

/// Whether `e` is the report that an action of kind `p` asks for.
pub open spec fn reports_on(p: StartPhase, e: StartEvent) -> bool {
    match p {
        StartPhase::CheckSlot => e is SlotChecked,
        StartPhase::ProbePort => e is PortProbed,
        StartPhase::Spawn => e is SpawnFinished,
        StartPhase::Settle => e is Settled,
        _ => false,
    }
}

/// Whether `events` is a run of the procedure: it begins with `Begin` and
/// each later event reports on the action the one before it led to.
pub open spec fn start_run(config: HeadroomConfigView, events: Seq<StartEvent>) -> bool {
    &&& events.len() > 0
    &&& events[0] is Begin
    &&& forall|i: int| 1 <= i < events.len() ==> #[trigger] reports_on(start_phase(config, events[i - 1]), events[i])
}

/// The arguments that make headroom run the proxy on `port`.
pub open spec fn proxy_subcommand(port: u16) -> Seq<Seq<char>> {
    seq!["proxy"@, "--port"@, decimal(port as nat)]
}

/// Decides the next step of starting the headroom proxy sidecar after `event`.
pub fn start_proxy_step(config: &HeadroomConfig, event: StartEvent) -> (a: StartAction)
    ensures
        phase_of(a) == start_phase(config@, event),
        match a {
            StartAction::ProbePort { address } => address@ == proxy_address_of(config.port),
            StartAction::AdoptRunning { port } => port == config.port,
            StartAction::KeepExternal { port } => port == config.port,
            StartAction::Spawn { command, args, log_dir, log_file } => {
                &&& exists|found: Seq<bool>| #[trigger] probes_complete(config.command@, found)
                    && (command@, strings_view(args@)) == command_for(config.command@, proxy_subcommand(config.port), found)
                &&& log_dir@ == "logs"@
                &&& log_file@ == "headroom.log"@
            },
            StartAction::Settle { wait_ms, address } => wait_ms == 500 && address@ == proxy_address_of(config.port),
            StartAction::RecordSpawned { port, answering } => port == config.port
                && answering == (match event { StartEvent::Settled { answers } => answers, _ => false }),
            _ => true,
        },
{
    match event {
        StartEvent::Begin => if config.enabled { StartAction::CheckSlot } else { StartAction::Finish },
        StartEvent::SlotChecked { occupied } => if occupied {
            StartAction::Finish
        } else {
            StartAction::ProbePort { address: proxy_address(config.port) }
        },
        StartEvent::PortProbed { answers } => if answers {
            StartAction::AdoptRunning { port: config.port }
        } else if !config.auto_start {
            StartAction::KeepExternal { port: config.port }
        } else {
            let mut sub: Vec<String> = Vec::new();
            sub.push("proxy".to_string());
            sub.push("--port".to_string());
            let mut p = String::new();
            push_decimal(&mut p, config.port as usize);
            sub.push(p);
            assert(strings_view(sub@) =~= proxy_subcommand(config.port));
            let (command, args) = get_command_and_args(config, &sub);
            StartAction::Spawn { command, args, log_dir: "logs".to_string(), log_file: "headroom.log".to_string() }
        },
        StartEvent::SpawnFinished { spawned } => if spawned {
            StartAction::Settle { wait_ms: 500, address: proxy_address(config.port) }
        } else {
            StartAction::Fail
        },
        StartEvent::Settled { answers } => StartAction::RecordSpawned { port: config.port, answering: answers },
    }
}

/// A proxy process is only ever spawned when headroom is enabled, automatic
/// start is on, no sidecar was recorded and nothing answered on the port.
pub proof fn law_spawn_only_when_needed(config: HeadroomConfigView, events: Seq<StartEvent>, k: int)
    requires
        start_run(config, events),
        0 <= k < events.len(),
        start_phase(config, events[k]) == StartPhase::Spawn,
    ensures
        config.enabled,
        config.auto_start,
        k >= 2,
        events[k - 2] is Begin,
        events[k - 1] == (StartEvent::SlotChecked { occupied: false }),
        events[k] == (StartEvent::PortProbed { answers: false }),
{
    assert(k >= 1);
    assert(reports_on(start_phase(config, events[k - 1]), events[k]));
    let j = k - 1;
    assert(events[j] is SlotChecked);
    assert(j >= 1);
    assert(reports_on(start_phase(config, events[j - 1]), events[j]));
}

/// Nothing is done when headroom is disabled: the first step finishes.
pub proof fn law_disabled_does_nothing(config: HeadroomConfigView)
    requires
        !config.enabled,
    ensures
        start_phase(config, StartEvent::Begin) == StartPhase::Finish,
{
}


/// A URL is left as it is unless headroom is enabled, serves the URL's API
/// and the proxy is active.
pub proof fn law_rewrite_needs_active_proxy(url: Seq<char>, config: HeadroomConfigView, active: bool)
    requires
        !config.enabled || !is_supported_url(url, config.custom_hosts) || !active,
    ensures
        rewritten_url(url, config, active) == url,
{
}

/// A URL that is changed points at the local proxy on the configured port.
pub proof fn law_rewrite_targets_proxy(url: Seq<char>, config: HeadroomConfigView, active: bool)
    requires
        rewritten_url(url, config, active) != url,
    ensures
        ("http://127.0.0.1:"@ + decimal(config.port as nat)).is_prefix_of(rewritten_url(url, config, active)),
{
    let base = "http://127.0.0.1:"@ + decimal(config.port as nat);
    let pq = url_path_and_query(url).unwrap();
    let tail = pq.0 + (match pq.1 { Some(q) => seq!['?'] + q, None => seq![] });
    assert(base + pq.0 + (match pq.1 { Some(q) => seq!['?'] + q, None => seq![] }) =~= base + tail);
    assert((base + tail).subrange(0, base.len() as int) =~= base);
}


/// Rewriting a URL twice gives what rewriting it once gives, under the same
/// settings and the same proxy state, where parsing the rewritten URL gives
/// back the path and query it was built from (what the URL parser does for
/// the path and query it returned itself).
pub proof fn law_rewrite_idempotent(url: Seq<char>, config: HeadroomConfigView, active: bool)
    requires
        ({
            let r = rewritten_url(url, config, active);
            r != url ==> url_path_and_query(r) == url_path_and_query(url)
        }),
    ensures
        rewritten_url(rewritten_url(url, config, active), config, active) == rewritten_url(url, config, active),
{
}


/// A rewritten URL keeps the path and query of the original: when the URL
/// parses with path `p` and query `q` and the rewrite changes it, the result
/// is the local proxy's base, then `p`, then `?` and `q` exactly when there
/// is a query, whatever the path is. When headroom is enabled, serves the
/// URL's API and is active, the rewrite takes place.
pub proof fn law_rewrite_keeps_path_and_query(url: Seq<char>, config: HeadroomConfigView, active: bool, p: Seq<char>, q: Option<Seq<char>>)
    requires
        url_path_and_query(url) == Some((p, q)),
    ensures
        (rewritten_url(url, config, active) != url || (config.enabled && is_supported_url(url, config.custom_hosts) && active)) ==> {
            &&& q is None ==> rewritten_url(url, config, active) == "http://127.0.0.1:"@ + decimal(config.port as nat) + p
            &&& q matches Some(qq) ==> rewritten_url(url, config, active)
                == "http://127.0.0.1:"@ + decimal(config.port as nat) + p + seq!['?'] + qq
        },
{
    let base = "http://127.0.0.1:"@ + decimal(config.port as nat);
    match q {
        Some(qq) => {
            assert(base + p + (seq!['?'] + qq) =~= base + p + seq!['?'] + qq);
        },
        None => {
            assert(base + p + Seq::<char>::empty() =~= base + p);
        },
    }
}

} // verus!
