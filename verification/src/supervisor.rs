//! The supervisor ties the registry and the guard together: it plans a
//! tunnel start, commits a successful spawn, handles a stop, processes
//! each log line through stripping, redaction and the fatal-pattern
//! check, and decides on each watchdog tick which tunnels to restart.
//!
//! Everything that touches the operating system — spawning, signalling,
//! waiting, reading pipes, the clock — stays with the caller, which hands
//! in plain values (liveness answers, raw log lines) and carries out the
//! returned plans.

use vstd::prelude::*;

use crate::codec::ConfigError;
use crate::codec::TunnelConfig;
use crate::codec::generate_frpc_config;
use crate::codec::generate_ok;
use crate::codec::generate_err;
use crate::codec::spec_generate;
use crate::guard::GuardEntry;
use crate::guard::GuardState;
use crate::guard::guard_warning;
use crate::guard::spec_fatal_match;
use crate::ids::official_config_file_name;
use crate::ids::spec_official_config_file_name;
use crate::registry::ProcessHandle;
use crate::registry::ProcessRegistry;
use crate::sanitize::sanitize_log;
use crate::sanitize::spec_sanitize_log;
use crate::text::string_from_chars;

verus! {

/// The characters of a stripped line: the input with its ANSI escape
/// sequences removed.
pub uninterp spec fn ansi_stripped(s: Seq<char>) -> Seq<char>;

/// Relies on `strip_ansi_escapes::strip_str`: ANSI escape sequences are
/// removed and the result depends on the input characters alone.
#[verifier::external_body]
fn strip_ansi(line: &str) -> (r: String)
    ensures
        r@ == ansi_stripped(line@),
{
    strip_ansi_escapes::strip_str(line)
}

/// Relies on chrono's `Local::now` and `format`: the local time rendered
/// as `Y/m/d H:M:S`.  Nothing is promised of the clock's value.
#[verifier::external_body]
fn current_timestamp() -> String {
    chrono::Local::now().format("%Y/%m/%d %H:%M:%S").to_string()
}

/// A log event shown to the user, keyed by tunnel identifier.
pub struct LogMessage {
    pub tunnel_id: i32,
    pub message: String,
    pub timestamp: String,
}

/// What one raw log line becomes: the event to emit, and, when the line
/// held a fatal pattern, the warning that supervision of the tunnel has
/// stopped.
pub struct LineOutcome {
    pub log: LogMessage,
    pub guard_warning: Option<String>,
}

/// A start or stop that the supervisor refuses.
#[derive(Debug)]
pub enum SupervisorError {
    /// An entry for the identifier already exists in the registry.
    AlreadyRunning,
    /// No entry for the identifier exists in the registry.
    NotRunning,
    /// The tunnel request was rejected by the codec.
    Config(ConfigError),
}

/// Everything the caller needs to spawn an official tunnel's process:
/// where to write which config text, and which binary to run.
pub struct StartPlan {
    pub config_file_name: String,
    pub config_content: String,
    pub binary_name: String,
}

/// Everything the caller needs to finish a stop: the handle to signal
/// and reap, and, for an official tunnel, the config file to delete.
pub struct StopPlan {
    pub handle: ProcessHandle,
    pub config_file_name: Option<String>,
}

/// One tunnel the watchdog found dead without a manual stop: restart it,
/// replaying the payload.
pub struct RestartRequest {
    pub tunnel_id: i32,
    pub entry: GuardEntry,
}

/// The event a finished restart attempt produces: exactly one of a
/// confirmation and a failure log.
pub enum RestartEvent {
    Restarted { tunnel_id: i32, timestamp: String },
    Failed { log: LogMessage },
}

/// The pairs a request list denotes.
pub open spec fn requests_view(rs: Seq<RestartRequest>) -> Seq<(i32, GuardEntry)> {
    rs.map_values(|rr: RestartRequest| (rr.tunnel_id, rr.entry))
}

/// The first liveness answer reported for `id`, if any.
pub open spec fn probe_lookup(probes: Seq<(i32, bool)>, id: i32) -> Option<bool>
    decreases probes.len(),
{
    if probes.len() == 0 {
        None
    } else if probes[0].0 == id {
        Some(probes[0].1)
    } else {
        probe_lookup(probes.drop_first(), id)
    }
}

fn probe_for(probes: &Vec<(i32, bool)>, id: i32) -> (r: Option<bool>)
    ensures
        r == probe_lookup(probes@, id),
{
    let mut i: usize = 0;
    proof {
        assert(probes@.skip(0) =~= probes@);
    }
    while i < probes.len()
        invariant
            i <= probes@.len(),
            probe_lookup(probes@, id) == probe_lookup(probes@.skip(i as int), id),
        decreases probes@.len() - i,
    {
        let ghost rem = probes@.skip(i as int);
        let (pid, alive) = probes[i];
        proof {
            assert(rem[0] == probes@[i as int]);
            assert(rem.drop_first() =~= probes@.skip(i + 1));
        }
        if pid == id {
            return Some(alive);
        }
        i = i + 1;
    }
    proof {
        assert(probes@.skip(probes@.len() as int) =~= Seq::<(i32, bool)>::empty());
    }
    None
}

/// One watchdog pass over the enrollments: an enrolled tunnel that is
/// not manually stopped and not alive loses its registry entry and is
/// listed for restart, in enrollment order.
pub open spec fn tick_fold(
    entries: Seq<(i32, GuardEntry)>,
    stopped: Set<i32>,
    m: Map<i32, ProcessHandle>,
    probes: Seq<(i32, bool)>,
) -> (Map<i32, ProcessHandle>, Seq<(i32, GuardEntry)>)
    decreases entries.len(),
{
    if entries.len() == 0 {
        (m, Seq::empty())
    } else {
        let id = entries[0].0;
        let entry = entries[0].1;
        if stopped.contains(id) {
            tick_fold(entries.drop_first(), stopped, m, probes)
        } else if m.contains_key(id) && probe_lookup(probes, id) == Some(true) {
            tick_fold(entries.drop_first(), stopped, m, probes)
        } else {
            let rec = tick_fold(entries.drop_first(), stopped, m.remove(id), probes);
            (rec.0, seq![(id, entry)] + rec.1)
        }
    }
}

/// The verified core of the launcher: the process registry and the guard
/// state, advanced by plain-value events.
pub struct Supervisor {
    pub registry: ProcessRegistry,
    pub guard: GuardState,
}

impl Supervisor {
    pub open spec fn wf(&self) -> bool {
        self.registry.wf() && self.guard.wf()
    }

    pub fn new() -> (r: Supervisor)
        ensures
            r.wf(),
            r.registry@ == Map::<i32, ProcessHandle>::empty(),
            !r.guard.is_enabled(),
            r.guard.guarded_map() == Map::<i32, GuardEntry>::empty(),
            r.guard.stopped_set() == Set::<i32>::empty(),
    {
        Supervisor { registry: ProcessRegistry::new(), guard: GuardState::new() }
    }

    /// Plans the start of an official tunnel: rejects an identifier that
    /// is already running, generates the config text, and names the
    /// config file and the binary.  Nothing is changed yet; the caller
    /// writes the file, spawns the process, and then commits.
    pub fn prepare_official_start(&self, config: &TunnelConfig, windows: bool) -> (r: Result<
        StartPlan,
        SupervisorError,
    >)
        ensures
            match r {
                Ok(plan) => {
                    &&& !self.registry@.contains_key(config.tunnel_id)
                    &&& generate_ok(config@)
                    &&& plan.config_file_name@ == spec_official_config_file_name(
                        config.tunnel_id as int,
                    )
                    &&& plan.config_content@ == spec_generate(config@)
                    &&& (windows ==> plan.binary_name@ == "frpc.exe"@)
                    &&& (!windows ==> plan.binary_name@ == "frpc"@)
                },
                Err(SupervisorError::AlreadyRunning) => self.registry@.contains_key(
                    config.tunnel_id,
                ),
                Err(SupervisorError::Config(e)) => !self.registry@.contains_key(config.tunnel_id)
                    && !generate_ok(config@) && e == generate_err(config@),
                Err(SupervisorError::NotRunning) => false,
            },
    {
        if self.registry.contains(config.tunnel_id) {
            return Err(SupervisorError::AlreadyRunning);
        }
        let content = match generate_frpc_config(config) {
            Ok(c) => c,
            Err(e) => {
                return Err(SupervisorError::Config(e));
            },
        };
        Ok(
            StartPlan {
                config_file_name: official_config_file_name(config.tunnel_id),
                config_content: content,
                binary_name: crate::ids::get_frpc_path(windows),
            },
        )
    }

    /// Plans the start of a custom tunnel under its hashed identifier:
    /// rejects one that is already running and names the config file and
    /// the binary.  The config file on disk is the source of truth, so no
    /// text is generated.
    pub fn prepare_custom_start(&self, tunnel_id: &str, tunnel_id_hash: i32, windows: bool) -> (r:
        Result<StartPlan, SupervisorError>)
        ensures
            match r {
                Ok(plan) => {
                    &&& !self.registry@.contains_key(tunnel_id_hash)
                    &&& plan.config_file_name@ == "z_"@ + tunnel_id@ + ".ini"@
                    &&& plan.config_content@ == Seq::<char>::empty()
                    &&& (windows ==> plan.binary_name@ == "frpc.exe"@)
                    &&& (!windows ==> plan.binary_name@ == "frpc"@)
                },
                Err(SupervisorError::AlreadyRunning) => self.registry@.contains_key(
                    tunnel_id_hash,
                ),
                Err(_) => false,
            },
    {
        if self.registry.contains(tunnel_id_hash) {
            return Err(SupervisorError::AlreadyRunning);
        }
        Ok(
            StartPlan {
                config_file_name: crate::ids::get_config_file_name(tunnel_id),
                config_content: String::new(),
                binary_name: crate::ids::get_frpc_path(windows),
            },
        )
    }

    /// Commits a successful spawn: registers the handle and enrolls the
    /// tunnel in the guard, clearing any manual-stop mark.  Fails without
    /// changing anything when the identifier is already registered.
    pub fn commit_start(&mut self, tunnel_id: i32, pid: u32, entry: GuardEntry) -> (r: Result<
        (),
        SupervisorError,
    >)
        requires
            old(self).wf(),
        ensures
            final(self).wf(),
            final(self).guard.is_enabled() == old(self).guard.is_enabled(),
            match r {
                Ok(_) => {
                    &&& !old(self).registry@.contains_key(tunnel_id)
                    &&& final(self).registry@ == old(self).registry@.insert(
                        tunnel_id,
                        ProcessHandle { pid },
                    )
                    &&& (old(self).guard.is_enabled() ==> final(self).guard.guarded_map() == old(
                        self,
                    ).guard.guarded_map().insert(tunnel_id, entry) && final(self).guard.stopped_set()
                        == old(self).guard.stopped_set().remove(tunnel_id))
                    &&& (!old(self).guard.is_enabled() ==> final(self).guard.guarded_map() == old(
                        self,
                    ).guard.guarded_map() && final(self).guard.stopped_set() == old(
                        self,
                    ).guard.stopped_set())
                },
                Err(SupervisorError::AlreadyRunning) => {
                    &&& old(self).registry@.contains_key(tunnel_id)
                    &&& final(self).registry@ == old(self).registry@
                    &&& final(self).guard.guarded_map() == old(self).guard.guarded_map()
                    &&& final(self).guard.stopped_set() == old(self).guard.stopped_set()
                },
                Err(_) => false,
            },
    {
        match self.registry.try_insert(tunnel_id, ProcessHandle { pid }) {
            Ok(_) => {
                match entry {
                    GuardEntry::Official { config } => {
                        self.guard.add_guarded_process(tunnel_id, config);
                    },
                    GuardEntry::Custom { original_id } => {
                        self.guard.add_guarded_custom_tunnel(tunnel_id, original_id);
                    },
                }
                Ok(())
            },
            Err(_) => Err(SupervisorError::AlreadyRunning),
        }
    }

    /// Stops an official tunnel: the guard forgets it as a manual stop,
    /// the registry entry is removed, and the caller is told to signal
    /// the process and delete the tunnel's config file.  The manual-stop
    /// mark is set even when the tunnel turns out not to be running.
    pub fn stop_official_tunnel(&mut self, tunnel_id: i32) -> (r: Result<StopPlan, SupervisorError>)
        requires
            old(self).wf(),
        ensures
            final(self).wf(),
            final(self).guard.is_enabled() == old(self).guard.is_enabled(),
            final(self).guard.guarded_map() == old(self).guard.guarded_map().remove(tunnel_id),
            final(self).guard.stopped_set() == old(self).guard.stopped_set().insert(tunnel_id),
            match r {
                Ok(plan) => {
                    &&& old(self).registry@.contains_key(tunnel_id)
                    &&& plan.handle == old(self).registry@[tunnel_id]
                    &&& final(self).registry@ == old(self).registry@.remove(tunnel_id)
                    &&& plan.config_file_name matches Some(n) && n@
                        == spec_official_config_file_name(tunnel_id as int)
                },
                Err(SupervisorError::NotRunning) => !old(self).registry@.contains_key(tunnel_id)
                    && final(self).registry@ == old(self).registry@,
                Err(_) => false,
            },
    {
        self.guard.remove_guarded_process(tunnel_id, true);
        match self.registry.remove_and_terminate(tunnel_id) {
            Ok(handle) => Ok(
                StopPlan {
                    handle,
                    config_file_name: Some(official_config_file_name(tunnel_id)),
                },
            ),
            Err(_) => Err(SupervisorError::NotRunning),
        }
    }

    /// Stops a custom tunnel by its hashed identifier.  The config file
    /// is kept: it is the durable definition of the tunnel.
    pub fn stop_custom_tunnel(&mut self, tunnel_id_hash: i32) -> (r: Result<
        StopPlan,
        SupervisorError,
    >)
        requires
            old(self).wf(),
        ensures
            final(self).wf(),
            final(self).guard.is_enabled() == old(self).guard.is_enabled(),
            final(self).guard.guarded_map() == old(self).guard.guarded_map().remove(
                tunnel_id_hash,
            ),
            final(self).guard.stopped_set() == old(self).guard.stopped_set().insert(
                tunnel_id_hash,
            ),
            match r {
                Ok(plan) => {
                    &&& old(self).registry@.contains_key(tunnel_id_hash)
                    &&& plan.handle == old(self).registry@[tunnel_id_hash]
                    &&& final(self).registry@ == old(self).registry@.remove(tunnel_id_hash)
                    &&& plan.config_file_name is None
                },
                Err(SupervisorError::NotRunning) => !old(self).registry@.contains_key(
                    tunnel_id_hash,
                ) && final(self).registry@ == old(self).registry@,
                Err(_) => false,
            },
    {
        self.guard.remove_guarded_process(tunnel_id_hash, true);
        match self.registry.remove_and_terminate(tunnel_id_hash) {
            Ok(handle) => Ok(StopPlan { handle, config_file_name: None }),
            Err(_) => Err(SupervisorError::NotRunning),
        }
    }

    /// Processes one raw log line: strips ANSI escapes, scrubs the
    /// secrets, runs the fatal-pattern check (which may end supervision
    /// of the tunnel), and builds the event to emit, with an error marker
    /// for lines read from standard error.
    pub fn process_log_line(
        &mut self,
        tunnel_id: i32,
        raw_line: &str,
        secrets: &Vec<String>,
        is_stderr: bool,
    ) -> (r: LineOutcome)
        requires
            old(self).wf(),
        ensures
            final(self).wf(),
            final(self).registry@ == old(self).registry@,
            final(self).guard.is_enabled() == old(self).guard.is_enabled(),
            final(self).guard.stopped_set() == old(self).guard.stopped_set(),
            r.log.tunnel_id == tunnel_id,
            ({
                let clean = spec_sanitize_log(ansi_stripped(raw_line@), secrets.deep_view());
                &&& (is_stderr ==> r.log.message@ == "[ERR] "@ + clean)
                &&& (!is_stderr ==> r.log.message@ == clean)
                &&& match r.guard_warning {
                    Some(w) => spec_fatal_match(clean) is Some && w@ == guard_warning(
                        spec_fatal_match(clean)->Some_0,
                    ) && final(self).guard.guarded_map() == old(self).guard.guarded_map().remove(
                        tunnel_id,
                    ),
                    None => spec_fatal_match(clean) is None && final(self).guard.guarded_map()
                        == old(self).guard.guarded_map(),
                }
            }),
    {
        let stripped = strip_ansi(raw_line);
        let clean = sanitize_log(stripped.as_str(), secrets);
        let warning = self.guard.check_log_and_stop_guard(tunnel_id, clean.as_str());
        let message = if is_stderr {
            let mut m = crate::text::chars_of("[ERR] ");
            crate::text::push_str_chars(&mut m, clean.as_str());
            string_from_chars(&m)
        } else {
            clean
        };
        LineOutcome {
            log: LogMessage { tunnel_id, message, timestamp: current_timestamp() },
            guard_warning: warning,
        }
    }

    /// The informational event emitted when the watchdog finds a tunnel
    /// offline and triggers a restart.
    pub fn offline_notice(tunnel_id: i32) -> (r: LogMessage)
        ensures
            r.tunnel_id == tunnel_id,
            r.message@ == "[W] process offline detected, auto-restart triggered"@,
    {
        LogMessage {
            tunnel_id,
            message: String::from_str("[W] process offline detected, auto-restart triggered"),
            timestamp: current_timestamp(),
        }
    }

    /// One watchdog tick: while the guard is enabled, walks the
    /// enrollments with the caller's liveness answers; every enrolled
    /// tunnel that is not manually stopped and not running loses its
    /// stale registry entry and is returned as a restart request, in
    /// enrollment order.  The guard state itself is unchanged.
    pub fn tick_plan(&mut self, probes: &Vec<(i32, bool)>) -> (r: Vec<RestartRequest>)
        requires
            old(self).wf(),
        ensures
            final(self).wf(),
            final(self).guard.is_enabled() == old(self).guard.is_enabled(),
            final(self).guard.guarded_map() == old(self).guard.guarded_map(),
            final(self).guard.guarded_entries() == old(self).guard.guarded_entries(),
            final(self).guard.stopped_set() == old(self).guard.stopped_set(),
            !old(self).guard.is_enabled() ==> final(self).registry@ == old(self).registry@
                && r@.len() == 0,
            old(self).guard.is_enabled() ==> tick_fold(
                old(self).guard.guarded_entries(),
                old(self).guard.stopped_set(),
                old(self).registry@,
                probes@,
            ) == (final(self).registry@, requests_view(r@)),
    {
        let mut r: Vec<RestartRequest> = Vec::new();
        if !self.guard.get_process_guard_enabled() {
            return r;
        }
        let ghost entries = self.guard.guarded_entries();
        let ghost stopped = self.guard.stopped_set();
        let n = self.guard.guarded_len();
        let mut i: usize = 0;
        proof {
            assert(entries.skip(0) =~= entries);
            assert(requests_view(r@) =~= Seq::<(i32, GuardEntry)>::empty());
        }
        while i < n
            invariant
                self.wf(),
                i <= n,
                n == entries.len(),
                entries == self.guard.guarded_entries(),
                stopped == self.guard.stopped_set(),
                self.guard.is_enabled() == old(self).guard.is_enabled(),
                self.guard.guarded_map() == old(self).guard.guarded_map(),
                entries == old(self).guard.guarded_entries(),
                stopped == old(self).guard.stopped_set(),
                tick_fold(entries, stopped, old(self).registry@, probes@) == ({
                    let rec = tick_fold(entries.skip(i as int), stopped, self.registry@, probes@);
                    (rec.0, requests_view(r@) + rec.1)
                }),
            decreases n - i,
        {
            let ghost rem = entries.skip(i as int);
            let ghost pre_m = self.registry@;
            let ghost pre_r = r@;
            let id = self.guard.guarded_key_at(i);
            proof {
                assert(rem[0] == entries[i as int]);
                assert(rem.drop_first() =~= entries.skip(i + 1));
            }
            if self.guard.is_manually_stopped(id) {
            } else {
                let probe = probe_for(probes, id);
                let os_alive = match probe {
                    Some(true) => true,
                    _ => false,
                };
                let running = self.registry.probe_liveness(id, os_alive);
                proof {
                    if running {
                        assert(self.registry@ == pre_m);
                    } else {
                        assert(self.registry@ =~= pre_m.remove(id));
                    }
                    assert((os_alive == (probe_lookup(probes@, id) == Some(true))));
                }
                if !running {
                    let entry = self.guard.guarded_value_at(i).duplicate();
                    r.push(RestartRequest { tunnel_id: id, entry });
                    proof {
                        let ghost tail = tick_fold(
                            entries.skip(i + 1),
                            stopped,
                            self.registry@,
                            probes@,
                        );
                        assert(requests_view(r@) =~= requests_view(pre_r) + seq![
                            (id, entries[i as int].1),
                        ]);
                        assert((requests_view(pre_r) + seq![(id, entries[i as int].1)]) + tail.1
                            =~= requests_view(pre_r) + (seq![(id, entries[i as int].1)] + tail.1));
                    }
                }
            }
            i = i + 1;
        }
        proof {
            assert(entries.skip(n as int) =~= Seq::<(i32, GuardEntry)>::empty());
            assert(requests_view(r@) + Seq::<(i32, GuardEntry)>::empty() =~= requests_view(r@));
        }
        r
    }

    /// Settles a restart attempt: success produces the confirmation
    /// event and changes nothing; failure produces the failure log and
    /// drops the enrollment, so the tunnel is not retried until the user
    /// starts it again.  Exactly one event comes back either way.
    pub fn restart_tunnel_outcome(&mut self, tunnel_id: i32, outcome: Result<(), String>) -> (ev:
        RestartEvent)
        requires
            old(self).wf(),
        ensures
            final(self).wf(),
            final(self).registry@ == old(self).registry@,
            final(self).guard.is_enabled() == old(self).guard.is_enabled(),
            final(self).guard.stopped_set() == old(self).guard.stopped_set(),
            match ev {
                RestartEvent::Restarted { tunnel_id: t, .. } => {
                    &&& outcome is Ok
                    &&& t == tunnel_id
                    &&& final(self).guard.guarded_map() == old(self).guard.guarded_map()
                    &&& final(self).guard.guarded_entries() == old(self).guard.guarded_entries()
                },
                RestartEvent::Failed { log } => {
                    &&& outcome is Err
                    &&& log.tunnel_id == tunnel_id
                    &&& log.message@ == "[E] supervision restart failed: "@ + (outcome->Err_0)@
                    &&& final(self).guard.guarded_map() == old(self).guard.guarded_map().remove(
                        tunnel_id,
                    )
                },
            },
    {
        match outcome {
            Ok(_) => RestartEvent::Restarted { tunnel_id, timestamp: current_timestamp() },
            Err(e) => {
                self.guard.remove_guarded_process(tunnel_id, false);
                let mut m = crate::text::chars_of("[E] supervision restart failed: ");
                crate::text::push_str_chars(&mut m, e.as_str());
                RestartEvent::Failed {
                    log: LogMessage {
                        tunnel_id,
                        message: string_from_chars(&m),
                        timestamp: current_timestamp(),
                    },
                }
            },
        }
    }
}

} // verus!
