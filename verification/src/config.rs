//! Service configuration and its validation, with field-path error messages.
//!
//! Parsing TOML into these types is left to the caller; this module holds
//! the rules a parsed configuration must satisfy.

use vstd::prelude::*;
use crate::error::CoreError;
use crate::health::{HealthCheck, HealthCheckType, ReadinessCheck};
use crate::restart_policy::RestartPolicy;
use crate::text::{concat2, concat3, contains_string, decimal, owned, str_is_empty, string_views, trim, trim_spec, u64_to_decimal};

verus! {

/// Simple per-service runtime configuration (hostname/port).
#[derive(Debug, Clone, PartialEq, Eq)]
pub struct SimpleServiceConfig {
    /// Optional hostname alias (e.g. `test.dev`).
    pub hostname: Option<String>,
    /// Optional fixed port; when omitted a free port is allocated.
    pub port: Option<u16>,
}

/// Runtime configuration of several services, keyed by service id: each
/// id has one entry.
#[derive(Debug)]
pub struct SimpleServicesFile {
    services: Vec<(String, SimpleServiceConfig)>,
}

/// No id occurs twice among `entries`.
pub open spec fn ids_distinct(entries: Seq<(String, SimpleServiceConfig)>) -> bool {
    forall|i: int, j: int| 0 <= i < j < entries.len() ==> entries[i].0@ != entries[j].0@
}

impl SimpleServicesFile {
    #[verifier::type_invariant]
    spec fn one_entry_per_id(self) -> bool {
        ids_distinct(self.services@)
    }

    /// The entries, in the order their ids were first inserted.
    pub closed spec fn entries(&self) -> Seq<(String, SimpleServiceConfig)> {
        self.services@
    }

    /// A configuration with no service.
    pub fn new() -> (f: Self)
        ensures
            f.entries() == Seq::<(String, SimpleServiceConfig)>::empty(),
    {
        SimpleServicesFile { services: Vec::new() }
    }

    /// Set the configuration of service `id`: an entry already present for
    /// the id keeps its place and takes the new configuration; otherwise a
    /// new entry is added at the end.
    pub fn insert(&mut self, id: String, cfg: SimpleServiceConfig)
        ensures
            forall|i: int| 0 <= i < old(self).entries().len() && old(self).entries()[i].0@ == id@
                ==> final(self).entries() == old(self).entries().update(i, (old(self).entries()[i].0, cfg)),
            (forall|i: int| 0 <= i < old(self).entries().len() ==> old(self).entries()[i].0@ != id@)
                ==> final(self).entries() == old(self).entries().push((id, cfg)),
    {
        proof { use_type_invariant(&*self); }
        let mut services = Vec::new();
        std::mem::swap(&mut services, &mut self.services);
        let mut i: usize = 0;
        while i < services.len()
            invariant
                i <= services@.len(),
                services@ == old(self).services@,
                ids_distinct(services@),
                forall|k: int| 0 <= k < i ==> services@[k].0@ != id@,
            decreases services@.len() - i,
        {
            if crate::text::str_eq(services[i].0.as_str(), id.as_str()) {
                let key = services.remove(i);
                let ghost rest = services@;
                services.insert(i, (key.0, cfg));
                proof {
                    assert(services@ =~= old(self).services@.update(i as int, (old(self).services@[i as int].0, cfg)));
                    assert forall|a: int, b: int| 0 <= a < b < services@.len() implies services@[a].0@ != services@[b].0@ by {
                        assert(services@[a].0@ == old(self).services@[a].0@);
                        assert(services@[b].0@ == old(self).services@[b].0@);
                    }
                }
                self.services = services;
                return;
            }
            i = i + 1;
        }
        let ghost before = services@;
        services.push((id, cfg));
        proof {
            assert forall|a: int, b: int| 0 <= a < b < services@.len() implies services@[a].0@ != services@[b].0@ by {
                if b < before.len() {
                    assert(services@[a] == before[a] && services@[b] == before[b]);
                } else {
                    assert(services@[a] == before[a]);
                }
            }
        }
        self.services = services;
    }

    /// The entries, each id once.
    pub fn services(&self) -> (v: &Vec<(String, SimpleServiceConfig)>)
        ensures
            v@ == self.entries(),
            ids_distinct(v@),
    {
        proof { use_type_invariant(self); }
        &self.services
    }
}

/// The problem with one entry of a simple configuration, if any.
pub open spec fn simple_entry_error(id: Seq<char>, cfg: SimpleServiceConfig) -> Option<Seq<char>> {
    if trim_spec(id).len() == 0 {
        Some("service id (table name) cannot be empty"@)
    } else if cfg.hostname matches Some(h) && trim_spec(h@).len() == 0 {
        Some("service '"@ + id + "': hostname cannot be empty"@)
    } else if cfg.port == Some(0u16) {
        Some("service '"@ + id + "': port must be 1..=65535"@)
    } else {
        None
    }
}

/// Entry `i` is the first one with a problem.
pub open spec fn first_simple_error(entries: Seq<(String, SimpleServiceConfig)>, i: int) -> bool {
    &&& 0 <= i < entries.len()
    &&& simple_entry_error(entries[i].0@, entries[i].1) is Some
    &&& forall|k: int| 0 <= k < i ==> simple_entry_error(entries[k].0@, entries[k].1) is None
}

impl SimpleServicesFile {
    /// Validate the configuration: it must name at least one service, and
    /// the first entry with a blank id, blank hostname or port 0 is reported.
    pub fn validate(&self) -> (r: Result<(), CoreError>)
        ensures
            r is Ok <==> self.entries().len() > 0 && forall|k: int| 0 <= k < self.entries().len()
                ==> simple_entry_error(self.entries()[k].0@, self.entries()[k].1) is None,
            self.entries().len() == 0 ==> (r matches Err(CoreError::ValidationError(m))
                && m@ == "config must contain at least one service section"@),
            self.entries().len() > 0 && r is Err ==> (r matches Err(CoreError::ValidationError(m))
                && exists|i: int| first_simple_error(self.entries(), i)
                && Some(m@) == simple_entry_error(self.entries()[i].0@, self.entries()[i].1)),
    {
        if self.services.len() == 0 {
            return Err(CoreError::ValidationError(owned("config must contain at least one service section")));
        }
        let mut i: usize = 0;
        while i < self.services.len()
            invariant
                i <= self.services@.len(),
                forall|k: int| 0 <= k < i ==> simple_entry_error(self.services@[k].0@, self.services@[k].1) is None,
            decreases self.services@.len() - i,
        {
            let id = &self.services[i].0;
            let cfg = &self.services[i].1;
            if str_is_empty(trim(id.as_str())) {
                assert(first_simple_error(self.services@, i as int));
                return Err(CoreError::ValidationError(owned("service id (table name) cannot be empty")));
            }
            if let Some(hn) = &cfg.hostname {
                if str_is_empty(trim(hn.as_str())) {
                    assert(first_simple_error(self.services@, i as int));
                    return Err(CoreError::ValidationError(
                        concat3("service '", id.as_str(), "': hostname cannot be empty"),
                    ));
                }
            }
            if let Some(p) = cfg.port {
                if p == 0 {
                    assert(first_simple_error(self.services@, i as int));
                    return Err(CoreError::ValidationError(
                        concat3("service '", id.as_str(), "': port must be 1..=65535"),
                    ));
                }
            }
            i = i + 1;
        }
        Ok(())
    }
}

/// Backoff settings of a service as far as validation reads them. The
/// jitter and multiplier are fractional; whether they lie in their allowed
/// ranges is decided by the code that holds them and recorded here.
#[derive(Debug, Clone, Copy, PartialEq, Eq)]
pub struct BackoffSettings {
    /// Delay before the first restart, in seconds.
    pub base_delay_secs: u64,
    /// Upper bound on the delay, in seconds.
    pub max_delay_secs: u64,
    /// Length of the failure window, in seconds.
    pub failure_window_secs: u64,
    /// The jitter lies in `[0.0, 1.0]`.
    pub jitter_in_range: bool,
    /// The multiplier is greater than zero.
    pub multiplier_positive: bool,
}

/// Everything the supervisor needs to run one service.
#[derive(Debug, Clone, PartialEq, Eq)]
pub struct ServiceSpec {
    /// Unique service identifier.
    pub id: String,
    /// Display name.
    pub name: String,
    /// Program to run.
    pub command: String,
    /// Arguments of the program.
    pub args: Vec<String>,
    /// Environment variables, sorted by name, each name once.
    pub environment: Vec<(String, String)>,
    /// Working directory, if not the daemon's.
    pub working_directory: Option<String>,
    /// When to restart the service.
    pub restart_policy: RestartPolicy,
    /// Backoff between restarts.
    pub backoff_config: BackoffSettings,
    /// Liveness check, if any.
    pub health_check: Option<HealthCheck>,
    /// Readiness check, if any.
    pub readiness_check: Option<ReadinessCheck>,
    /// Seconds to wait for a graceful stop before killing.
    pub graceful_timeout_secs: u64,
    /// Seconds a start may take before it counts as failed.
    pub startup_timeout_secs: u64,
}

/// All services of a configuration file.
#[derive(Debug, Clone, PartialEq, Eq)]
pub struct ServicesFile {
    /// Services to supervise.
    pub services: Vec<ServiceSpec>,
}

/// `services[i]`, the start of every field path.
pub open spec fn index_prefix(i: int) -> Seq<char> {
    "services["@ + decimal(i as nat) + "]"@
}

/// The problem with a health or readiness check, if any.
pub open spec fn probe_error(
    i: int,
    field: Seq<char>,
    kind: HealthCheckType,
    interval_secs: u64,
    timeout_secs: u64,
    thresholds: Option<(u32, u32)>,
) -> Option<Seq<char>> {
    let p = index_prefix(i) + "."@ + field;
    if interval_secs == 0 {
        Some(p + ".intervalSecs: must be > 0"@)
    } else if timeout_secs == 0 {
        Some(p + ".timeoutSecs: must be > 0"@)
    } else if thresholds matches Some((f, _)) && f == 0 {
        Some(p + ".failureThreshold: must be > 0"@)
    } else if thresholds matches Some((_, s)) && s == 0 {
        Some(p + ".successThreshold: must be > 0"@)
    } else {
        match kind {
            HealthCheckType::Tcp { port } => if port == 0 {
                Some(p + ".type[Tcp].port: must be 1..=65535"@)
            } else {
                None
            },
            HealthCheckType::Exec { command, .. } => if trim_spec(command@).len() == 0 {
                Some(p + ".type[Exec].command: cannot be empty"@)
            } else {
                None
            },
        }
    }
}

/// Some environment variable name of `env` is blank.
pub open spec fn has_blank_env_key(env: Seq<(String, String)>) -> bool {
    exists|k: int| 0 <= k < env.len() && trim_spec(#[trigger] env[k].0@).len() == 0
}

/// Some service before `i` has the same id as service `i`.
pub open spec fn id_seen_before(specs: Seq<ServiceSpec>, i: int) -> bool {
    exists|j: int| 0 <= j < i && #[trigger] specs[j].id@ == specs[i].id@
}

/// The problem with the checks of a service, if any.
pub open spec fn checks_error(s: ServiceSpec, i: int) -> Option<Seq<char>> {
    let health = match s.health_check {
        Some(h) => probe_error(
            i,
            "healthCheck"@,
            h.check_type,
            h.interval_secs,
            h.timeout_secs,
            Some((h.failure_threshold, h.success_threshold)),
        ),
        None => None,
    };
    if health is Some {
        health
    } else {
        match s.readiness_check {
            Some(r) => probe_error(
                i,
                "readinessCheck"@,
                r.check_type,
                r.interval_secs,
                r.timeout_secs,
                Some((1u32, r.success_threshold)),
            ),
            None => None,
        }
    }
}

/// The problem with service `i` when every earlier service is valid, if any.
pub open spec fn service_error(specs: Seq<ServiceSpec>, i: int) -> Option<Seq<char>> {
    let s = specs[i];
    let p = index_prefix(i);
    if trim_spec(s.id@).len() == 0 {
        Some(p + ".id: cannot be empty"@)
    } else if id_seen_before(specs, i) {
        Some(p + ".id: duplicate id '"@ + s.id@ + "'"@)
    } else if trim_spec(s.name@).len() == 0 {
        Some(p + ".name: cannot be empty"@)
    } else if trim_spec(s.command@).len() == 0 {
        Some(p + ".command: cannot be empty"@)
    } else if has_blank_env_key(s.environment@) {
        Some(p + ".environment: keys cannot be empty"@)
    } else if s.backoff_config.base_delay_secs == 0 {
        Some(p + ".backoffConfig.baseDelaySecs: must be > 0"@)
    } else if !s.backoff_config.jitter_in_range {
        Some(p + ".backoffConfig.jitter: must be between 0.0 and 1.0"@)
    } else if !s.backoff_config.multiplier_positive {
        Some(p + ".backoffConfig.multiplier: must be > 0"@)
    } else if s.graceful_timeout_secs == 0 {
        Some(p + ".gracefulTimeoutSecs: must be > 0"@)
    } else if s.startup_timeout_secs == 0 {
        Some(p + ".startupTimeoutSecs: must be > 0"@)
    } else {
        checks_error(s, i)
    }
}

/// Service `i` is the first one with a problem.
pub open spec fn first_service_error(specs: Seq<ServiceSpec>, i: int) -> bool {
    &&& 0 <= i < specs.len()
    &&& service_error(specs, i) is Some
    &&& forall|k: int| 0 <= k < i ==> service_error(specs, k) is None
}

/// In a configuration that passes validation, service ids are non-blank
/// and pairwise distinct, and every TCP check probes a non-zero port.
pub proof fn lemma_valid_services_have_unique_ids(specs: Seq<ServiceSpec>)
    requires
        forall|k: int| 0 <= k < specs.len() ==> service_error(specs, k) is None,
    ensures
        forall|i: int| 0 <= i < specs.len() ==> trim_spec(#[trigger] specs[i].id@).len() > 0,
        forall|i: int, j: int| 0 <= i < j < specs.len() ==> specs[i].id@ != specs[j].id@,
        forall|i: int| 0 <= i < specs.len() ==> (#[trigger] specs[i].health_check matches Some(h)
            ==> (h.check_type matches HealthCheckType::Tcp { port } ==> port != 0)),
{
    assert forall|i: int| 0 <= i < specs.len() implies trim_spec(#[trigger] specs[i].id@).len() > 0 by {
        assert(service_error(specs, i) is None);
    }
    assert forall|i: int, j: int| 0 <= i < j < specs.len() implies specs[i].id@ != specs[j].id@ by {
        assert(service_error(specs, j) is None);
        if specs[i].id@ == specs[j].id@ {
            assert(id_seen_before(specs, j));
        }
    }
    assert forall|i: int| 0 <= i < specs.len() implies (#[trigger] specs[i].health_check matches Some(h)
        ==> (h.check_type matches HealthCheckType::Tcp { port } ==> port != 0)) by {
        assert(service_error(specs, i) is None);
    }
}

/// The probe reaches something: a TCP check names a port other than 0, a
/// command check a command that is not blank.
pub open spec fn probe_target_ok(kind: HealthCheckType) -> bool {
    match kind {
        HealthCheckType::Tcp { port } => port != 0,
        HealthCheckType::Exec { command, .. } => trim_spec(command@).len() > 0,
    }
}

/// In a configuration that passes validation, every health check and every
/// readiness check has positive intervals, timeouts and thresholds and a
/// probe that reaches something; a readiness check is held to this whether
/// or not the service also has a health check.
pub proof fn lemma_valid_services_have_sound_checks(specs: Seq<ServiceSpec>)
    requires
        forall|k: int| 0 <= k < specs.len() ==> service_error(specs, k) is None,
    ensures
        forall|i: int| 0 <= i < specs.len() ==> (#[trigger] specs[i].health_check matches Some(h) ==> {
            &&& h.interval_secs > 0
            &&& h.timeout_secs > 0
            &&& h.failure_threshold > 0
            &&& h.success_threshold > 0
            &&& probe_target_ok(h.check_type)
        }),
        forall|i: int| 0 <= i < specs.len() ==> (#[trigger] specs[i].readiness_check matches Some(r) ==> {
            &&& r.interval_secs > 0
            &&& r.timeout_secs > 0
            &&& r.success_threshold > 0
            &&& probe_target_ok(r.check_type)
        }),
{
    assert forall|i: int| 0 <= i < specs.len() implies (#[trigger] specs[i].health_check matches Some(h) ==> {
        &&& h.interval_secs > 0
        &&& h.timeout_secs > 0
        &&& h.failure_threshold > 0
        &&& h.success_threshold > 0
        &&& probe_target_ok(h.check_type)
    }) by {
        assert(service_error(specs, i) is None);
    }
    assert forall|i: int| 0 <= i < specs.len() implies (#[trigger] specs[i].readiness_check matches Some(r) ==> {
        &&& r.interval_secs > 0
        &&& r.timeout_secs > 0
        &&& r.success_threshold > 0
        &&& probe_target_ok(r.check_type)
    }) by {
        assert(service_error(specs, i) is None);
    }
}

/// `services[i]` followed by `suffix`.
fn index_message(i: usize, suffix: &str) -> (m: String)
    ensures
        m@ == index_prefix(i as int) + suffix@,
{
    let d = u64_to_decimal(i as u64);
    let head = concat3("services[", d.as_str(), "]");
    concat2(head.as_str(), suffix)
}

/// `services[i].field` followed by `suffix`.
fn probe_message(i: usize, field: &str, suffix: &str) -> (m: String)
    ensures
        m@ == index_prefix(i as int) + "."@ + field@ + suffix@,
{
    let d = u64_to_decimal(i as u64);
    let head = concat3("services[", d.as_str(), "]");
    let with_field = concat3(head.as_str(), ".", field);
    concat2(with_field.as_str(), suffix)
}

/// Validate one health or readiness check of service `index`.
pub fn validate_probe(
    index: usize,
    field: &str,
    kind: &HealthCheckType,
    interval_secs: u64,
    timeout_secs: u64,
    thresholds: Option<(u32, u32)>,
) -> (r: Result<(), CoreError>)
    ensures
        probe_error(index as int, field@, *kind, interval_secs, timeout_secs, thresholds) matches Some(m)
            ==> (r matches Err(CoreError::ValidationError(e)) && e@ == m),
        probe_error(index as int, field@, *kind, interval_secs, timeout_secs, thresholds) is None ==> r is Ok,
{
    if interval_secs == 0 {
        return Err(CoreError::ValidationError(probe_message(index, field, ".intervalSecs: must be > 0")));
    }
    if timeout_secs == 0 {
        return Err(CoreError::ValidationError(probe_message(index, field, ".timeoutSecs: must be > 0")));
    }
    if let Some((fail, succ)) = thresholds {
        if fail == 0 {
            return Err(CoreError::ValidationError(probe_message(index, field, ".failureThreshold: must be > 0")));
        }
        if succ == 0 {
            return Err(CoreError::ValidationError(probe_message(index, field, ".successThreshold: must be > 0")));
        }
    }
    match kind {
        HealthCheckType::Tcp { port } => {
            if *port == 0 {
                return Err(CoreError::ValidationError(
                    probe_message(index, field, ".type[Tcp].port: must be 1..=65535"),
                ));
            }
        },
        HealthCheckType::Exec { command, .. } => {
            if str_is_empty(trim(command.as_str())) {
                return Err(CoreError::ValidationError(
                    probe_message(index, field, ".type[Exec].command: cannot be empty"),
                ));
            }
        },
    }
    Ok(())
}

fn find_blank_env_key(env: &Vec<(String, String)>) -> (b: bool)
    ensures
        b == has_blank_env_key(env@),
{
    let mut k: usize = 0;
    while k < env.len()
        invariant
            k <= env@.len(),
            forall|j: int| 0 <= j < k ==> trim_spec(#[trigger] env@[j].0@).len() != 0,
        decreases env@.len() - k,
    {
        if str_is_empty(trim(env[k].0.as_str())) {
            return true;
        }
        k = k + 1;
    }
    false
}

fn validate_checks(s: &ServiceSpec, i: usize) -> (r: Result<(), CoreError>)
    ensures
        checks_error(*s, i as int) matches Some(m) ==> (r matches Err(CoreError::ValidationError(e)) && e@ == m),
        checks_error(*s, i as int) is None ==> r is Ok,
{
    if let Some(h) = &s.health_check {
        validate_probe(
            i,
            "healthCheck",
            &h.check_type,
            h.interval_secs,
            h.timeout_secs,
            Some((h.failure_threshold, h.success_threshold)),
        )?;
    }
    if let Some(r) = &s.readiness_check {
        validate_probe(i, "readinessCheck", &r.check_type, r.interval_secs, r.timeout_secs, Some((1, r.success_threshold)))?;
    }
    Ok(())
}

impl ServicesFile {
    /// Validate the configuration: there must be at least one service, and
    /// the first problem of the first invalid service is reported with its
    /// field path.
    pub fn validate(&self) -> (r: Result<(), CoreError>)
        ensures
            r is Ok <==> self.services@.len() > 0 && forall|k: int| 0 <= k < self.services@.len()
                ==> service_error(self.services@, k) is None,
            self.services@.len() == 0 ==> (r matches Err(CoreError::ValidationError(m))
                && m@ == "services: must contain at least one service"@),
            self.services@.len() > 0 && r is Err ==> (r matches Err(CoreError::ValidationError(m))
                && exists|i: int| first_service_error(self.services@, i)
                && service_error(self.services@, i) == Some(m@)),
    {
        if self.services.len() == 0 {
            return Err(CoreError::ValidationError(owned("services: must contain at least one service")));
        }
        let ghost specs = self.services@;
        let mut seen: Vec<String> = Vec::new();
        let mut i: usize = 0;
        while i < self.services.len()
            invariant
                specs == self.services@,
                i <= specs.len(),
                forall|k: int| 0 <= k < i ==> service_error(specs, k) is None,
                string_views(seen@) =~= Seq::new(i as nat, |j: int| specs[j].id@),
            decreases specs.len() - i,
        {
            let svc = &self.services[i];
            if str_is_empty(trim(svc.id.as_str())) {
                assert(first_service_error(specs, i as int));
                return Err(CoreError::ValidationError(index_message(i, ".id: cannot be empty")));
            }
            let dup = contains_string(&seen, &svc.id);
            proof {
                if dup {
                    let k = choose|k: int| 0 <= k < string_views(seen@).len() && string_views(seen@)[k] == svc.id@;
                    assert(specs[k].id@ == specs[i as int].id@);
                    assert(id_seen_before(specs, i as int));
                }
                if id_seen_before(specs, i as int) {
                    let j = choose|j: int| 0 <= j < i && #[trigger] specs[j].id@ == specs[i as int].id@;
                    assert(string_views(seen@)[j] == svc.id@);
                }
            }
            if dup {
                let head = index_message(i, ".id: duplicate id '");
                assert(first_service_error(specs, i as int));
                return Err(CoreError::ValidationError(concat3(head.as_str(), svc.id.as_str(), "'")));
            }
            let ghost old_seen = seen@;
            let id_copy = svc.id.clone();
            seen.push(id_copy);
            proof {
                assert forall|k: int| 0 <= k < i + 1 implies string_views(seen@)[k] == specs[k].id@ by {
                    if k < i {
                        assert(seen@[k] == old_seen[k]);
                        assert(string_views(old_seen)[k] == specs[k].id@);
                    }
                }
                assert(string_views(seen@) =~= Seq::new(i as nat + 1, |j: int| specs[j].id@));
            }
            if str_is_empty(trim(svc.name.as_str())) {
                assert(first_service_error(specs, i as int));
                return Err(CoreError::ValidationError(index_message(i, ".name: cannot be empty")));
            }
            if str_is_empty(trim(svc.command.as_str())) {
                assert(first_service_error(specs, i as int));
                return Err(CoreError::ValidationError(index_message(i, ".command: cannot be empty")));
            }
            if find_blank_env_key(&svc.environment) {
                assert(first_service_error(specs, i as int));
                return Err(CoreError::ValidationError(index_message(i, ".environment: keys cannot be empty")));
            }
            let b = &svc.backoff_config;
            if b.base_delay_secs == 0 {
                assert(first_service_error(specs, i as int));
                return Err(CoreError::ValidationError(index_message(i, ".backoffConfig.baseDelaySecs: must be > 0")));
            }
            if !b.jitter_in_range {
                assert(first_service_error(specs, i as int));
                return Err(CoreError::ValidationError(
                    index_message(i, ".backoffConfig.jitter: must be between 0.0 and 1.0"),
                ));
            }
            if !b.multiplier_positive {
                assert(first_service_error(specs, i as int));
                return Err(CoreError::ValidationError(index_message(i, ".backoffConfig.multiplier: must be > 0")));
            }
            if svc.graceful_timeout_secs == 0 {
                assert(first_service_error(specs, i as int));
                return Err(CoreError::ValidationError(index_message(i, ".gracefulTimeoutSecs: must be > 0")));
            }
            if svc.startup_timeout_secs == 0 {
                assert(first_service_error(specs, i as int));
                return Err(CoreError::ValidationError(index_message(i, ".startupTimeoutSecs: must be > 0")));
            }
            let checked = validate_checks(svc, i);
            if checked.is_err() {
                assert(first_service_error(specs, i as int));
                return checked;
            }
            i = i + 1;
        }
        Ok(())
    }
}

} // verus!
