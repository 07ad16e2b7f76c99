//! Registry snapshots: the versioned record of every service and its last
//! known state, how it is kept up to date, and timestamp formatting.
//!
//! Reading and writing the snapshot file is left to the caller; this
//! module holds what is decided about its contents.

use vstd::prelude::*;
use crate::error::CoreError;
use crate::restart_policy::RestartPolicy;
use crate::supervisor::ServiceState;
use crate::text::{concat3, decimal, owned, str_eq, u64_to_decimal};

verus! {

/// Snapshot file format version.
pub const SNAPSHOT_VERSION: u32 = 1;

/// First second (since the Unix epoch) that RFC 3339 with a four-digit
/// year cannot represent: the start of the year 10000.
pub const RFC3339_LIMIT_SECS: u64 = 253_402_300_800;

/// The RFC 3339 text, in UTC with whole seconds, of the instant `secs`
/// seconds after the Unix epoch, as `humantime::format_rfc3339_seconds` writes it.
pub uninterp spec fn rfc3339_seconds_text(secs: u64) -> Seq<char>;

/// Whether `c` is one of the ASCII digits `0` to `9`.
pub open spec fn is_ascii_digit(c: char) -> bool {
    '0' <= c <= '9'
}

/// The shape `YYYY-MM-DDTHH:MM:SSZ`: twenty characters, digits but for
/// the separators and the final `Z`.
pub open spec fn rfc3339_seconds_shape(s: Seq<char>) -> bool {
    &&& s.len() == 20
    &&& s[4] == '-' && s[7] == '-' && s[10] == 'T' && s[13] == ':' && s[16] == ':' && s[19] == 'Z'
    &&& forall|i: int| 0 <= i < 19 && i != 4 && i != 7 && i != 10 && i != 13 && i != 16 ==> is_ascii_digit(#[trigger] s[i])
}

/// Formats an instant as RFC 3339 with whole seconds; calls
/// `humantime::format_rfc3339_seconds`, which fails for instants from the
/// year 10000 on. Its `Display` writes the twenty characters
/// `YYYY-MM-DDTHH:MM:SSZ`, each field as zero-padded digits.
#[verifier::external_body]
fn rfc3339_seconds(secs: u64) -> (s: String)
    requires
        secs < RFC3339_LIMIT_SECS,
    ensures
        s@ == rfc3339_seconds_text(secs),
        rfc3339_seconds_shape(s@),
{
    humantime::format_rfc3339_seconds(std::time::UNIX_EPOCH + std::time::Duration::from_secs(secs)).to_string()
}

/// The snapshot timestamp for the instant `secs`: RFC 3339 in UTC with
/// whole seconds, `YYYY-MM-DDTHH:MM:SSZ`.
pub fn format_timestamp(secs: u64) -> (s: String)
    requires
        secs < RFC3339_LIMIT_SECS,
    ensures
        s@ == rfc3339_seconds_text(secs),
        rfc3339_seconds_shape(s@),
{
    rfc3339_seconds(secs)
}

/// Per-service snapshot: the specification and last known state.
#[derive(Debug, Clone, PartialEq)]
pub struct ServiceSnapshot<S> {
    /// Service identifier.
    pub id: String,
    /// Full service specification.
    pub spec: S,
    /// Last known state.
    pub last_state: ServiceState,
    /// Last known process id, if the process was started.
    pub last_pid: Option<u32>,
}

/// Full registry snapshot.
#[derive(Debug, Clone, PartialEq)]
pub struct RegistrySnapshot<S> {
    /// Format version.
    pub version: u32,
    /// RFC 3339 timestamp of the snapshot.
    pub timestamp: String,
    /// Per-service entries.
    pub services: Vec<ServiceSnapshot<S>>,
}

/// A change that the registry records.
#[derive(Debug, Clone)]
pub enum SnapshotUpdate {
    /// A service changed state.
    StateChanged {
        /// The service.
        service_id: String,
        /// Its new state.
        to_state: ServiceState,
    },
    /// A process was started for a service.
    ProcessStarted {
        /// The service.
        service_id: String,
        /// Process id of the new process.
        pid: u32,
    },
    /// The process of a service exited.
    ProcessExited {
        /// The service.
        service_id: String,
    },
}

/// Index of the first entry for `id`, if any.
pub open spec fn first_index_of<S>(entries: Seq<ServiceSnapshot<S>>, id: Seq<char>) -> Option<int> {
    if exists|i: int| 0 <= i < entries.len() && entries[i].id@ == id {
        Some(choose|i: int| 0 <= i < entries.len() && entries[i].id@ == id
            && forall|k: int| 0 <= k < i ==> entries[k].id@ != id)
    } else {
        None
    }
}

/// The same entry with a different state or process id.
pub open spec fn with_state_pid<S>(e: ServiceSnapshot<S>, state: ServiceState, pid: Option<u32>) -> ServiceSnapshot<S> {
    ServiceSnapshot { last_state: state, last_pid: pid, ..e }
}

/// The entries after `update`: the first entry for the service gets the
/// new state, process id or no process id; other entries are unchanged.
pub open spec fn updated_entries<S>(entries: Seq<ServiceSnapshot<S>>, update: SnapshotUpdate) -> Seq<ServiceSnapshot<S>> {
    let (id, f) = match update {
        SnapshotUpdate::StateChanged { service_id, to_state } => (service_id@, |e: ServiceSnapshot<S>| with_state_pid(e, to_state, e.last_pid)),
        SnapshotUpdate::ProcessStarted { service_id, pid } => (service_id@, |e: ServiceSnapshot<S>| with_state_pid(e, e.last_state, Some(pid))),
        SnapshotUpdate::ProcessExited { service_id } => (service_id@, |e: ServiceSnapshot<S>| with_state_pid(e, e.last_state, None)),
    };
    match first_index_of(entries, id) {
        Some(i) => entries.update(i, f(entries[i])),
        None => entries,
    }
}

impl<S> RegistrySnapshot<S> {
    /// A snapshot of the current version with no service.
    pub fn empty(timestamp: String) -> (r: Self)
        ensures
            r.version == SNAPSHOT_VERSION,
            r.timestamp == timestamp,
            r.services@.len() == 0,
    {
        RegistrySnapshot { version: SNAPSHOT_VERSION, timestamp, services: Vec::new() }
    }

    /// Forget every process id: processes of an earlier daemon are not adopted.
    pub fn forget_pids(&mut self)
        ensures
            final(self).version == old(self).version,
            final(self).timestamp == old(self).timestamp,
            final(self).services@.len() == old(self).services@.len(),
            forall|i: int| 0 <= i < old(self).services@.len() ==> #[trigger] final(self).services@[i]
                == with_state_pid(old(self).services@[i], old(self).services@[i].last_state, None),
    {
        let mut i: usize = 0;
        while i < self.services.len()
            invariant
                i <= self.services@.len(),
                self.services@.len() == old(self).services@.len(),
                self.version == old(self).version,
                self.timestamp == old(self).timestamp,
                forall|k: int| 0 <= k < i ==> #[trigger] self.services@[k]
                    == with_state_pid(old(self).services@[k], old(self).services@[k].last_state, None),
                forall|k: int| i <= k < self.services@.len() ==> #[trigger] self.services@[k] == old(self).services@[k],
            decreases self.services@.len() - i,
        {
            self.services[i].last_pid = None;
            i = i + 1;
        }
    }

    fn position_of(&self, id: &str) -> (r: Option<usize>)
        ensures
            r matches Some(i) ==> first_index_of(self.services@, id@) == Some(i as int) && i < self.services@.len(),
            r is None ==> first_index_of(self.services@, id@) is None,
    {
        let mut i: usize = 0;
        while i < self.services.len()
            invariant
                i <= self.services@.len(),
                forall|k: int| 0 <= k < i ==> self.services@[k].id@ != id@,
            decreases self.services@.len() - i,
        {
            if str_eq(self.services[i].id.as_str(), id) {
                proof {
                    let e = self.services@;
                    let j = choose|j: int| 0 <= j < e.len() && e[j].id@ == id@
                        && forall|k: int| 0 <= k < j ==> e[k].id@ != id@;
                    assert(j == i);
                }
                return Some(i);
            }
            i = i + 1;
        }
        None
    }

    /// Add an entry for a service that has none yet: idle, with no process.
    pub fn seed_service(&mut self, id: &str, spec: S)
        ensures
            final(self).version == old(self).version,
            final(self).timestamp == old(self).timestamp,
            first_index_of(old(self).services@, id@) is Some ==> final(self).services@ == old(self).services@,
            first_index_of(old(self).services@, id@) is None ==> final(self).services@.len() == old(self).services@.len() + 1
                && final(self).services@.take(old(self).services@.len() as int) == old(self).services@
                && final(self).services@.last().id@ == id@
                && final(self).services@.last().spec == spec
                && final(self).services@.last().last_state == ServiceState::Idle
                && final(self).services@.last().last_pid is None,
    {
        if self.position_of(id).is_none() {
            self.services.push(ServiceSnapshot {
                id: owned(id),
                spec,
                last_state: ServiceState::Idle,
                last_pid: None,
            });
            assert(self.services@.take(old(self).services@.len() as int) =~= old(self).services@);
        }
    }

    /// Record an update in the first entry of its service; an update for an
    /// unknown service changes nothing.
    pub fn apply_update(&mut self, update: &SnapshotUpdate)
        ensures
            final(self).version == old(self).version,
            final(self).timestamp == old(self).timestamp,
            final(self).services@ == updated_entries(old(self).services@, *update),
    {
        let id = match update {
            SnapshotUpdate::StateChanged { service_id, .. } => service_id,
            SnapshotUpdate::ProcessStarted { service_id, .. } => service_id,
            SnapshotUpdate::ProcessExited { service_id } => service_id,
        };
        match self.position_of(id.as_str()) {
            Some(i) => {
                match update {
                    SnapshotUpdate::StateChanged { to_state, .. } => {
                        self.services[i].last_state = *to_state;
                    },
                    SnapshotUpdate::ProcessStarted { pid, .. } => {
                        self.services[i].last_pid = Some(*pid);
                    },
                    SnapshotUpdate::ProcessExited { .. } => {
                        self.services[i].last_pid = None;
                    },
                }
                assert(self.services@ =~= updated_entries(old(self).services@, *update));
            },
            None => {},
        }
    }
}

/// The registry the daemon starts from: a snapshot that was loaded, with
/// every process id forgotten, or, when none could be loaded (missing,
/// unreadable, corrupt or of another version), an empty one stamped
/// `timestamp`. Either way the daemon can start.
pub fn recovered_registry<S>(loaded: Result<RegistrySnapshot<S>, CoreError>, timestamp: String) -> (r: RegistrySnapshot<S>)
    ensures
        forall|i: int| 0 <= i < r.services@.len() ==> (#[trigger] r.services@[i]).last_pid is None,
        loaded matches Ok(snap) ==> {
            &&& r.version == snap.version
            &&& r.timestamp == snap.timestamp
            &&& r.services@.len() == snap.services@.len()
            &&& forall|i: int| 0 <= i < snap.services@.len() ==> #[trigger] r.services@[i] == with_state_pid(
                snap.services@[i],
                snap.services@[i].last_state,
                None,
            )
        },
        loaded is Err ==> r.version == SNAPSHOT_VERSION && r.timestamp == timestamp && r.services@.len() == 0,
{
    match loaded {
        Ok(snap) => {
            let mut cleaned = snap;
            cleaned.forget_pids();
            cleaned
        },
        Err(_) => RegistrySnapshot::empty(timestamp),
    }
}

/// The ids of `entries`, in order.
pub open spec fn entry_ids<S>(entries: Seq<ServiceSnapshot<S>>) -> Seq<Seq<char>> {
    Seq::new(entries.len(), |i: int| entries[i].id@)
}

/// The ids of `added`, in order.
pub open spec fn added_ids<S>(added: Seq<(Seq<char>, S)>) -> Seq<Seq<char>> {
    Seq::new(added.len(), |j: int| added[j].0)
}

/// The ids and specifications that seeding `seeds` in order adds to a
/// registry whose ids are `present`: for each id that is not present, the
/// first seed with that id, in the order of `seeds`.
#[verifier::opaque]
pub open spec fn seeds_added<S>(present: Seq<Seq<char>>, seeds: Seq<(String, S)>) -> Seq<(Seq<char>, S)>
    decreases seeds.len(),
{
    if seeds.len() == 0 {
        Seq::empty()
    } else {
        let prev = seeds_added(present, seeds.drop_last());
        let id = seeds.last().0@;
        if present.contains(id) || added_ids(prev).contains(id) {
            prev
        } else {
            prev.push((id, seeds.last().1))
        }
    }
}

/// `after` is `before` followed by one idle entry without process for each
/// of `added`, with its id and specification, in the order of `added`.
#[verifier::opaque]
pub open spec fn extended_with_idle<S>(
    before: Seq<ServiceSnapshot<S>>,
    after: Seq<ServiceSnapshot<S>>,
    added: Seq<(Seq<char>, S)>,
) -> bool {
    &&& after.len() == before.len() + added.len()
    &&& after.take(before.len() as int) == before
    &&& forall|j: int| 0 <= j < added.len() ==> {
        &&& after[before.len() + j].id@ == (#[trigger] added[j]).0
        &&& after[before.len() + j].spec == added[j].1
        &&& after[before.len() + j].last_state == ServiceState::Idle
        &&& after[before.len() + j].last_pid is None
    }
}

impl<S> RegistrySnapshot<S> {
    /// Seed every configured service, in order: each one that has no
    /// entry yet gets an idle entry without process, carrying the
    /// specification of its first seed. Existing entries are kept as they
    /// are, and afterwards every configured service has an entry.
    pub fn seed_services(&mut self, seeds: Vec<(String, S)>)
        ensures
            final(self).version == old(self).version,
            final(self).timestamp == old(self).timestamp,
            extended_with_idle(
                old(self).services@,
                final(self).services@,
                seeds_added(entry_ids(old(self).services@), seeds@),
            ),
            forall|k: int| 0 <= k < seeds@.len() ==> first_index_of(final(self).services@, #[trigger] seeds@[k].0@) is Some,
    {
        let ghost all = seeds@;
        let ghost start = self.services@;
        let mut rest = seeds;
        let mut done: usize = 0;
        let total = rest.len();
        assert(rest@ =~= all.subrange(0, all.len() as int));
        assert(all.take(0) =~= Seq::<(String, S)>::empty());
        assert(extended_with_idle(start, self.services@, seeds_added(entry_ids(start), all.take(0)))) by {
            reveal(extended_with_idle);
            reveal(seeds_added);
            assert(self.services@.take(start.len() as int) =~= start);
        }
        while rest.len() > 0
            invariant
                total == all.len(),
                rest@ =~= all.subrange(done as int, all.len() as int),
                done <= all.len(),
                self.version == old(self).version,
                self.timestamp == old(self).timestamp,
                start == old(self).services@,
                extended_with_idle(start, self.services@, seeds_added(entry_ids(start), all.take(done as int))),
                forall|k: int| 0 <= k < done ==> first_index_of(self.services@, #[trigger] all[k].0@) is Some,
            decreases rest@.len(),
        {
            let ghost before = self.services@;
            let (id, spec) = rest.remove(0);
            proof {
                assert(id@ == all[done as int].0@);
                assert(spec == all[done as int].1);
            }
            self.seed_service(id.as_str(), spec);
            proof {
                lemma_seeding_one(start, before, self.services@, all, done as int);
                assert(rest@ =~= all.subrange(done as int + 1, all.len() as int));
            }
            done = done + 1;
        }
        assert(all.take(done as int) =~= all);
    }
}

/// One step of seeding: after seed `k` is handled, the registry extends
/// `start` by what the first `k + 1` seeds add, and each of them has an entry.
proof fn lemma_seeding_one<S>(
    start: Seq<ServiceSnapshot<S>>,
    before: Seq<ServiceSnapshot<S>>,
    after: Seq<ServiceSnapshot<S>>,
    seeds: Seq<(String, S)>,
    k: int,
)
    requires
        0 <= k < seeds.len(),
        extended_with_idle(start, before, seeds_added(entry_ids(start), seeds.take(k))),
        forall|i: int| 0 <= i < k ==> first_index_of(before, #[trigger] seeds[i].0@) is Some,
        first_index_of(before, seeds[k].0@) is Some ==> after == before,
        first_index_of(before, seeds[k].0@) is None ==> after.len() == before.len() + 1
            && after.take(before.len() as int) == before
            && after.last().id@ == seeds[k].0@
            && after.last().spec == seeds[k].1
            && after.last().last_state == ServiceState::Idle
            && after.last().last_pid is None,
    ensures
        extended_with_idle(start, after, seeds_added(entry_ids(start), seeds.take(k + 1))),
        forall|i: int| 0 <= i <= k ==> first_index_of(after, #[trigger] seeds[i].0@) is Some,
{
    let prev = seeds_added(entry_ids(start), seeds.take(k));
    let id = seeds[k].0@;
    lemma_seeds_added_step(entry_ids(start), seeds, k);
    lemma_found_in_extension(start, before, prev, id);
    if first_index_of(before, id) is None {
        let e = after.last();
        assert(after =~= before.push(e));
        lemma_seeded_service_found(before, e);
        lemma_all_found_kept(before, e, seeds, k);
        lemma_extension_step(start, before, prev, e);
    }
}

/// What seed `k` adds: nothing when its id is present or already added,
/// otherwise its id and specification.
proof fn lemma_seeds_added_step<S>(present: Seq<Seq<char>>, seeds: Seq<(String, S)>, k: int)
    requires
        0 <= k < seeds.len(),
    ensures
        ({
            let prev = seeds_added(present, seeds.take(k));
            let id = seeds[k].0@;
            seeds_added(present, seeds.take(k + 1)) == if present.contains(id) || added_ids(prev).contains(id) {
                prev
            } else {
                prev.push((id, seeds[k].1))
            }
        }),
{
    reveal(seeds_added);
    assert(seeds.take(k + 1).drop_last() =~= seeds.take(k));
    assert(seeds.take(k + 1).last() == seeds[k]);
}

/// Seeds that had an entry still have one after an entry is appended.
proof fn lemma_all_found_kept<S>(before: Seq<ServiceSnapshot<S>>, e: ServiceSnapshot<S>, seeds: Seq<(String, S)>, k: int)
    requires
        0 <= k <= seeds.len(),
        forall|i: int| 0 <= i < k ==> first_index_of(before, #[trigger] seeds[i].0@) is Some,
    ensures
        forall|i: int| 0 <= i < k ==> first_index_of(before.push(e), #[trigger] seeds[i].0@) is Some,
{
    assert forall|i: int| 0 <= i < k implies first_index_of(before.push(e), #[trigger] seeds[i].0@) is Some by {
        lemma_first_index_kept(before, e, seeds[i].0@);
    }
}

/// Appending an idle entry without process to a registry that extends
/// `start` by `added` extends `start` by `added` and that entry.
proof fn lemma_extension_step<S>(
    start: Seq<ServiceSnapshot<S>>,
    entries: Seq<ServiceSnapshot<S>>,
    added: Seq<(Seq<char>, S)>,
    e: ServiceSnapshot<S>,
)
    requires
        extended_with_idle(start, entries, added),
        e.last_state == ServiceState::Idle,
        e.last_pid is None,
    ensures
        extended_with_idle(start, entries.push(e), added.push((e.id@, e.spec))),
{
    reveal(extended_with_idle);
    let after = entries.push(e);
    let now = added.push((e.id@, e.spec));
    assert(after.take(start.len() as int) =~= start) by {
        assert forall|i: int| 0 <= i < start.len() implies after[i] == start[i] by {
            assert(entries.take(start.len() as int)[i] == entries[i]);
        }
    }
    assert forall|j: int| 0 <= j < now.len() implies {
        &&& after[start.len() + j].id@ == (#[trigger] now[j]).0
        &&& after[start.len() + j].spec == now[j].1
        &&& after[start.len() + j].last_state == ServiceState::Idle
        &&& after[start.len() + j].last_pid is None
    } by {
        if j < added.len() {
            assert(now[j] == added[j]);
            assert(after[start.len() + j] == entries[start.len() + j]);
        }
    }
}

/// In a registry that extends `start` by `added`, an id has an entry
/// exactly when it is one of the ids of `start` or of `added`.
proof fn lemma_found_in_extension<S>(
    start: Seq<ServiceSnapshot<S>>,
    entries: Seq<ServiceSnapshot<S>>,
    added: Seq<(Seq<char>, S)>,
    id: Seq<char>,
)
    requires
        extended_with_idle(start, entries, added),
    ensures
        (first_index_of(entries, id) is Some) <==> (entry_ids(start).contains(id) || added_ids(added).contains(id)),
{
    reveal(extended_with_idle);
    if exists|i: int| 0 <= i < entries.len() && entries[i].id@ == id {
        let i = choose|i: int| 0 <= i < entries.len() && entries[i].id@ == id;
        if i < start.len() {
            assert(entries.take(start.len() as int)[i] == entries[i]);
            assert(entry_ids(start)[i] == id);
        } else {
            let j = i - start.len();
            assert(added[j] == added[j]);
            assert(added_ids(added)[j] == id);
        }
    }
    if entry_ids(start).contains(id) {
        let i = choose|i: int| 0 <= i < entry_ids(start).len() && entry_ids(start)[i] == id;
        assert(entries.take(start.len() as int)[i] == entries[i]);
        assert(entries[i].id@ == id);
    }
    if added_ids(added).contains(id) {
        let j = choose|j: int| 0 <= j < added_ids(added).len() && added_ids(added)[j] == id;
        assert(added[j] == added[j]);
        assert(entries[start.len() + j].id@ == id);
    }
}

/// An id found in `entries` is still found after another entry is appended.
proof fn lemma_first_index_kept<S>(entries: Seq<ServiceSnapshot<S>>, e: ServiceSnapshot<S>, id: Seq<char>)
    requires
        first_index_of(entries, id) is Some,
    ensures
        first_index_of(entries.push(e), id) is Some,
{
    let i = choose|i: int| 0 <= i < entries.len() && entries[i].id@ == id;
    assert(entries.push(e)[i] == entries[i]);
}

/// Once a service is seeded it is found, so seeding it again changes nothing.
pub proof fn lemma_seeded_service_found<S>(entries: Seq<ServiceSnapshot<S>>, e: ServiceSnapshot<S>)
    ensures
        first_index_of(entries.push(e), e.id@) is Some,
{
    let p = entries.push(e);
    assert(p[entries.len() as int].id@ == e.id@);
    let j = lemma_first_index_exists(p, e.id@, entries.len() as int);
}

proof fn lemma_first_index_exists<S>(entries: Seq<ServiceSnapshot<S>>, id: Seq<char>, i: int) -> (j: int)
    requires
        0 <= i < entries.len(),
        entries[i].id@ == id,
    ensures
        0 <= j <= i,
        entries[j].id@ == id,
        forall|k: int| 0 <= k < j ==> entries[k].id@ != id,
    decreases i,
{
    if exists|k: int| 0 <= k < i && entries[k].id@ == id {
        let k = choose|k: int| 0 <= k < i && entries[k].id@ == id;
        lemma_first_index_exists(entries, id, k)
    } else {
        i
    }
}

/// The first entry for a service is found at its position.
proof fn lemma_first_index_is<S>(entries: Seq<ServiceSnapshot<S>>, id: Seq<char>, i: int)
    requires
        0 <= i < entries.len(),
        entries[i].id@ == id,
        forall|k: int| 0 <= k < i ==> entries[k].id@ != id,
    ensures
        first_index_of(entries, id) == Some(i),
{
    let j = first_index_of(entries, id)->0;
    assert(0 <= j < entries.len() && entries[j].id@ == id && forall|k: int| 0 <= k < j ==> entries[k].id@ != id);
    if j < i {
        assert(entries[j].id@ != id);
    }
    if j > i {
        assert(entries[i].id@ != id);
    }
}

/// An update for a service records its news in the first entry of that
/// service and leaves every other entry as it was: a state change sets the
/// state to the new one, whatever it is, a started process sets the process
/// id, an exit clears it; the id, specification and the other field stay.
pub proof fn lemma_update_recorded_in_first_entry<S>(entries: Seq<ServiceSnapshot<S>>, update: SnapshotUpdate, i: int)
    requires
        0 <= i < entries.len(),
        entries[i].id@ == (match update {
            SnapshotUpdate::StateChanged { service_id, .. } => service_id@,
            SnapshotUpdate::ProcessStarted { service_id, .. } => service_id@,
            SnapshotUpdate::ProcessExited { service_id } => service_id@,
        }),
        forall|k: int| 0 <= k < i ==> entries[k].id@ != entries[i].id@,
    ensures
        updated_entries(entries, update).len() == entries.len(),
        forall|k: int| 0 <= k < entries.len() && k != i ==> #[trigger] updated_entries(entries, update)[k] == entries[k],
        updated_entries(entries, update)[i].id == entries[i].id,
        updated_entries(entries, update)[i].spec == entries[i].spec,
        update matches SnapshotUpdate::StateChanged { to_state, .. } ==> updated_entries(entries, update)[i].last_state
            == to_state && updated_entries(entries, update)[i].last_pid == entries[i].last_pid,
        update matches SnapshotUpdate::ProcessStarted { pid, .. } ==> updated_entries(entries, update)[i].last_pid
            == Some(pid) && updated_entries(entries, update)[i].last_state == entries[i].last_state,
        update is ProcessExited ==> updated_entries(entries, update)[i].last_pid is None
            && updated_entries(entries, update)[i].last_state == entries[i].last_state,
{
    lemma_first_index_is(entries, entries[i].id@, i);
}

/// An update changes no entry of another service and keeps the number of entries.
pub proof fn lemma_update_touches_only_its_service<S>(entries: Seq<ServiceSnapshot<S>>, update: SnapshotUpdate, i: int)
    requires
        0 <= i < entries.len(),
        entries[i].id@ != (match update {
            SnapshotUpdate::StateChanged { service_id, .. } => service_id@,
            SnapshotUpdate::ProcessStarted { service_id, .. } => service_id@,
            SnapshotUpdate::ProcessExited { service_id } => service_id@,
        }),
    ensures
        updated_entries(entries, update).len() == entries.len(),
        updated_entries(entries, update)[i] == entries[i],
{
    let id = match update {
        SnapshotUpdate::StateChanged { service_id, .. } => service_id@,
        SnapshotUpdate::ProcessStarted { service_id, .. } => service_id@,
        SnapshotUpdate::ProcessExited { service_id } => service_id@,
    };
    if exists|k: int| 0 <= k < entries.len() && entries[k].id@ == id {
        let k = choose|k: int| 0 <= k < entries.len() && entries[k].id@ == id;
        let m = lemma_first_index_exists(entries, id, k);
        let j = first_index_of(entries, id)->0;
        assert(0 <= j < entries.len() && entries[j].id@ == id);
        assert(j != i);
    }
}

/// Accept a loaded snapshot only in the current format version.
pub fn check_snapshot_version<S>(snap: RegistrySnapshot<S>) -> (r: Result<RegistrySnapshot<S>, CoreError>)
    ensures
        snap.version == SNAPSHOT_VERSION ==> r == Ok::<RegistrySnapshot<S>, CoreError>(snap),
        snap.version != SNAPSHOT_VERSION ==> (r matches Err(CoreError::ValidationError(m))
            && m@ == "Unsupported snapshot version "@ + decimal(snap.version as nat) + " (expected 1)"@),
{
    if snap.version != SNAPSHOT_VERSION {
        let v = u64_to_decimal(snap.version as u64);
        return Err(CoreError::ValidationError(concat3("Unsupported snapshot version ", v.as_str(), " (expected 1)")));
    }
    Ok(snap)
}

/// Services restored at daemon start are started again only when their
/// policy is to restart always.
pub fn auto_start_on_recovery(policy: RestartPolicy) -> (b: bool)
    ensures
        b == (policy == RestartPolicy::Always),
{
    policy == RestartPolicy::Always
}

} // verus!
