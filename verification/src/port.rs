//! Port allocation: the ranges ports are drawn from, the deterministic
//! order in which candidates are tried, and the in-process reservation table.

use vstd::prelude::*;
use dashmap::DashMap;
use crate::error::CoreError;

verus! {

/// Port range for automatic allocation: first port.
pub const DEFAULT_PORT_RANGE_START: u16 = 30_000;
/// Port range for automatic allocation: end of the range (exclusive).
pub const DEFAULT_PORT_RANGE_END: u16 = 60_000;
/// Maximum number of ports tried before giving up.
pub const MAX_ALLOCATION_ATTEMPTS: usize = 1000;

/// Metadata about a port reservation.
#[derive(Debug, Clone, Copy, PartialEq, Eq)]
pub struct ReservationMeta {
    /// Process id that made the reservation.
    pub pid: u32,
    /// Thread id that made the reservation.
    pub thread_id: u64,
    /// Seconds since the Unix epoch when the reservation was made.
    pub timestamp: u64,
}

/// Declares `dashmap::DashMap`, the concurrent map that holds reservations.
#[verifier::external_type_specification]
#[verifier::external_body]
#[verifier::reject_recursive_types(K)]
#[verifier::reject_recursive_types(V)]
#[verifier::reject_recursive_types(S)]
pub struct ExDashMap<K, V, S>(DashMap<K, V, S>);

/// The entries of a reservation map.
pub uninterp spec fn reservation_contents(m: DashMap<u16, ReservationMeta>) -> Map<u16, ReservationMeta>;

/// The map with no reservation.
pub open spec fn no_reservations() -> Map<u16, ReservationMeta> {
    Map::empty()
}

/// An empty map; calls `DashMap::new`.
#[verifier::external_body]
fn dashmap_new() -> (m: DashMap<u16, ReservationMeta>)
    ensures
        reservation_contents(m) == no_reservations(),
{
    DashMap::new()
}

/// Whether `port` has an entry; calls `DashMap::contains_key`.
#[verifier::external_body]
fn dashmap_contains(m: &DashMap<u16, ReservationMeta>, port: u16) -> (b: bool)
    ensures
        b == reservation_contents(*m).dom().contains(port),
{
    m.contains_key(&port)
}

/// Inserts `port -> meta`; calls `DashMap::insert`, which replaces any
/// existing entry and returns the value it held.
#[verifier::external_body]
fn dashmap_insert(m: &mut DashMap<u16, ReservationMeta>, port: u16, meta: ReservationMeta) -> (prev: Option<ReservationMeta>)
    ensures
        reservation_contents(*final(m)) == reservation_contents(*old(m)).insert(port, meta),
        prev == (if reservation_contents(*old(m)).dom().contains(port) {
            Some(reservation_contents(*old(m))[port])
        } else {
            None
        }),
{
    m.insert(port, meta)
}

/// Removes the entry for `port`; calls `DashMap::remove`, which returns the
/// removed pair if there was one.
#[verifier::external_body]
fn dashmap_remove(m: &mut DashMap<u16, ReservationMeta>, port: u16) -> (prev: Option<(u16, ReservationMeta)>)
    ensures
        reservation_contents(*final(m)) == reservation_contents(*old(m)).remove(port),
        prev == (if reservation_contents(*old(m)).dom().contains(port) {
            Some((port, reservation_contents(*old(m))[port]))
        } else {
            None
        }),
{
    m.remove(&port)
}

/// Removes every entry; calls `DashMap::clear`.
#[verifier::external_body]
fn dashmap_clear(m: &mut DashMap<u16, ReservationMeta>)
    ensures
        reservation_contents(*final(m)) == no_reservations(),
{
    m.clear()
}

/// Every entry as a pair, in the map's iteration order; walks `DashMap::iter`.
#[verifier::external_body]
fn dashmap_entries(m: &DashMap<u16, ReservationMeta>) -> (v: Vec<(u16, ReservationMeta)>)
    ensures
        forall|i: int| #![trigger v@[i]] 0 <= i < v@.len() ==> reservation_contents(*m).dom().contains(v@[i].0)
            && reservation_contents(*m)[v@[i].0] == v@[i].1,
        forall|p: u16| #[trigger] reservation_contents(*m).dom().contains(p) ==> exists|i: int|
            0 <= i < v@.len() && v@[i].0 == p,
        forall|i: int, j: int| 0 <= i < j < v@.len() ==> v@[i].0 != v@[j].0,
{
    m.iter().map(|entry| (*entry.key(), *entry.value())).collect()
}

/// Table of ports reserved by this process.
#[derive(Debug)]
pub struct ReservationTable {
    map: DashMap<u16, ReservationMeta>,
}

impl ReservationTable {
    /// The reservations, by port.
    pub closed spec fn view(&self) -> Map<u16, ReservationMeta> {
        reservation_contents(self.map)
    }

    /// A table with no reservation.
    pub fn new() -> (t: Self)
        ensures
            t.view() == no_reservations(),
    {
        ReservationTable { map: dashmap_new() }
    }

    /// Whether `port` is reserved.
    pub fn is_reserved(&self, port: u16) -> (b: bool)
        ensures
            b == self.view().dom().contains(port),
    {
        dashmap_contains(&self.map, port)
    }

    /// Reserve `port` with `meta`; fails with `PortInUse` when the port is
    /// already reserved, leaving the table unchanged.
    pub fn reserve(&mut self, port: u16, meta: ReservationMeta) -> (r: Result<(), CoreError>)
        ensures
            old(self).view().dom().contains(port) ==> (r matches Err(CoreError::PortInUse(p)) && p == port
                && final(self).view() == old(self).view()),
            !old(self).view().dom().contains(port) ==> r is Ok && final(self).view() == old(self).view().insert(port, meta),
    {
        if dashmap_contains(&self.map, port) {
            return Err(CoreError::PortInUse(port));
        }
        let _prev = dashmap_insert(&mut self.map, port, meta);
        Ok(())
    }
}

/// How binding a listener to a port went.
#[derive(Debug)]
pub enum BindOutcome {
    /// The listener is bound.
    Bound,
    /// The operating system reports the address as in use.
    AddrInUse,
    /// Binding failed for another reason.
    Failed(std::io::Error),
}

impl ReservationTable {
    /// Record the attempt to take `port` once a listener was bound to it
    /// (or not): a bound port is reserved unless another reservation got
    /// there first, an address in use is `PortInUse`, and any other bind
    /// failure is reported as an I/O error. Only a successful reservation
    /// changes the table.
    pub fn claim_bound_port(&mut self, port: u16, meta: ReservationMeta, outcome: BindOutcome) -> (r: Result<(), CoreError>)
        ensures
            outcome is Bound ==> {
                &&& old(self).view().dom().contains(port) ==> (r matches Err(CoreError::PortInUse(p)) && p == port
                    && final(self).view() == old(self).view())
                &&& !old(self).view().dom().contains(port) ==> r is Ok && final(self).view() == old(self).view().insert(
                    port,
                    meta,
                )
            },
            outcome is AddrInUse ==> (r matches Err(CoreError::PortInUse(p)) && p == port
                && final(self).view() == old(self).view()),
            outcome matches BindOutcome::Failed(e) ==> r == Err::<(), CoreError>(CoreError::IoError(e))
                && final(self).view() == old(self).view(),
    {
        match outcome {
            BindOutcome::Bound => self.reserve(port, meta),
            BindOutcome::AddrInUse => Err(CoreError::PortInUse(port)),
            BindOutcome::Failed(e) => Err(CoreError::IoError(e)),
        }
    }
}

/// What an allocation does after the attempt at candidate `index` (counting
/// from 0) of `total` candidates: `None` to go on with the next candidate;
/// otherwise the final result. A port in use moves on while candidates
/// remain and ends with `NoAvailablePort` after the last; a reserved port
/// or any other error ends the allocation.
pub fn after_attempt(index: usize, total: usize, attempt: Result<u16, CoreError>) -> (r: Option<Result<u16, CoreError>>)
    requires
        index < total,
    ensures
        attempt is Ok ==> r == Some(attempt),
        attempt matches Err(CoreError::PortInUse(_)) ==> (if index + 1 < total {
            r is None
        } else {
            r matches Some(Err(CoreError::NoAvailablePort { tried })) && tried == total
        }),
        attempt is Err && !(attempt matches Err(CoreError::PortInUse(_))) ==> r == Some(attempt),
{
    match attempt {
        Ok(p) => Some(Ok(p)),
        Err(CoreError::PortInUse(p)) => {
            if index + 1 < total {
                None
            } else {
                Some(Err(CoreError::NoAvailablePort { tried: total }))
            }
        },
        Err(e) => Some(Err(e)),
    }
}

/// Explicitly release a reserved port; releasing a port that is not
/// reserved does nothing.
pub fn release_port(table: &mut ReservationTable, port: u16)
    ensures
        final(table).view() == old(table).view().remove(port),
{
    let _removed = dashmap_remove(&mut table.map, port);
}

/// Every reservation as a `(port, meta)` pair, each port once.
pub fn get_reservations(table: &ReservationTable) -> (v: Vec<(u16, ReservationMeta)>)
    ensures
        forall|i: int| #![trigger v@[i]] 0 <= i < v@.len() ==> table.view().dom().contains(v@[i].0)
            && table.view()[v@[i].0] == v@[i].1,
        forall|p: u16| #[trigger] table.view().dom().contains(p) ==> exists|i: int|
            0 <= i < v@.len() && v@[i].0 == p,
        forall|i: int, j: int| 0 <= i < j < v@.len() ==> v@[i].0 != v@[j].0,
{
    let v = dashmap_entries(&table.map);
    proof {
        let c = reservation_contents(table.map);
        assert(table.view() == c);
        assert forall|p: u16| #[trigger] table.view().dom().contains(p) implies exists|i: int|
            0 <= i < v@.len() && v@[i].0 == p by {
            assert(c.dom().contains(p));
        }
    }
    v
}

/// Remove every reservation.
pub fn clear_reservations(table: &mut ReservationTable)
    ensures
        final(table).view() == no_reservations(),
{
    dashmap_clear(&mut table.map);
}

/// The `i`-th port of the sequence over `[start, start + size)` that begins at offset `offset`.
pub open spec fn port_at(start: u16, size: u16, offset: u16, i: int) -> u16 {
    (start + (offset + i) % (size as int)) as u16
}

/// The whole sequence of ports over a range of `size` ports starting at
/// `start`, beginning at offset `seed % size` and wrapping around.
pub open spec fn port_sequence(start: u16, size: u16, seed: u64) -> Seq<u16> {
    Seq::new(size as nat, |i: int| port_at(start, size, (seed % (size as u64)) as u16, i))
}

/// Port allocator providing deterministic port allocation over a range.
#[derive(Debug, Clone, Copy, PartialEq, Eq)]
pub struct PortAllocator {
    range_start: u16,
    range_end: u16,
}

impl PortAllocator {
    /// The range is never empty.
    #[verifier::type_invariant]
    spec fn range_nonempty(self) -> bool {
        self.range_start < self.range_end
    }

    /// First port of the range.
    pub closed spec fn start(&self) -> u16 {
        self.range_start
    }

    /// End of the range (exclusive).
    pub closed spec fn end(&self) -> u16 {
        self.range_end
    }

    /// Number of ports in the range.
    pub open spec fn size(&self) -> u16 {
        (self.end() - self.start()) as u16
    }

    /// An allocator over the default range.
    pub fn new() -> (a: Self)
        ensures
            a.start() == DEFAULT_PORT_RANGE_START,
            a.end() == DEFAULT_PORT_RANGE_END,
    {
        Self::with_range(DEFAULT_PORT_RANGE_START, DEFAULT_PORT_RANGE_END)
    }

    /// An allocator over `[start, end)`; the range must not be empty.
    pub fn with_range(start: u16, end: u16) -> (a: Self)
        requires
            start < end,
        ensures
            a.start() == start,
            a.end() == end,
    {
        PortAllocator { range_start: start, range_end: end }
    }

    /// First port of the range.
    pub fn range_start(&self) -> (s: u16)
        ensures
            s == self.start(),
            s < self.end(),
    {
        proof { use_type_invariant(self); }
        self.range_start
    }

    /// End of the range (exclusive).
    pub fn range_end(&self) -> (e: u16)
        ensures
            e == self.end(),
    {
        self.range_end
    }

    /// Every port of the range, in the order determined by `seed`: starting
    /// at offset `seed % size` and wrapping around.
    pub fn generate_port_sequence(&self, seed: u64) -> (v: Vec<u16>)
        ensures
            self.start() < self.end(),
            v@ == port_sequence(self.start(), self.size(), seed),
    {
        proof { use_type_invariant(self); }
        let size = self.range_end - self.range_start;
        let offset = (seed % (size as u64)) as u16;
        let mut v: Vec<u16> = Vec::new();
        let mut i: u16 = 0;
        while i < size
            invariant
                size == self.size(),
                size > 0,
                offset == (seed % (size as u64)) as u16,
                offset < size,
                i <= size,
                self.start() < self.end(),
                v@ =~= port_sequence(self.start(), size, seed).take(i as int),
            decreases size - i,
        {
            v.push(Self::port_at_exec(self.range_start, size, offset, i));
            i = i + 1;
        }
        v
    }

    fn port_at_exec(start: u16, size: u16, offset: u16, i: u16) -> (p: u16)
        requires
            offset < size,
            i < size,
            start as int + size as int <= u16::MAX as int,
        ensures
            p == port_at(start, size, offset, i as int),
    {
        let sum = (offset as u32) + (i as u32);
        let rem = (sum % (size as u32)) as u16;
        start + rem
    }

    /// The ports tried when reserving, in order: the preferred port, if
    /// any, then the range in seed order, at most `MAX_ALLOCATION_ATTEMPTS`
    /// ports in all.
    pub fn candidate_ports(&self, preferred: Option<u16>, seed: u64) -> (v: Vec<u16>)
        ensures
            self.start() < self.end(),
            v@ == candidate_sequence(preferred, port_sequence(self.start(), self.size(), seed)),
            v@.len() <= MAX_ALLOCATION_ATTEMPTS,
    {
        let mut v: Vec<u16> = Vec::new();
        let mut attempts: usize = 0;
        if let Some(p) = preferred {
            v.push(p);
            attempts = 1;
        }
        let seq = self.generate_port_sequence(seed);
        let ghost head = v@;
        let mut i: usize = 0;
        while i < seq.len()
            invariant
                seq@ == port_sequence(self.start(), self.size(), seed),
                i <= seq@.len(),
                attempts == head.len() + i,
                head.len() <= 1,
                head == (match preferred { Some(p) => seq![p], None => Seq::<u16>::empty() }),
                v@ == head + seq@.take(i as int),
                attempts <= MAX_ALLOCATION_ATTEMPTS,
            ensures
                i == seq@.len() || attempts >= MAX_ALLOCATION_ATTEMPTS,
                v@ == head + seq@.take(i as int),
                attempts == head.len() + i,
                i <= seq@.len(),
            decreases seq@.len() - i,
        {
            if attempts >= MAX_ALLOCATION_ATTEMPTS {
                break;
            }
            v.push(seq[i]);
            assert(seq@.take(i as int + 1) =~= seq@.take(i as int).push(seq@[i as int]));
            attempts = attempts + 1;
            i = i + 1;
        }
        proof {
            let avail = (MAX_ALLOCATION_ATTEMPTS - head.len()) as int;
            if i == seq@.len() {
                assert(seq@.take(i as int) =~= seq@.take(if seq@.len() <= avail { seq@.len() as int } else { avail }));
            } else {
                assert(i as int == avail);
            }
        }
        v
    }

    /// A seed mixing the process id and thread id, so that each process and
    /// thread walks the range in its own order.
    pub fn calculate_deterministic_seed(pid: u32, thread_id: u64) -> (s: u64)
        ensures
            s as int == (pid as int * 31 + thread_id as int) % 0x1_0000_0000_0000_0000,
    {
        let m = (pid as u64).wrapping_mul(31);
        let r = m.wrapping_add(thread_id);
        proof {
            let big: int = 0x1_0000_0000_0000_0000;
            let p: int = pid as int * 31;
            assert(m as int == p);
            if p + thread_id as int >= big {
                vstd::arithmetic::div_mod::lemma_fundamental_div_mod_converse(
                    p + thread_id as int, big, 1, p + thread_id as int - big);
            } else {
                vstd::arithmetic::div_mod::lemma_small_mod((p + thread_id as int) as nat, big as nat);
            }
        }
        r
    }
}

/// The sequence of a range visits every port of the range exactly once.
pub proof fn lemma_sequence_covers_range(start: u16, end: u16, seed: u64)
    requires
        start < end,
    ensures
        ({
            let s = port_sequence(start, (end - start) as u16, seed);
            &&& s.len() == end - start
            &&& forall|i: int| 0 <= i < s.len() ==> start <= #[trigger] s[i] < end
            &&& forall|i: int, j: int| 0 <= i < j < s.len() ==> s[i] != s[j]
            &&& forall|p: u16| start <= p < end ==> #[trigger] s.contains(p)
        }),
{
    let size = (end - start) as u16;
    let off = (seed % (size as u64)) as u16;
    let s = port_sequence(start, size, seed);
    assert forall|i: int| 0 <= i < s.len() implies start <= #[trigger] s[i] < end by {
        vstd::arithmetic::div_mod::lemma_mod_bound(off + i, size as int);
    }
    assert forall|i: int, j: int| 0 <= i < j < s.len() implies s[i] != s[j] by {
        vstd::arithmetic::div_mod::lemma_mod_bound(off + i, size as int);
        vstd::arithmetic::div_mod::lemma_mod_bound(off + j, size as int);
        if (off + i) % (size as int) == (off + j) % (size as int) {
            vstd::arithmetic::div_mod::lemma_fundamental_div_mod(off + i, size as int);
            vstd::arithmetic::div_mod::lemma_fundamental_div_mod(off + j, size as int);
            let qi = (off + i) / (size as int);
            let qj = (off + j) / (size as int);
            assert(j - i == (qj - qi) * size) by (nonlinear_arith)
                requires
                    off + i == size * qi + (off + i) % (size as int),
                    off + j == size * qj + (off + j) % (size as int),
                    (off + i) % (size as int) == (off + j) % (size as int);
            assert(false) by (nonlinear_arith)
                requires
                    j - i == (qj - qi) * size,
                    0 < j - i < size;
        }
    }
    assert forall|p: u16| start <= p < end implies #[trigger] s.contains(p) by {
        let d: int = p - start;
        let i: int = if d >= off { d - off } else { d - off + size };
        assert(0 <= i < size);
        if d >= off {
            vstd::arithmetic::div_mod::lemma_small_mod(d as nat, size as nat);
        } else {
            vstd::arithmetic::div_mod::lemma_fundamental_div_mod_converse(d + size, size as int, 1, d);
        }
        assert((off + i) % (size as int) == d);
        assert(s[i] == p);
    }
}

/// Releasing a port undoes reserving it: a port that was free before is
/// free again and every other reservation is as it was.
pub proof fn lemma_release_undoes_reserve(m: Map<u16, ReservationMeta>, port: u16, meta: ReservationMeta)
    requires
        !m.dom().contains(port),
    ensures
        m.insert(port, meta).remove(port) == m,
{
    assert(m.insert(port, meta).remove(port) =~= m);
}

/// A reservation only ever tries the preferred port or ports of the
/// allocator's range, each port of the range at most once.
pub proof fn lemma_candidates_in_range(start: u16, end: u16, preferred: Option<u16>, seed: u64)
    requires
        start < end,
    ensures
        ({
            let c = candidate_sequence(preferred, port_sequence(start, (end - start) as u16, seed));
            &&& forall|i: int| 0 <= i < c.len() ==> preferred == Some(#[trigger] c[i]) || start <= c[i] < end
            &&& forall|i: int, j: int| 0 <= i < j < c.len() && preferred != Some(c[i]) ==> #[trigger] c[i] != #[trigger] c[j]
        }),
{
    lemma_sequence_covers_range(start, end, seed);
    let s = port_sequence(start, (end - start) as u16, seed);
    let head = match preferred {
        Some(p) => seq![p],
        None => Seq::<u16>::empty(),
    };
    let avail = MAX_ALLOCATION_ATTEMPTS - head.len();
    let tail = s.take(if s.len() <= avail { s.len() as int } else { avail });
    let c = candidate_sequence(preferred, s);
    assert(c == head + tail);
    assert forall|i: int| 0 <= i < c.len() implies preferred == Some(#[trigger] c[i]) || start <= c[i] < end by {
        if i >= head.len() {
            assert(c[i] == s[i - head.len()]);
        }
    }
    assert forall|i: int, j: int| 0 <= i < j < c.len() && preferred != Some(c[i]) implies #[trigger] c[i] != #[trigger] c[j] by {
        if i >= head.len() {
            assert(c[i] == s[i - head.len()]);
            assert(c[j] == s[j - head.len()]);
        }
    }
}

/// The preferred port, if any, followed by as much of `seq` as fits in the
/// attempt budget.
pub open spec fn candidate_sequence(preferred: Option<u16>, seq: Seq<u16>) -> Seq<u16> {
    let head = match preferred {
        Some(p) => seq![p],
        None => Seq::<u16>::empty(),
    };
    let avail = MAX_ALLOCATION_ATTEMPTS - head.len();
    head + seq.take(if seq.len() <= avail { seq.len() as int } else { avail })
}

} // verus!
