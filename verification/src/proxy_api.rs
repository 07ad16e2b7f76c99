//! Proxy attach/detach interface, a recording implementation of it, and
//! the operations a reverse proxy is asked to perform.
//!
//! Attaching and detaching are idempotent: repeating an operation with the
//! same arguments leaves the set of attached hosts as one call does.

use vstd::prelude::*;
use crate::error::CoreError;
use crate::text::{owned, str_eq};

verus! {

/// Interface for proxy operations.
pub trait ProxyApi {
    /// Attach a proxy for `host` forwarding to `port`; succeeds when the
    /// host is already attached.
    fn attach(&mut self, host: &str, port: u16) -> Result<(), CoreError>;

    /// Detach the proxy for `host`; succeeds when the host is not attached.
    fn detach(&mut self, host: &str) -> Result<(), CoreError>;
}

/// Log entry for a recorded proxy call.
#[derive(Debug, PartialEq, Eq)]
pub enum CallLog {
    /// An attach operation was called.
    Attach {
        /// The host that was attached.
        host: String,
        /// The port that was attached.
        port: u16,
    },
    /// A detach operation was called.
    Detach {
        /// The host that was detached.
        host: String,
    },
}

impl Clone for CallLog {
    fn clone(&self) -> (c: Self)
        ensures
            c == *self,
    {
        match self {
            CallLog::Attach { host, port } => CallLog::Attach { host: host.clone(), port: *port },
            CallLog::Detach { host } => CallLog::Detach { host: host.clone() },
        }
    }
}

/// An operation requested from a reverse proxy.
#[derive(Debug, Clone, PartialEq, Eq)]
pub enum ProxyOp {
    /// Attach a host to the given backend port.
    Attach {
        /// Hostname to register in the proxy.
        host: String,
        /// Backend port to route traffic to.
        port: u16,
    },
    /// Detach a host from the proxy.
    Detach {
        /// Hostname to remove from the proxy.
        host: String,
    },
}

/// The set of character sequences held by `v`.
pub open spec fn view_set(v: Seq<String>) -> Set<Seq<char>> {
    Set::new(|s: Seq<char>| exists|i: int| 0 <= i < v.len() && v[i]@ == s)
}

/// The hosts attached after the calls `calls`, made in order on a proxy
/// with nothing attached: an attach adds its host, a detach removes it.
pub open spec fn attached_after(calls: Seq<CallLog>) -> Set<Seq<char>>
    decreases calls.len(),
{
    if calls.len() == 0 {
        Set::empty()
    } else {
        let before = attached_after(calls.drop_last());
        match calls.last() {
            CallLog::Attach { host, .. } => before.insert(host@),
            CallLog::Detach { host } => before.remove(host@),
        }
    }
}

/// A proxy that performs no proxying and records every call made to it.
#[derive(Debug)]
pub struct NullProxy {
    calls: Vec<CallLog>,
    attachments: Vec<String>,
}

impl NullProxy {
    #[verifier::type_invariant]
    spec fn attachments_follow_calls(self) -> bool {
        &&& forall|i: int, j: int|
            0 <= i < j < self.attachments@.len() ==> self.attachments@[i]@ != self.attachments@[j]@
        &&& view_set(self.attachments@) == attached_after(self.calls@)
    }

    /// Every call recorded so far, oldest first.
    pub closed spec fn calls(&self) -> Seq<CallLog> {
        self.calls@
    }

    /// The hosts currently attached.
    pub closed spec fn attached(&self) -> Set<Seq<char>> {
        view_set(self.attachments@)
    }

    /// Create a proxy with no calls recorded and nothing attached.
    pub fn new() -> (p: Self)
        ensures
            p.calls() == Seq::<CallLog>::empty(),
            p.attached() == Set::<Seq<char>>::empty(),
            p.attached() == attached_after(p.calls()),
    {
        assert(view_set(Seq::<String>::empty()) =~= Set::<Seq<char>>::empty());
        NullProxy { calls: Vec::new(), attachments: Vec::new() }
    }

    /// A copy of all recorded calls.
    pub fn get_calls(&self) -> (v: Vec<CallLog>)
        ensures
            v@ == self.calls(),
    {
        let mut v: Vec<CallLog> = Vec::new();
        let mut i: usize = 0;
        while i < self.calls.len()
            invariant
                i <= self.calls@.len(),
                v@ == self.calls@.take(i as int),
            decreases self.calls@.len() - i,
        {
            v.push(self.calls[i].clone());
            assert(self.calls@.take(i as int + 1) =~= self.calls@.take(i as int).push(self.calls@[i as int]));
            i = i + 1;
        }
        assert(self.calls@.take(i as int) =~= self.calls@);
        v
    }

    /// The number of recorded calls.
    pub fn call_count(&self) -> (n: usize)
        ensures
            n == self.calls().len(),
    {
        self.calls.len()
    }

    /// Clear all recorded calls and attachments.
    pub fn reset(&mut self)
        ensures
            final(self).calls() == Seq::<CallLog>::empty(),
            final(self).attached() == Set::<Seq<char>>::empty(),
            final(self).attached() == attached_after(final(self).calls()),
    {
        *self = NullProxy::new();
    }

    /// Take the fields out, leaving an empty proxy behind.
    fn take_parts(&mut self) -> (parts: (Vec<CallLog>, Vec<String>))
        ensures
            parts.0@ == old(self).calls(),
            view_set(parts.1@) == old(self).attached(),
            view_set(parts.1@) == attached_after(parts.0@),
            forall|i: int, j: int| 0 <= i < j < parts.1@.len() ==> parts.1@[i]@ != parts.1@[j]@,
    {
        proof { use_type_invariant(&*self); }
        let mut cur = NullProxy::new();
        std::mem::swap(&mut cur, self);
        proof { use_type_invariant(&cur); }
        let NullProxy { calls, attachments } = cur;
        (calls, attachments)
    }

    /// Whether `host` is currently attached.
    pub fn is_attached(&self, host: &str) -> (b: bool)
        ensures
            b == self.attached().contains(host@),
            b <==> exists|i: int| attach_not_undone(self.calls(), host@, i),
    {
        proof {
            use_type_invariant(self);
            lemma_attached_iff_last_attach_stands(self.calls(), host@);
            assert(self.attached() == attached_after(self.calls()));
        }
        find_attachment(&self.attachments, host).is_some()
    }

    /// All currently attached hosts, each once.
    pub fn get_attachments(&self) -> (v: Vec<String>)
        ensures
            view_set(v@) == self.attached(),
            v@.len() == self.attached().len(),
            forall|i: int, j: int| 0 <= i < j < v@.len() ==> v@[i]@ != v@[j]@,
    {
        proof { use_type_invariant(self); }
        let v = self.attachments.clone();
        proof { lemma_distinct_len(v@); }
        v
    }
}

/// Position of `host` among `attachments`, if it is there.
fn find_attachment(attachments: &Vec<String>, host: &str) -> (r: Option<usize>)
    ensures
        r matches Some(i) ==> i < attachments@.len() && attachments@[i as int]@ == host@,
        r is None ==> !view_set(attachments@).contains(host@),
{
    let mut i: usize = 0;
    while i < attachments.len()
        invariant
            i <= attachments@.len(),
            forall|k: int| 0 <= k < i ==> attachments@[k]@ != host@,
        decreases attachments@.len() - i,
    {
        if str_eq(attachments[i].as_str(), host) {
            return Some(i);
        }
        i = i + 1;
    }
    None
}

impl ProxyApi for NullProxy {
    fn attach(&mut self, host: &str, port: u16) -> (r: Result<(), CoreError>)
        ensures
            r is Ok,
            final(self).calls().len() == old(self).calls().len() + 1,
            final(self).calls().take(old(self).calls().len() as int) == old(self).calls(),
            final(self).calls().last() matches CallLog::Attach { host: h, port: p } && h@ == host@ && p == port,
            final(self).attached() == old(self).attached().insert(host@),
            final(self).attached() == attached_after(final(self).calls()),
    {
        let (mut calls, mut attachments) = self.take_parts();
        let ghost before_calls = calls@;
        calls.push(CallLog::Attach { host: owned(host), port });
        proof {
            assert(calls@.drop_last() =~= before_calls);
            assert(calls@.take(before_calls.len() as int) =~= before_calls);
        }
        match find_attachment(&attachments, host) {
            None => {
                let ghost before = attachments@;
                attachments.push(owned(host));
                proof { lemma_view_set_push(before, attachments@); }
            },
            Some(i) => {
                assert(view_set(attachments@) =~= view_set(attachments@).insert(host@));
            },
        }
        *self = NullProxy { calls, attachments };
        proof { use_type_invariant(&*self); }
        Ok(())
    }

    fn detach(&mut self, host: &str) -> (r: Result<(), CoreError>)
        ensures
            r is Ok,
            final(self).calls().len() == old(self).calls().len() + 1,
            final(self).calls().take(old(self).calls().len() as int) == old(self).calls(),
            final(self).calls().last() matches CallLog::Detach { host: h } && h@ == host@,
            final(self).attached() == old(self).attached().remove(host@),
            final(self).attached() == attached_after(final(self).calls()),
    {
        let (mut calls, mut attachments) = self.take_parts();
        let ghost before_calls = calls@;
        let ghost old_set = view_set(attachments@);
        calls.push(CallLog::Detach { host: owned(host) });
        proof {
            assert(calls@.drop_last() =~= before_calls);
            assert(calls@.take(before_calls.len() as int) =~= before_calls);
        }
        match find_attachment(&attachments, host) {
            Some(i) => {
                let ghost before = attachments@;
                attachments.remove(i);
                proof { lemma_view_set_remove(before, attachments@, i as int, host@); }
            },
            None => {
                assert(view_set(attachments@) =~= view_set(attachments@).remove(host@));
            },
        }
        *self = NullProxy { calls, attachments };
        proof { use_type_invariant(&*self); }
        Ok(())
    }
}

/// Removing the only string with contents `host` removes `host` from the
/// set of contents.
proof fn lemma_view_set_remove(before: Seq<String>, after: Seq<String>, i: int, host: Seq<char>)
    requires
        0 <= i < before.len(),
        before[i]@ == host,
        after == before.remove(i),
        forall|a: int, b: int| 0 <= a < b < before.len() ==> before[a]@ != before[b]@,
    ensures
        view_set(after) == view_set(before).remove(host),
        forall|a: int, b: int| 0 <= a < b < after.len() ==> after[a]@ != after[b]@,
{
    assert forall|s: Seq<char>| view_set(after).contains(s) implies view_set(before).remove(host).contains(s) by {
        let k = choose|k: int| 0 <= k < after.len() && after[k]@ == s;
        if k < i {
            assert(before[k] == after[k]);
        } else {
            assert(before[k + 1] == after[k]);
        }
    }
    assert forall|s: Seq<char>| view_set(before).remove(host).contains(s) implies view_set(after).contains(s) by {
        let k = choose|k: int| 0 <= k < before.len() && before[k]@ == s;
        if k < i {
            assert(after[k] == before[k]);
        } else {
            assert(k != i);
            assert(after[k - 1] == before[k]);
        }
    }
    assert(view_set(after) =~= view_set(before).remove(host));
    assert forall|a: int, b: int| 0 <= a < b < after.len() implies after[a]@ != after[b]@ by {
        let a0 = if a < i { a } else { a + 1 };
        let b0 = if b < i { b } else { b + 1 };
        assert(after[a] == before[a0]);
        assert(after[b] == before[b0]);
    }
}

/// Call `i` attaches `host` and no later call detaches it.
pub open spec fn attach_not_undone(calls: Seq<CallLog>, host: Seq<char>, i: int) -> bool {
    &&& 0 <= i < calls.len()
    &&& calls[i] matches CallLog::Attach { host: h, .. } && h@ == host
    &&& forall|j: int| i < j < calls.len() ==> !(#[trigger] calls[j] matches CallLog::Detach { host: d } && d@ == host)
}

/// After any history of calls, a host is attached exactly when some call
/// attached it and no later call detached it.
pub proof fn lemma_attached_iff_last_attach_stands(calls: Seq<CallLog>, host: Seq<char>)
    ensures
        attached_after(calls).contains(host) <==> exists|i: int| attach_not_undone(calls, host, i),
    decreases calls.len(),
{
    if calls.len() > 0 {
        let prev = calls.drop_last();
        let n = calls.len() - 1;
        lemma_attached_iff_last_attach_stands(prev, host);
        assert forall|i: int| 0 <= i < n && attach_not_undone(calls, host, i) implies attach_not_undone(prev, host, i) by {
            assert forall|j: int| i < j < prev.len() implies !(#[trigger] prev[j] matches CallLog::Detach { host: d } && d@ == host) by {
                assert(prev[j] == calls[j]);
            }
        }
        match calls.last() {
            CallLog::Attach { host: x, .. } => {
                if x@ == host {
                    assert(attach_not_undone(calls, host, n));
                } else {
                    if exists|i: int| attach_not_undone(prev, host, i) {
                        let i = choose|i: int| attach_not_undone(prev, host, i);
                        assert(prev[i] == calls[i]);
                        assert forall|j: int| i < j < calls.len() implies !(#[trigger] calls[j] matches CallLog::Detach { host: d } && d@ == host) by {
                            if j < n {
                                assert(prev[j] == calls[j]);
                            }
                        }
                        assert(attach_not_undone(calls, host, i));
                    }
                    if exists|i: int| attach_not_undone(calls, host, i) {
                        let i = choose|i: int| attach_not_undone(calls, host, i);
                        assert(i != n);
                    }
                }
            },
            CallLog::Detach { host: x } => {
                if x@ == host {
                    if exists|i: int| attach_not_undone(calls, host, i) {
                        let i = choose|i: int| attach_not_undone(calls, host, i);
                        assert(i != n);
                        assert(calls[n] matches CallLog::Detach { host: d } && d@ == host);
                    }
                } else {
                    if exists|i: int| attach_not_undone(prev, host, i) {
                        let i = choose|i: int| attach_not_undone(prev, host, i);
                        assert(prev[i] == calls[i]);
                        assert forall|j: int| i < j < calls.len() implies !(#[trigger] calls[j] matches CallLog::Detach { host: d } && d@ == host) by {
                            if j < n {
                                assert(prev[j] == calls[j]);
                            }
                        }
                        assert(attach_not_undone(calls, host, i));
                    }
                    if exists|i: int| attach_not_undone(calls, host, i) {
                        let i = choose|i: int| attach_not_undone(calls, host, i);
                        assert(i != n);
                    }
                }
            },
        }
    }
}

/// Repeating a call right away leaves the attached hosts as the call made
/// once does: attaching and detaching are idempotent over any history.
pub proof fn lemma_repeated_call_acts_once(calls: Seq<CallLog>, call: CallLog)
    ensures
        attached_after(calls.push(call).push(call)) == attached_after(calls.push(call)),
{
    let once = calls.push(call);
    let twice = once.push(call);
    assert(once.drop_last() =~= calls);
    assert(twice.drop_last() =~= once);
    match call {
        CallLog::Attach { host, .. } => {
            lemma_attach_idempotent(attached_after(calls), host@);
        },
        CallLog::Detach { host } => {
            lemma_detach_idempotent(attached_after(calls), host@);
        },
    }
}

/// Attaching a host that is already attached leaves the attached hosts as
/// they were: repeated attaches act as one.
pub proof fn lemma_attach_idempotent(attached: Set<Seq<char>>, host: Seq<char>)
    ensures
        attached.insert(host).insert(host) == attached.insert(host),
        attached.contains(host) ==> attached.insert(host) == attached,
{
    assert(attached.insert(host).insert(host) =~= attached.insert(host));
    if attached.contains(host) {
        assert(attached.insert(host) =~= attached);
    }
}

/// Detaching a host that is not attached changes nothing: repeated
/// detaches act as one.
pub proof fn lemma_detach_idempotent(attached: Set<Seq<char>>, host: Seq<char>)
    ensures
        attached.remove(host).remove(host) == attached.remove(host),
        !attached.contains(host) ==> attached.remove(host) == attached,
{
    assert(attached.remove(host).remove(host) =~= attached.remove(host));
    if !attached.contains(host) {
        assert(attached.remove(host) =~= attached);
    }
}

/// Detaching a host undoes attaching it: afterwards the host is not
/// attached, and a host that was not attached before leaves the set as it was.
pub proof fn lemma_detach_undoes_attach(attached: Set<Seq<char>>, host: Seq<char>)
    ensures
        !attached.insert(host).remove(host).contains(host),
        !attached.contains(host) ==> attached.insert(host).remove(host) == attached,
{
    if !attached.contains(host) {
        assert(attached.insert(host).remove(host) =~= attached);
    }
}

/// Attaching or detaching one host leaves every other host as it was.
pub proof fn lemma_other_hosts_unaffected(attached: Set<Seq<char>>, host: Seq<char>, other: Seq<char>)
    requires
        other != host,
    ensures
        attached.insert(host).contains(other) == attached.contains(other),
        attached.remove(host).contains(other) == attached.contains(other),
{
}

/// Appending a string adds its contents to the set of contents.
proof fn lemma_view_set_push(w: Seq<String>, v: Seq<String>)
    requires
        v.len() == w.len() + 1,
        forall|k: int| 0 <= k < w.len() ==> v[k] == w[k],
    ensures
        view_set(v) == view_set(w).insert(v.last()@),
{
    assert forall|s: Seq<char>| view_set(v).contains(s) implies view_set(w).insert(v.last()@).contains(s) by {
        let k = choose|k: int| 0 <= k < v.len() && v[k]@ == s;
        if k < w.len() {
            assert(w[k]@ == s);
        }
    }
    assert forall|s: Seq<char>| view_set(w).insert(v.last()@).contains(s) implies view_set(v).contains(s) by {
        if s == v.last()@ {
            assert(v[v.len() - 1]@ == s);
        } else {
            let k = choose|k: int| 0 <= k < w.len() && w[k]@ == s;
            assert(v[k]@ == s);
        }
    }
    assert(view_set(v) =~= view_set(w).insert(v.last()@));
}

/// A sequence of strings with distinct contents has as many distinct
/// contents as elements.
proof fn lemma_distinct_len(v: Seq<String>)
    requires
        forall|i: int, j: int| 0 <= i < j < v.len() ==> v[i]@ != v[j]@,
    ensures
        view_set(v).len() == v.len(),
        view_set(v).finite(),
    decreases v.len(),
{
    if v.len() == 0 {
        assert(view_set(v) =~= Set::<Seq<char>>::empty());
    } else {
        let w = v.drop_last();
        lemma_distinct_len(w);
        lemma_view_set_push(w, v);
        assert(!view_set(w).contains(v.last()@)) by {
            if view_set(w).contains(v.last()@) {
                let k = choose|k: int| 0 <= k < w.len() && w[k]@ == v.last()@;
                assert(v[k] == w[k]);
            }
        }
    }
}

} // verus!
