use vstd::prelude::*;

use crate::addressing::DistributorError;
use crate::text::{chars_of, string_from_chars};

verus! {

// ---------------------------------------------------------------------------
// Hostname cleaning
// ---------------------------------------------------------------------------
/// Length of `s` once its trailing dots are gone.
pub open spec fn trimmed_len(s: Seq<char>, n: int) -> int
    decreases n,
{
    if n <= 0 {
        0
    } else if s[n - 1] == '.' {
        trimmed_len(s, n - 1)
    } else {
        n
    }
}

/// `s` without its trailing dots.
pub open spec fn trim_dots(s: Seq<char>) -> Seq<char> {
    s.take(trimmed_len(s, s.len() as int))
}

/// The label that marks a cache-busting first label.
pub open spec fn random_prefix() -> Seq<char> {
    seq!['r', 'a', 'n', 'd', 'o', 'm', '-']
}

/// Index of the first `.` of `s` at or after `i`, or `s.len()`.
pub open spec fn dot_index_from(s: Seq<char>, i: int) -> int
    decreases s.len() - i,
{
    if i >= s.len() {
        s.len() as int
    } else if s[i] == '.' {
        i
    } else {
        dot_index_from(s, i + 1)
    }
}

/// The hostname used for registration and lookup: trailing dots dropped, and
/// a first label of the form `random-*` dropped with its dot (nothing is left
/// when there is no further label).
pub open spec fn clean_hostname(h: Seq<char>) -> Seq<char> {
    let t = trim_dots(h);
    if t.len() >= 7 && t.take(7) == random_prefix() {
        let d = dot_index_from(t, 0);
        if d < t.len() {
            t.skip(d + 1)
        } else {
            Seq::empty()
        }
    } else {
        t
    }
}

/// Cleans a hostname so that DNS cache-busting prefixes do not defeat routing.
pub fn clean_up_hostname(hostname: &str) -> (r: String)
    ensures
        r@ == clean_hostname(hostname@),
{
    let chars = chars_of(hostname);
    let mut n: usize = chars.len();
    while n > 0 && chars[n - 1] == '.'
        invariant
            n <= chars@.len(),
            chars@ == hostname@,
            trimmed_len(hostname@, hostname@.len() as int) == trimmed_len(hostname@, n as int),
        decreases n,
    {
        n = n - 1;
    }
    let ghost t = trim_dots(hostname@);
    assert(t =~= chars@.take(n as int));
    let is_random = n >= 7 && chars[0] == 'r' && chars[1] == 'a' && chars[2] == 'n' && chars[3]
        == 'd' && chars[4] == 'o' && chars[5] == 'm' && chars[6] == '-';
    assert(is_random == (t.len() >= 7 && t.take(7) == random_prefix())) by {
        if t.len() >= 7 {
            if is_random {
                assert(t.take(7) =~= random_prefix());
            } else if t.take(7) == random_prefix() {
                assert(t.take(7)[0] == 'r' && t.take(7)[1] == 'a' && t.take(7)[2] == 'n');
                assert(t.take(7)[3] == 'd' && t.take(7)[4] == 'o' && t.take(7)[5] == 'm');
                assert(t.take(7)[6] == '-');
            }
        }
    }
    let mut start: usize = 0;
    if is_random {
        let mut d: usize = 0;
        while d < n && chars[d] != '.'
            invariant
                d <= n <= chars@.len(),
                t == chars@.take(n as int),
                dot_index_from(t, 0) == dot_index_from(t, d as int),
            decreases n - d,
        {
            d = d + 1;
        }
        if d < n {
            start = d + 1;
        } else {
            start = n;
        }
    }
    let mut out: Vec<char> = Vec::new();
    let mut i: usize = start;
    while i < n
        invariant
            start <= i <= n <= chars@.len(),
            out@ == chars@.subrange(start as int, i as int),
        decreases n - i,
    {
        out.push(chars[i]);
        assert(out@ =~= chars@.subrange(start as int, i + 1));
        i = i + 1;
    }
    assert(out@ =~= clean_hostname(hostname@));
    string_from_chars(&out)
}

// ---------------------------------------------------------------------------
// Registry
// ---------------------------------------------------------------------------
/// Whether `entries` holds an entry for `h`.
pub open spec fn has_host<T>(entries: Seq<(Seq<char>, T)>, h: Seq<char>) -> bool {
    exists|i: int| 0 <= i < entries.len() && (#[trigger] entries[i]).0 == h
}

/// At most one entry per hostname.
pub open spec fn unique_hosts<T>(entries: Seq<(Seq<char>, T)>) -> bool {
    forall|i: int, j: int|
        0 <= i < entries.len() && 0 <= j < entries.len() && i != j ==> (#[trigger] entries[i]).0
            != (#[trigger] entries[j]).0
}

/// The registry of connected proxy-clients: each cleaned hostname maps to the
/// inbox of the one session that owns it.
pub struct Register<T> {
    servers: Vec<(String, T)>,
    client_count: usize,
}

impl<T> Register<T> {
    /// The entries, in order of registration.
    pub closed spec fn entries(&self) -> Seq<(Seq<char>, T)> {
        self.servers@.map_values(|e: (String, T)| (e.0@, e.1))
    }

    /// Number of external clients currently connected.
    pub closed spec fn clients(&self) -> nat {
        self.client_count as nat
    }

    /// The registry's invariant: one owner per hostname.
    pub open spec fn wf(&self) -> bool {
        unique_hosts(self.entries())
    }

    /// An empty registry.
    pub fn new() -> (r: Self)
        ensures
            r.wf(),
            r.entries() == Seq::<(Seq<char>, T)>::empty(),
            r.clients() == 0,
    {
        let r = Register { servers: Vec::new(), client_count: 0 };
        assert(r.entries() =~= Seq::<(Seq<char>, T)>::empty());
        r
    }

    fn find(&self, hostname: &str) -> (r: Option<usize>)
        ensures
            r is Some <==> has_host(self.entries(), hostname@),
            r matches Some(i) ==> i < self.entries().len() && self.entries()[i as int].0
                == hostname@,
    {
        let target = String::from_str(hostname);
        let mut i: usize = 0;
        while i < self.servers.len()
            invariant
                i <= self.servers@.len(),
                target@ == hostname@,
                forall|k: int| 0 <= k < i ==> (#[trigger] self.entries()[k]).0 != hostname@,
            decreases self.servers@.len() - i,
        {
            if self.servers[i].0 == target {
                assert(self.entries()[i as int].0 == hostname@);
                return Some(i);
            }
            i = i + 1;
        }
        None
    }

    /// The inbox of the session that owns `hostname`, if any.
    pub fn get_server(&self, hostname: &str) -> (r: Option<&T>)
        requires
            self.wf(),
        ensures
            r is Some <==> has_host(self.entries(), hostname@),
            r matches Some(t) ==> exists|i: int|
                0 <= i < self.entries().len() && self.entries()[i] == (hostname@, *t),
    {
        match self.find(hostname) {
            Some(i) => Some(&self.servers[i].1),
            None => None,
        }
    }

    /// Registers `tx` as the owner of `hostname`; refused while another
    /// session owns it.
    pub fn add_server(&mut self, hostname: &str, tx: T) -> (r: Result<(), DistributorError>)
        requires
            old(self).wf(),
        ensures
            final(self).wf(),
            final(self).clients() == old(self).clients(),
            r is Ok <==> !has_host(old(self).entries(), hostname@),
            r is Ok ==> final(self).entries() == old(self).entries().push((hostname@, tx)),
            r matches Err(e) ==> e == DistributorError::ServerAlreadyConnected
                && final(self).entries() == old(self).entries(),
    {
        if self.find(hostname).is_some() {
            return Err(DistributorError::ServerAlreadyConnected);
        }
        let name = String::from_str(hostname);
        self.servers.push((name, tx));
        assert(self.entries() =~= old(self).entries().push((hostname@, tx)));
        Ok(())
    }

    /// Removes the entry of `hostname`, if there is one.
    pub fn remove_server(&mut self, hostname: &str)
        requires
            old(self).wf(),
        ensures
            final(self).wf(),
            final(self).clients() == old(self).clients(),
            !has_host(final(self).entries(), hostname@),
            forall|e: (Seq<char>, T)|
                e.0 != hostname@ ==> (final(self).entries().contains(e) <==> old(
                    self,
                ).entries().contains(e)),
    {
        if let Some(i) = self.find(hostname) {
            let ghost before = self.entries();
            self.servers.remove(i);
            let ghost after = self.entries();
            assert(after =~= before.remove(i as int));
            assert forall|e: (Seq<char>, T)| e.0 != hostname@ implies (after.contains(e)
                <==> before.contains(e)) by {
                if before.contains(e) {
                    let k = choose|k: int| 0 <= k < before.len() && before[k] == e;
                    assert(k != i);
                    if k < i {
                        assert(after[k] == e);
                    } else {
                        assert(after[k - 1] == e);
                    }
                }
            }
            assert forall|k: int| 0 <= k < after.len() implies (#[trigger] after[k]).0
                != hostname@ by {
                if k < i {
                    assert(before[k] == after[k]);
                } else {
                    assert(before[k + 1] == after[k]);
                }
            }
        }
    }

    /// Number of registered sessions.
    pub fn get_server_count(&self) -> (r: usize)
        ensures
            r == self.entries().len(),
    {
        self.servers.len()
    }

    /// Counts one more external client.
    pub fn add_client(&mut self)
        ensures
            final(self).entries() == old(self).entries(),
            final(self).clients() == if old(self).clients() < usize::MAX {
                old(self).clients() + 1
            } else {
                old(self).clients()
            },
    {
        self.client_count = self.client_count.saturating_add(1);
    }

    /// Counts one external client less.
    pub fn remove_client(&mut self)
        ensures
            final(self).entries() == old(self).entries(),
            final(self).clients() == if old(self).clients() > 0 {
                old(self).clients() - 1
            } else {
                0
            },
    {
        self.client_count = self.client_count.saturating_sub(1);
    }

    /// Number of external clients currently connected.
    pub fn get_client_count(&self) -> (r: usize)
        ensures
            r == self.clients(),
    {
        self.client_count
    }
}

/// Single owner: registering a free hostname leaves exactly one entry for it,
/// so a second registration of that hostname is refused (`add_server`
/// succeeds exactly when the hostname has no entry); of two registrations of
/// one free hostname exactly the first succeeds.
pub proof fn registration_is_exclusive<T>(entries: Seq<(Seq<char>, T)>, h: Seq<char>, a: T)
    requires
        unique_hosts(entries),
        !has_host(entries, h),
    ensures
        has_host(entries.push((h, a)), h),
        unique_hosts(entries.push((h, a))),
{
    let e2 = entries.push((h, a));
    assert(e2[entries.len() as int].0 == h);
    assert forall|i: int, j: int|
        0 <= i < e2.len() && 0 <= j < e2.len() && i != j implies (#[trigger] e2[i]).0 != (
        #[trigger] e2[j]).0 by {
        if i < entries.len() && j < entries.len() {
            assert(e2[i] == entries[i] && e2[j] == entries[j]);
        } else if i < entries.len() {
            assert(e2[i] == entries[i]);
        } else if j < entries.len() {
            assert(e2[j] == entries[j]);
        }
    }
}

} // verus!
