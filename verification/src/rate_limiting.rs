//! Request rate limiting and concurrent-connection limiting, per client
//! address.
//!
//! The rate limiter counts requests in a sliding one-minute window, counts
//! rejected requests as failed attempts, and locks a client out for a fixed
//! period once it collects too many failures.  The connection limiter caps
//! how many simultaneous connections one address may hold.

use vstd::prelude::*;
use crate::text::str_eq;
use crate::trusted::now_millis;

verus! {

/// Why a request was refused.
#[derive(Clone, Copy, Debug, PartialEq, Eq, Structural)]
pub enum RateLimitError {
    TooManyRequests,
}

/// One client's request bookkeeping.
struct ClientRecord {
    ip: String,
    count: u32,
    window_start: u64,
    failed_attempts: u32,
    locked_until: Option<u64>,
}

/// The mathematical value of one client record.
pub ghost struct ClientView {
    pub ip: Seq<char>,
    pub count: u32,
    pub window_start: u64,
    pub failed_attempts: u32,
    pub locked_until: Option<u64>,
}

/// The mathematical value of the rate limiter.
pub ghost struct RateLimiterView {
    pub entries: Seq<ClientView>,
    pub max_requests_per_minute: u32,
    pub max_failed_attempts: u32,
    pub lockout_ms: u64,
}

/// The request rate limiter.
pub struct RateLimiter {
    entries: Vec<ClientRecord>,
    max_requests_per_minute: u32,
    max_failed_attempts: u32,
    lockout_ms: u64,
}

impl View for RateLimiter {
    type V = RateLimiterView;

    closed spec fn view(&self) -> RateLimiterView {
        RateLimiterView {
            entries: Seq::new(
                self.entries@.len(),
                |i: int|
                    ClientView {
                        ip: self.entries@[i].ip@,
                        count: self.entries@[i].count,
                        window_start: self.entries@[i].window_start,
                        failed_attempts: self.entries@[i].failed_attempts,
                        locked_until: self.entries@[i].locked_until,
                    },
            ),
            max_requests_per_minute: self.max_requests_per_minute,
            max_failed_attempts: self.max_failed_attempts,
            lockout_ms: self.lockout_ms,
        }
    }
}

/// The first record for `ip`, if one exists.
pub open spec fn spec_find_ip(es: Seq<ClientView>, ip: Seq<char>, i: nat) -> Option<int>
    decreases es.len() - i,
{
    if i >= es.len() {
        None
    } else if es[i as int].ip == ip {
        Some(i as int)
    } else {
        spec_find_ip(es, ip, i + 1)
    }
}

/// The record a fresh client starts with.
pub open spec fn spec_fresh_client(ip: Seq<char>, now: u64) -> ClientView {
    ClientView { ip: ip, count: 0, window_start: now, failed_attempts: 0, locked_until: None }
}

/// One client record after a rate-limit check at time `now`: first an
/// expired lockout is cleared, then an expired minute window is reset, then
/// the request is either counted (accepted) or counted as a failed attempt
/// (refused), locking the client out once too many attempts failed.
pub open spec fn spec_check_client(c: ClientView, l: RateLimiterView, now: u64) -> (ClientView,
    bool) {
    if c.locked_until matches Some(t) && now < t {
        (c, false)
    } else {
        let c1 = if c.locked_until is Some {
            ClientView { locked_until: None, failed_attempts: 0, ..c }
        } else {
            c
        };
        let c2 = if now > c1.window_start + 60000 {
            ClientView { count: 0, window_start: now, ..c1 }
        } else {
            c1
        };
        if c2.count >= l.max_requests_per_minute {
            let fails: u32 = if c2.failed_attempts < u32::MAX {
                (c2.failed_attempts + 1) as u32
            } else {
                c2.failed_attempts
            };
            let locked: Option<u64> = if fails >= l.max_failed_attempts {
                if now + l.lockout_ms <= u64::MAX {
                    Some((now + l.lockout_ms) as u64)
                } else {
                    Some(u64::MAX)
                }
            } else {
                c2.locked_until
            };
            (ClientView { failed_attempts: fails, locked_until: locked, ..c2 }, false)
        } else {
            (ClientView { count: (c2.count + 1) as u32, ..c2 }, true)
        }
    }
}

/// The limiter's entries after a check for `ip` at `now`: the client's
/// record (created fresh if absent) is put through `spec_check_client`.
pub open spec fn spec_check_state(l: RateLimiterView, ip: Seq<char>, now: u64) -> RateLimiterView {
    match spec_find_ip(l.entries, ip, 0) {
        Some(i) => RateLimiterView {
            entries: l.entries.update(i, spec_check_client(l.entries[i], l, now).0),
            ..l
        },
        None => RateLimiterView {
            entries: l.entries.push(spec_check_client(spec_fresh_client(ip, now), l, now).0),
            ..l
        },
    }
}

/// Whether a check for `ip` at `now` accepts the request.
pub open spec fn spec_check_result(l: RateLimiterView, ip: Seq<char>, now: u64) -> bool {
    match spec_find_ip(l.entries, ip, 0) {
        Some(i) => spec_check_client(l.entries[i], l, now).1,
        None => spec_check_client(spec_fresh_client(ip, now), l, now).1,
    }
}

impl RateLimiter {
    /// A limiter that allows `max_requests_per_minute` requests per client
    /// per minute and locks a client out for fifteen minutes after
    /// `max_failed_attempts` refused requests.
    pub fn new(max_requests_per_minute: u32, max_failed_attempts: u32) -> (r: RateLimiter)
        ensures
            r@.entries.len() == 0,
            r@.max_requests_per_minute == max_requests_per_minute,
            r@.max_failed_attempts == max_failed_attempts,
            r@.lockout_ms == 900000,
    {
        let r = RateLimiter {
            entries: Vec::new(),
            max_requests_per_minute,
            max_failed_attempts,
            lockout_ms: 900000,
        };
        proof {
            assert(r@.entries =~= Seq::<ClientView>::empty());
        }
        r
    }

    /// Find the position of the record for `ip`.
    fn find_ip(&self, ip: &str) -> (r: Option<usize>)
        ensures
            match r {
                Some(i) => i < self@.entries.len() && spec_find_ip(self@.entries, ip@, 0)
                    == Some(i as int),
                None => spec_find_ip(self@.entries, ip@, 0) is None,
            },
    {
        let mut i: usize = 0;
        while i < self.entries.len()
            invariant
                i <= self@.entries.len(),
                self@.entries.len() == self.entries@.len(),
                spec_find_ip(self@.entries, ip@, 0) == spec_find_ip(self@.entries, ip@, i as nat),
            decreases self@.entries.len() - i,
        {
            if str_eq(self.entries[i].ip.as_str(), ip) {
                return Some(i);
            }
            i = i + 1;
        }
        None
    }

    /// Decide one request from `ip` at time `now`.
    pub fn check_rate_limit_at(&mut self, ip: &str, now: u64) -> (r: Result<(), RateLimitError>)
        ensures
            final(self)@ == spec_check_state(old(self)@, ip@, now),
            r is Ok == spec_check_result(old(self)@, ip@, now),
    {
        let idx = match self.find_ip(ip) {
            Some(i) => i,
            None => {
                let i = self.entries.len();
                self.entries.push(
                    ClientRecord {
                        ip: String::from_str(ip),
                        count: 0,
                        window_start: now,
                        failed_attempts: 0,
                        locked_until: None,
                    },
                );
                proof {
                    assert(self@.entries =~= old(self)@.entries.push(
                        spec_fresh_client(ip@, now),
                    ));
                }
                i
            },
        };
        let ghost entries1 = self@.entries;
        let ghost c0 = entries1[idx as int];
        let mut refused = false;
        match self.entries[idx].locked_until {
            Some(t) => {
                if now < t {
                    refused = true;
                } else {
                    self.entries[idx].locked_until = None;
                    self.entries[idx].failed_attempts = 0;
                }
            },
            None => {},
        }
        if refused {
            proof {
                assert(self@.entries =~= spec_check_state(old(self)@, ip@, now).entries);
            }
            return Err(RateLimitError::TooManyRequests);
        }
        if self.entries[idx].window_start <= u64::MAX - 60000 && now > self.entries[idx].window_start
            + 60000 {
            self.entries[idx].count = 0;
            self.entries[idx].window_start = now;
        }
        if self.entries[idx].count >= self.max_requests_per_minute {
            if self.entries[idx].failed_attempts < u32::MAX {
                let f = self.entries[idx].failed_attempts;
                self.entries[idx].failed_attempts = f + 1;
            }
            if self.entries[idx].failed_attempts >= self.max_failed_attempts {
                let locked = if now <= u64::MAX - self.lockout_ms {
                    now + self.lockout_ms
                } else {
                    u64::MAX
                };
                self.entries[idx].locked_until = Some(locked);
            }
            proof {
                assert(self@.entries =~= spec_check_state(old(self)@, ip@, now).entries);
            }
            Err(RateLimitError::TooManyRequests)
        } else {
            let c = self.entries[idx].count;
            self.entries[idx].count = c + 1;
            proof {
                assert(self@.entries =~= spec_check_state(old(self)@, ip@, now).entries);
            }
            Ok(())
        }
    }

    /// Decide one request from `ip` at the machine's current time.
    pub fn check_rate_limit(&mut self, ip: &str) -> (r: Result<(), RateLimitError>)
        ensures
            exists|now: u64|
                final(self)@ == #[trigger] spec_check_state(old(self)@, ip@, now) && (r is Ok)
                    == spec_check_result(old(self)@, ip@, now),
    {
        let now = now_millis();
        self.check_rate_limit_at(ip, now)
    }

    /// A successful request clears the client's failed attempts.
    pub fn record_successful_request(&mut self, ip: &str)
        ensures
            final(self)@ == (match spec_find_ip(old(self)@.entries, ip@, 0) {
                Some(i) => RateLimiterView {
                    entries: old(self)@.entries.update(
                        i,
                        ClientView { failed_attempts: 0, ..old(self)@.entries[i] },
                    ),
                    ..old(self)@
                },
                None => old(self)@,
            }),
    {
        match self.find_ip(ip) {
            Some(i) => {
                self.entries[i].failed_attempts = 0;
                proof {
                    let ghost target = old(self)@.entries.update(
                        i as int,
                        ClientView { failed_attempts: 0, ..old(self)@.entries[i as int] },
                    );
                    assert(self@.entries =~= target);
                }
            },
            None => {
                proof {
                    assert(self@.entries =~= old(self)@.entries);
                }
            },
        }
    }

    /// Which entries a cleanup at `now` keeps: those whose window started
    /// within the last ten minutes (or in the future, for a clock that
    /// stepped back).
    pub open spec fn spec_keep_entry(c: ClientView, now: u64) -> bool {
        now < c.window_start + 600000
    }

    /// The entries surviving a cleanup at `now`, in order.
    pub open spec fn spec_cleanup(es: Seq<ClientView>, now: u64) -> Seq<ClientView>
        decreases es.len(),
    {
        if es.len() == 0 {
            es
        } else if Self::spec_keep_entry(es.last(), now) {
            Self::spec_cleanup(es.drop_last(), now).push(es.last())
        } else {
            Self::spec_cleanup(es.drop_last(), now)
        }
    }

    /// Drop clients whose minute window is more than ten minutes old.
    pub fn cleanup_old_entries_at(&mut self, now: u64)
        ensures
            final(self)@ == (RateLimiterView {
                entries: Self::spec_cleanup(old(self)@.entries, now),
                ..old(self)@
            }),
    {
        let mut kept: Vec<ClientRecord> = Vec::new();
        let mut i: usize = 0;
        let ghost es = self@.entries;
        while i < self.entries.len()
            invariant
                i <= self.entries@.len(),
                es == self@.entries,
                self@.entries.len() == self.entries@.len(),
                Seq::new(
                    kept@.len(),
                    |q: int|
                        ClientView {
                            ip: kept@[q].ip@,
                            count: kept@[q].count,
                            window_start: kept@[q].window_start,
                            failed_attempts: kept@[q].failed_attempts,
                            locked_until: kept@[q].locked_until,
                        },
                ) == Self::spec_cleanup(es.subrange(0, i as int), now),
            decreases self.entries@.len() - i,
        {
            proof {
                assert(es.subrange(0, i as int + 1).drop_last() =~= es.subrange(0, i as int));
            }
            let keep = self.entries[i].window_start > u64::MAX - 600000 || now
                < self.entries[i].window_start + 600000;
            if keep {
                let e = &self.entries[i];
                kept.push(
                    ClientRecord {
                        ip: e.ip.clone(),
                        count: e.count,
                        window_start: e.window_start,
                        failed_attempts: e.failed_attempts,
                        locked_until: e.locked_until,
                    },
                );
            }
            i = i + 1;
            proof {
                assert(Seq::new(
                    kept@.len(),
                    |q: int|
                        ClientView {
                            ip: kept@[q].ip@,
                            count: kept@[q].count,
                            window_start: kept@[q].window_start,
                            failed_attempts: kept@[q].failed_attempts,
                            locked_until: kept@[q].locked_until,
                        },
                ) =~= Self::spec_cleanup(es.subrange(0, i as int), now));
            }
        }
        self.entries = kept;
        proof {
            assert(es.subrange(0, es.len() as int) =~= es);
            assert(self@.entries =~= Self::spec_cleanup(es, now));
        }
    }

    /// Drop stale clients, judged against the machine's current time.
    pub fn cleanup_old_entries(&mut self)
        ensures
            exists|now: u64|
                final(self)@ == (RateLimiterView {
                    entries: #[trigger] Self::spec_cleanup(old(self)@.entries, now),
                    ..old(self)@
                }),
    {
        let now = now_millis();
        self.cleanup_old_entries_at(now);
    }
}

/// One address's open-connection count.
struct ConnRecord {
    ip: String,
    count: u32,
}

/// The mathematical value of the connection limiter: open-connection counts
/// by address, and the per-address cap.
pub ghost struct ConnLimiterView {
    pub ips: Seq<Seq<char>>,
    pub counts: Seq<u32>,
    pub max_connections_per_ip: u32,
}

/// The concurrent-connection limiter.
pub struct ConnectionLimiter {
    conns: Vec<ConnRecord>,
    max_connections_per_ip: u32,
}

impl View for ConnectionLimiter {
    type V = ConnLimiterView;

    closed spec fn view(&self) -> ConnLimiterView {
        ConnLimiterView {
            ips: Seq::new(self.conns@.len(), |i: int| self.conns@[i].ip@),
            counts: Seq::new(self.conns@.len(), |i: int| self.conns@[i].count),
            max_connections_per_ip: self.max_connections_per_ip,
        }
    }
}

/// The first position of `ip` in the address list.
pub open spec fn spec_find_conn(ips: Seq<Seq<char>>, ip: Seq<char>, i: nat) -> Option<int>
    decreases ips.len() - i,
{
    if i >= ips.len() {
        None
    } else if ips[i as int] == ip {
        Some(i as int)
    } else {
        spec_find_conn(ips, ip, i + 1)
    }
}

/// How many connections `ip` currently holds.
pub open spec fn spec_conn_count(l: ConnLimiterView, ip: Seq<char>) -> int {
    match spec_find_conn(l.ips, ip, 0) {
        Some(i) => l.counts[i] as int,
        None => 0,
    }
}

impl ConnectionLimiter {
    /// A limiter that allows each address at most `max_connections_per_ip`
    /// simultaneous connections.
    pub fn new(max_connections_per_ip: u32) -> (r: ConnectionLimiter)
        ensures
            r@.ips.len() == 0,
            r@.counts.len() == 0,
            r@.max_connections_per_ip == max_connections_per_ip,
    {
        let r = ConnectionLimiter { conns: Vec::new(), max_connections_per_ip };
        proof {
            assert(r@.ips =~= Seq::<Seq<char>>::empty());
            assert(r@.counts =~= Seq::<u32>::empty());
        }
        r
    }

    /// Find the position of the record for `ip`.
    fn find_conn(&self, ip: &str) -> (r: Option<usize>)
        ensures
            match r {
                Some(i) => i < self@.ips.len() && spec_find_conn(self@.ips, ip@, 0) == Some(
                    i as int,
                ),
                None => spec_find_conn(self@.ips, ip@, 0) is None,
            },
    {
        let mut i: usize = 0;
        while i < self.conns.len()
            invariant
                i <= self@.ips.len(),
                self@.ips.len() == self.conns@.len(),
                spec_find_conn(self@.ips, ip@, 0) == spec_find_conn(self@.ips, ip@, i as nat),
            decreases self@.ips.len() - i,
        {
            if str_eq(self.conns[i].ip.as_str(), ip) {
                return Some(i);
            }
            i = i + 1;
        }
        None
    }

    /// Whether `ip` may open one more connection.
    pub fn can_connect(&self, ip: &str) -> (r: bool)
        ensures
            r == (spec_conn_count(self@, ip@) < self@.max_connections_per_ip),
    {
        match self.find_conn(ip) {
            Some(i) => self.conns[i].count < self.max_connections_per_ip,
            None => 0 < self.max_connections_per_ip,
        }
    }

    /// Register one more connection for `ip`; refused once the address
    /// holds `max_connections_per_ip` connections.
    pub fn add_connection(&mut self, ip: &str) -> (r: Result<(), ()>)
        ensures
            r is Ok == (spec_conn_count(old(self)@, ip@) < old(self)@.max_connections_per_ip),
            final(self)@.max_connections_per_ip == old(self)@.max_connections_per_ip,
            r is Ok ==> spec_conn_count(final(self)@, ip@) == spec_conn_count(old(self)@, ip@)
                + 1,
            r is Err ==> final(self)@ == old(self)@,
    {
        match self.find_conn(ip) {
            Some(i) => {
                if self.conns[i].count >= self.max_connections_per_ip {
                    proof {
                        assert(self@.ips =~= old(self)@.ips);
                        assert(self@.counts =~= old(self)@.counts);
                    }
                    return Err(());
                }
                let c = self.conns[i].count;
                self.conns[i].count = c + 1;
                proof {
                    assert(self@.ips =~= old(self)@.ips);
                    assert(spec_find_conn(self@.ips, ip@, 0) == Some(i as int));
                }
                Ok(())
            },
            None => {
                if self.max_connections_per_ip == 0 {
                    proof {
                        assert(self@.ips =~= old(self)@.ips);
                        assert(self@.counts =~= old(self)@.counts);
                    }
                    return Err(());
                }
                self.conns.push(ConnRecord { ip: String::from_str(ip), count: 1 });
                proof {
                    assert(spec_find_conn(old(self)@.ips, ip@, 0) is None);
                    lemma_find_conn_push(old(self)@.ips, ip@);
                    assert(self@.ips =~= old(self)@.ips.push(ip@));
                    assert(spec_find_conn(self@.ips, ip@, 0) == Some(
                        old(self)@.ips.len() as int,
                    ));
                }
                Ok(())
            },
        }
    }

    /// Release one connection for `ip`; the record disappears at zero.
    pub fn remove_connection(&mut self, ip: &str)
        ensures
            final(self)@.max_connections_per_ip == old(self)@.max_connections_per_ip,
            match spec_find_conn(old(self)@.ips, ip@, 0) {
                Some(i) => if old(self)@.counts[i] <= 1 {
                    final(self)@.ips == old(self)@.ips.remove(i) && final(self)@.counts == old(
                        self,
                    )@.counts.remove(i)
                } else {
                    final(self)@.ips == old(self)@.ips && final(self)@.counts == old(
                        self,
                    )@.counts.update(i, (old(self)@.counts[i] - 1) as u32)
                },
                None => final(self)@ == old(self)@,
            },
    {
        match self.find_conn(ip) {
            Some(i) => {
                if self.conns[i].count > 0 {
                    let c = self.conns[i].count;
                    self.conns[i].count = c - 1;
                }
                if self.conns[i].count == 0 {
                    self.conns.remove(i);
                    proof {
                        assert(self@.ips =~= old(self)@.ips.remove(i as int));
                        assert(self@.counts =~= old(self)@.counts.remove(i as int));
                    }
                } else {
                    proof {
                        assert(self@.ips =~= old(self)@.ips);
                        assert(self@.counts =~= old(self)@.counts.update(
                            i as int,
                            (old(self)@.counts[i as int] - 1) as u32,
                        ));
                    }
                }
            },
            None => {
                proof {
                    assert(self@.ips =~= old(self)@.ips);
                    assert(self@.counts =~= old(self)@.counts);
                }
            },
        }
    }
}

/// Searching a list extended with `ip` finds it at the new last position
/// when it was absent before.
proof fn lemma_find_conn_push(ips: Seq<Seq<char>>, ip: Seq<char>)
    requires
        spec_find_conn(ips, ip, 0) is None,
    ensures
        spec_find_conn(ips.push(ip), ip, 0) == Some(ips.len() as int),
{
    lemma_find_conn_push_from(ips, ip, 0);
}

/// Helper for `lemma_find_conn_push`.
proof fn lemma_find_conn_push_from(ips: Seq<Seq<char>>, ip: Seq<char>, i: nat)
    requires
        i <= ips.len(),
        spec_find_conn(ips, ip, i) is None,
    ensures
        spec_find_conn(ips.push(ip), ip, i) == Some(ips.len() as int),
    decreases ips.len() - i,
{
    if i < ips.len() {
        lemma_find_conn_push_from(ips, ip, i + 1);
    }
}

} // verus!
