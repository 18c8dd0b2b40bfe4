//! The per-client download concurrency budget.
//!
//! Each distinct client address owns its own pool of permits, created
//! full on first sight; one permit is held for the whole of one
//! download. The table only accounts: a failed acquisition means the
//! caller must wait until a permit for that address comes back, and
//! addresses never contend with one another's pools.

use vstd::prelude::*;
use crate::net::IpAddress;

verus! {

/// How many downloads one client address may run at once.
pub const PERMITS_PER_CLIENT: usize = 5;

/// No two pools share an address.
pub open spec fn distinct_pool_ips(s: Seq<(IpAddress, usize)>) -> bool {
    forall|i: int, j: int| 0 <= i < j < s.len() ==> s[i].0 != s[j].0
}

/// Some pool belongs to `ip`.
pub open spec fn has_pool(s: Seq<(IpAddress, usize)>, ip: IpAddress) -> bool {
    exists|i: int| 0 <= i < s.len() && s[i].0 == ip
}

/// The position of `ip`'s pool (meaningful when present and distinct).
pub open spec fn pool_index(s: Seq<(IpAddress, usize)>, ip: IpAddress) -> int {
    choose|i: int| 0 <= i < s.len() && s[i].0 == ip
}

/// How many permits `ip` could still acquire: its pool's count, or a
/// full fresh pool for an address not seen yet.
pub open spec fn available_spec(s: Seq<(IpAddress, usize)>, ip: IpAddress) -> usize {
    if has_pool(s, ip) {
        s[pool_index(s, ip)].1
    } else {
        PERMITS_PER_CLIENT
    }
}

/// Whether an acquisition by `ip` succeeds on table `s`.
pub open spec fn acquire_ok_spec(s: Seq<(IpAddress, usize)>, ip: IpAddress) -> bool {
    available_spec(s, ip) > 0
}

/// The table after an acquisition attempt by `ip`: a successful one
/// takes one permit from `ip`'s pool (materialising a fresh pool on
/// first sight); a failed one changes nothing.
pub open spec fn acquire_seq(s: Seq<(IpAddress, usize)>, ip: IpAddress) -> Seq<
    (IpAddress, usize),
> {
    if has_pool(s, ip) {
        let i = pool_index(s, ip);
        if s[i].1 > 0 {
            s.update(i, (ip, (s[i].1 - 1) as usize))
        } else {
            s
        }
    } else {
        s.push((ip, (PERMITS_PER_CLIENT - 1) as usize))
    }
}

/// The table after `ip` returns a permit; a pool never grows past
/// full, and an unknown address changes nothing.
pub open spec fn release_seq(s: Seq<(IpAddress, usize)>, ip: IpAddress) -> Seq<
    (IpAddress, usize),
> {
    if has_pool(s, ip) {
        let i = pool_index(s, ip);
        if s[i].1 < PERMITS_PER_CLIENT {
            s.update(i, (ip, (s[i].1 + 1) as usize))
        } else {
            s
        }
    } else {
        s
    }
}

/// With distinct addresses, any position holding `ip` is the position.
pub proof fn lemma_pool_index_unique(s: Seq<(IpAddress, usize)>, ip: IpAddress, i: int)
    requires
        distinct_pool_ips(s),
        0 <= i < s.len(),
        s[i].0 == ip,
    ensures
        pool_index(s, ip) == i,
        has_pool(s, ip),
{
    assert(has_pool(s, ip));
    let k = pool_index(s, ip);
    if k < i {
        assert(s[k].0 != s[i].0);
    } else if k > i {
        assert(s[i].0 != s[k].0);
    }
}

/// The per-address permit pools.
pub struct PermitTable {
    /// One pool per address seen, in order of first sight.
    pub pools: Vec<(IpAddress, usize)>,
}

impl PermitTable {
    /// Addresses are distinct and no pool exceeds the full budget.
    pub open spec fn wf(&self) -> bool {
        distinct_pool_ips(self.pools@) && (forall|i: int|
            0 <= i < self.pools@.len() ==> self.pools@[i].1 <= PERMITS_PER_CLIENT)
    }

    pub fn new() -> (r: PermitTable)
        ensures
            r.wf(),
            r.pools@.len() == 0,
    {
        PermitTable { pools: Vec::new() }
    }

    fn find_pool(&self, ip: IpAddress) -> (r: Option<usize>)
        ensures
            match r {
                Some(i) => i < self.pools@.len() && self.pools@[i as int].0 == ip,
                None => !has_pool(self.pools@, ip),
            },
    {
        let mut i: usize = 0;
        while i < self.pools.len()
            invariant
                i <= self.pools@.len(),
                forall|j: int| 0 <= j < i ==> self.pools@[j].0 != ip,
            decreases self.pools@.len() - i,
        {
            if self.pools[i].0 == ip {
                return Some(i);
            }
            i += 1;
        }
        None
    }

    /// Tries to take one permit for `ip`. `false` means the budget is
    /// exhausted and the caller must wait for a release.
    pub fn try_acquire(&mut self, ip: IpAddress) -> (r: bool)
        requires
            old(self).wf(),
        ensures
            final(self).wf(),
            r == acquire_ok_spec(old(self).pools@, ip),
            final(self).pools@ == acquire_seq(old(self).pools@, ip),
    {
        match self.find_pool(ip) {
            Some(i) => {
                proof {
                    lemma_pool_index_unique(self.pools@, ip, i as int);
                }
                let avail = self.pools[i].1;
                if avail > 0 {
                    self.pools[i] = (ip, avail - 1);
                    true
                } else {
                    false
                }
            },
            None => {
                self.pools.push((ip, PERMITS_PER_CLIENT - 1));
                true
            },
        }
    }

    /// Returns one permit of `ip`.
    pub fn release(&mut self, ip: IpAddress)
        requires
            old(self).wf(),
        ensures
            final(self).wf(),
            final(self).pools@ == release_seq(old(self).pools@, ip),
    {
        match self.find_pool(ip) {
            Some(i) => {
                proof {
                    lemma_pool_index_unique(self.pools@, ip, i as int);
                }
                let avail = self.pools[i].1;
                if avail < PERMITS_PER_CLIENT {
                    self.pools[i] = (ip, avail + 1);
                }
            },
            None => {},
        }
    }

    /// How many permits `ip` could still acquire.
    pub fn available(&self, ip: IpAddress) -> (r: usize)
        requires
            self.wf(),
        ensures
            r == available_spec(self.pools@, ip),
    {
        match self.find_pool(ip) {
            Some(i) => {
                proof {
                    lemma_pool_index_unique(self.pools@, ip, i as int);
                }
                self.pools[i].1
            },
            None => PERMITS_PER_CLIENT,
        }
    }
}

/// Different addresses never contend: an acquisition by one address
/// leaves every other address's availability as it was.
pub proof fn lemma_permits_independent(s: Seq<(IpAddress, usize)>, ip1: IpAddress, ip2: IpAddress)
    requires
        distinct_pool_ips(s),
        ip1 != ip2,
    ensures
        available_spec(acquire_seq(s, ip1), ip2) == available_spec(s, ip2),
{
    let s2 = acquire_seq(s, ip1);
    if has_pool(s, ip1) {
        let i = pool_index(s, ip1);
        assert(0 <= i < s.len() && s[i].0 == ip1);
        if s[i].1 > 0 {
            assert(s2 == s.update(i, (ip1, (s[i].1 - 1) as usize)));
            if has_pool(s, ip2) {
                let j = pool_index(s, ip2);
                assert(0 <= j < s.len() && s[j].0 == ip2);
                assert(j != i);
                assert(s2[j] == s[j]);
                assert(distinct_pool_ips(s2));
                lemma_pool_index_unique(s2, ip2, j);
            } else {
                assert forall|k: int| 0 <= k < s2.len() implies s2[k].0 != ip2 by {
                    if k != i {
                        assert(s2[k] == s[k]);
                    }
                }
                assert(!has_pool(s2, ip2));
            }
        }
    } else {
        assert(s2 == s.push((ip1, (PERMITS_PER_CLIENT - 1) as usize)));
        if has_pool(s, ip2) {
            let j = pool_index(s, ip2);
            assert(s2[j] == s[j]);
            assert(distinct_pool_ips(s2)) by {
                assert forall|a: int, b: int|
                    0 <= a < b < s2.len() implies s2[a].0 != s2[b].0 by {
                    if b < s.len() {
                        assert(s2[a] == s[a] && s2[b] == s[b]);
                    } else {
                        assert(s2[b].0 == ip1);
                        assert(s2[a] == s[a]);
                        if s[a].0 == ip1 {
                            lemma_pool_index_unique(s, ip1, a);
                            assert(has_pool(s, ip1));
                        }
                    }
                }
            }
            lemma_pool_index_unique(s2, ip2, j);
        } else {
            assert forall|k: int| 0 <= k < s2.len() implies s2[k].0 != ip2 by {
                if k < s.len() {
                    assert(s2[k] == s[k]);
                }
            }
            assert(!has_pool(s2, ip2));
        }
    }
}

/// An address with an exhausted pool is refused and the table does not
/// change: the caller blocks until a permit for that address returns.
pub proof fn lemma_exhausted_blocks(s: Seq<(IpAddress, usize)>, ip: IpAddress)
    requires
        available_spec(s, ip) == 0,
    ensures
        !acquire_ok_spec(s, ip),
        acquire_seq(s, ip) == s,
{
    assert(has_pool(s, ip)) by {
        if !has_pool(s, ip) {
            assert(available_spec(s, ip) == PERMITS_PER_CLIENT);
        }
    }
}

/// A successful acquisition takes exactly one permit from the
/// acquiring address's pool.
pub proof fn lemma_acquire_decrements(s: Seq<(IpAddress, usize)>, ip: IpAddress)
    requires
        distinct_pool_ips(s),
        available_spec(s, ip) > 0,
    ensures
        acquire_ok_spec(s, ip),
        available_spec(acquire_seq(s, ip), ip) == available_spec(s, ip) - 1,
{
    let s2 = acquire_seq(s, ip);
    if has_pool(s, ip) {
        let i = pool_index(s, ip);
        assert(0 <= i < s.len() && s[i].0 == ip);
        assert(s2 == s.update(i, (ip, (s[i].1 - 1) as usize)));
        assert(distinct_pool_ips(s2));
        lemma_pool_index_unique(s2, ip, i);
    } else {
        assert(s2 == s.push((ip, (PERMITS_PER_CLIENT - 1) as usize)));
        assert(s2[s.len() as int].0 == ip);
        assert(distinct_pool_ips(s2)) by {
            assert forall|a: int, b: int|
                0 <= a < b < s2.len() implies s2[a].0 != s2[b].0 by {
                if b < s.len() {
                    assert(s2[a] == s[a] && s2[b] == s[b]);
                } else {
                    assert(s2[a] == s[a]);
                    if s[a].0 == ip {
                        lemma_pool_index_unique(s, ip, a);
                    }
                }
            }
        }
        lemma_pool_index_unique(s2, ip, s.len() as int);
    }
}

} // verus!
