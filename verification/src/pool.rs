//! Per-route API-key pools: least-connections selection with a rotating
//! tie-break cursor, per-key cooldowns after rate limiting, per-key
//! concurrency limits, and explicit release accounting.

use vstd::prelude::*;

use crate::config::Config;

verus! {

use vstd::pervasive::VecAdditionalExecFns;
use vstd::slice::slice_to_vec;

/// Cooldown applied when a rate-limited response carries no usable
/// `Retry-After` value.
pub const DEFAULT_COOLDOWN_SECS: u64 = 60;

/// Counters of one route's key pool.
pub struct PoolEntry {
    /// Active connections per key.
    pub active: Vec<usize>,
    /// Unix second until which each key is cooling down; 0 means none.
    pub cooldown_until: Vec<u64>,
    /// Per-key concurrency limit; `None` is unlimited.
    pub concurrency: Option<usize>,
    /// Rotating scan offset: ties go to a different key on each call.
    pub next_idx: usize,
}

/// One optional pool per route, indexed by route position.
pub struct KeyPool {
    entries: Vec<Option<PoolEntry>>,
}

impl View for KeyPool {
    type V = Seq<Option<PoolEntry>>;

    closed spec fn view(&self) -> Seq<Option<PoolEntry>> {
        self.entries@
    }
}

/// Both counter vectors cover the same keys.
pub open spec fn entry_wf(e: PoolEntry) -> bool {
    e.active@.len() == e.cooldown_until@.len()
}

/// Every present entry is well-formed.
pub open spec fn pool_wf(p: KeyPool) -> bool {
    forall|r: int| 0 <= r < p@.len() ==> (#[trigger] p@[r] matches Some(e) ==> entry_wf(e))
}

/// The number of keys of an entry.
pub open spec fn key_count(e: PoolEntry) -> int {
    e.active@.len() as int
}

/// The effective per-key limit; unlimited behaves as `usize::MAX`.
pub open spec fn limit(e: PoolEntry) -> int {
    match e.concurrency {
        Some(l) => l as int,
        None => usize::MAX as int,
    }
}

/// Route `r` has a pool.
pub open spec fn has_entry(p: KeyPool, r: int) -> bool {
    0 <= r < p@.len() && p@[r] is Some
}

/// The pool of route `r`.
pub open spec fn entry(p: KeyPool, r: int) -> PoolEntry {
    p@[r]->Some_0
}

/// Key `i` may be handed out now: in range, not excluded, not cooling
/// down, and under its concurrency limit.
pub open spec fn eligible(e: PoolEntry, now: u64, excl: Seq<usize>, i: int) -> bool {
    0 <= i < key_count(e) && !excl.contains(i as usize) && e.cooldown_until@[i] <= now && (
    e.active@[i] as int) < limit(e)
}

/// The position scanned at step `j` when the scan starts at `start`.
pub open spec fn scan_pos(start: int, j: int, k: int) -> int {
    if start + j < k {
        start + j
    } else {
        start + j - k
    }
}

/// The least-connections scan: starting at `start`, walk all keys once,
/// keeping the first eligible key with the strictly smallest active count.
pub open spec fn scan(
    e: PoolEntry,
    now: u64,
    excl: Seq<usize>,
    start: int,
    j: int,
    best: Option<int>,
) -> Option<int>
    decreases key_count(e) - j,
{
    let k = key_count(e);
    if j < 0 || j >= k {
        best
    } else {
        let pos = scan_pos(start, j, k);
        let ok = eligible(e, now, excl, pos) && (match best {
            Some(b) => (e.active@[pos] as int) < e.active@[b] as int,
            None => true,
        });
        scan(e, now, excl, start, j + 1, if ok { Some(pos) } else { best })
    }
}

/// The key that one acquisition attempt picks, if any.
pub open spec fn selected(e: PoolEntry, now: u64, excl: Seq<usize>) -> Option<int> {
    if key_count(e) == 0 {
        None
    } else {
        scan(e, now, excl, (e.next_idx as int) % key_count(e), 0, None)
    }
}

/// The cursor after one acquisition attempt.
pub open spec fn next_cursor(n: usize) -> usize {
    if n == usize::MAX {
        0
    } else {
        (n + 1) as usize
    }
}

/// An empty scan result means no key at or after step `j` was eligible and
/// nothing had been found before.
pub proof fn lemma_scan_none(
    e: PoolEntry,
    now: u64,
    excl: Seq<usize>,
    start: int,
    j: int,
    best: Option<int>,
)
    requires
        0 <= start < key_count(e),
        0 <= j,
        scan(e, now, excl, start, j, best) is None,
    ensures
        best is None,
        forall|j2: int|
            j <= j2 < key_count(e) ==> !eligible(
                e,
                now,
                excl,
                #[trigger] scan_pos(start, j2, key_count(e)),
            ),
    decreases key_count(e) - j,
{
    let k = key_count(e);
    if j < k {
        let pos = scan_pos(start, j, k);
        let ok = eligible(e, now, excl, pos) && (match best {
            Some(b) => (e.active@[pos] as int) < e.active@[b] as int,
            None => true,
        });
        lemma_scan_none(e, now, excl, start, j + 1, if ok { Some(pos) } else { best });
    }
}

/// When nothing is selected, no key at all is eligible.
pub proof fn lemma_selected_none(e: PoolEntry, now: u64, excl: Seq<usize>)
    requires
        selected(e, now, excl) is None,
    ensures
        forall|i: int| 0 <= i < key_count(e) ==> !eligible(e, now, excl, i),
{
    let k = key_count(e);
    if k > 0 {
        let start = (e.next_idx as int) % k;
        vstd::arithmetic::div_mod::lemma_mod_bound(e.next_idx as int, k);
        lemma_scan_none(e, now, excl, start, 0, None);
        assert forall|i: int| 0 <= i < k implies !eligible(e, now, excl, i) by {
            let j = if i >= start {
                i - start
            } else {
                i + k - start
            };
            assert(scan_pos(start, j, k) == i);
            assert(!eligible(e, now, excl, scan_pos(start, j, k)));
        }
    }
}

/// What one acquisition attempt does to the pool: the scanned route's
/// cursor advances; on success the chosen key was eligible at that instant
/// and its active count grows by one; everything else is untouched.
pub open spec fn acquire_post(
    p0: KeyPool,
    p1: KeyPool,
    route_idx: int,
    now: u64,
    excl: Seq<usize>,
    r: Option<usize>,
) -> bool {
    if !has_entry(p0, route_idx) {
        p1@ == p0@ && r is None
    } else {
        let e0 = entry(p0, route_idx);
        let e1 = entry(p1, route_idx);
        &&& p1@.len() == p0@.len()
        &&& forall|t: int| 0 <= t < p0@.len() && t != route_idx ==> p1@[t] == p0@[t]
        &&& has_entry(p1, route_idx)
        &&& e1.cooldown_until@ == e0.cooldown_until@
        &&& e1.concurrency == e0.concurrency
        &&& e1.next_idx == next_cursor(e0.next_idx)
        &&& match r {
            Some(i) => {
                &&& 0 <= (i as int) < key_count(e0)
                &&& Some(i as int) == selected(e0, now, excl)
                &&& eligible(e0, now, excl, i as int)
                &&& e1.active@ == e0.active@.update(i as int, (e0.active@[i as int] + 1) as usize)
            },
            None => selected(e0, now, excl) is None && e1.active@ == e0.active@,
        }
    }
}

/// What a sticky acquisition does: if the session's own key (`hash mod k`)
/// is eligible it is taken directly, without moving the cursor; otherwise
/// the attempt behaves exactly like a plain acquisition.
pub open spec fn sticky_post(
    p0: KeyPool,
    p1: KeyPool,
    route_idx: int,
    session_hash: u64,
    now: u64,
    r: Option<usize>,
) -> bool {
    if !has_entry(p0, route_idx) {
        p1@ == p0@ && r is None
    } else {
        let e0 = entry(p0, route_idx);
        let k = key_count(e0);
        if k > 0 && eligible(e0, now, Seq::empty(), (session_hash as int) % k) {
            let c = (session_hash as int) % k;
            let e1 = entry(p1, route_idx);
            &&& p1@.len() == p0@.len()
            &&& forall|t: int| 0 <= t < p0@.len() && t != route_idx ==> p1@[t] == p0@[t]
            &&& has_entry(p1, route_idx)
            &&& e1.cooldown_until@ == e0.cooldown_until@
            &&& e1.concurrency == e0.concurrency
            &&& e1.next_idx == e0.next_idx
            &&& r == Some(c as usize)
            &&& e1.active@ == e0.active@.update(c, (e0.active@[c] + 1) as usize)
        } else {
            acquire_post(p0, p1, route_idx, now, Seq::empty(), r)
        }
    }
}

/// What a release does: the key's active count drops by one, to a floor of
/// zero; a missing pool or an out-of-range key changes nothing.
pub open spec fn release_post(p0: KeyPool, p1: KeyPool, route_idx: int, key_idx: int) -> bool {
    if !has_entry(p0, route_idx) || !(0 <= key_idx < key_count(entry(p0, route_idx))) {
        p1@ == p0@
    } else {
        let e0 = entry(p0, route_idx);
        let e1 = entry(p1, route_idx);
        &&& p1@.len() == p0@.len()
        &&& forall|t: int| 0 <= t < p0@.len() && t != route_idx ==> p1@[t] == p0@[t]
        &&& has_entry(p1, route_idx)
        &&& e1.cooldown_until@ == e0.cooldown_until@
        &&& e1.concurrency == e0.concurrency
        &&& e1.next_idx == e0.next_idx
        &&& e1.active@ == e0.active@.update(
            key_idx,
            if e0.active@[key_idx] > 0 {
                (e0.active@[key_idx] - 1) as usize
            } else {
                0
            },
        )
    }
}

/// What setting a cooldown does: the key's deadline becomes `now` plus the
/// parsed `Retry-After` seconds, or plus the default when none parsed.
pub open spec fn cooldown_post(
    p0: KeyPool,
    p1: KeyPool,
    route_idx: int,
    key_idx: int,
    retry_after_secs: Option<u64>,
    now: u64,
) -> bool {
    if !has_entry(p0, route_idx) || !(0 <= key_idx < key_count(entry(p0, route_idx))) {
        p1@ == p0@
    } else {
        let e0 = entry(p0, route_idx);
        let e1 = entry(p1, route_idx);
        let secs = match retry_after_secs {
            Some(s) => s,
            None => DEFAULT_COOLDOWN_SECS,
        };
        let until = if now + secs <= u64::MAX {
            (now + secs) as u64
        } else {
            u64::MAX
        };
        &&& p1@.len() == p0@.len()
        &&& forall|t: int| 0 <= t < p0@.len() && t != route_idx ==> p1@[t] == p0@[t]
        &&& has_entry(p1, route_idx)
        &&& e1.active@ == e0.active@
        &&& e1.concurrency == e0.concurrency
        &&& e1.next_idx == e0.next_idx
        &&& e1.cooldown_until@ == e0.cooldown_until@.update(key_idx, until)
    }
}

/// Relies on `std::time::SystemTime::now` and `duration_since(UNIX_EPOCH)`:
/// the current Unix time in whole seconds, 0 for a clock before the epoch.
#[verifier::external_body]
pub fn now_epoch_secs() -> u64 {
    std::time::SystemTime::now().duration_since(std::time::UNIX_EPOCH).unwrap_or(
        std::time::Duration::ZERO,
    ).as_secs()
}

/// `s@` contains `x`.
fn slice_contains(s: &[usize], x: usize) -> (r: bool)
    ensures
        r == s@.contains(x),
{
    let n = s.len();
    let mut i: usize = 0;
    while i < n
        invariant
            n == s@.len(),
            i <= n,
            forall|j: int| 0 <= j < i ==> s@[j] != x,
        decreases n - i,
    {
        if s[i] == x {
            return true;
        }
        i += 1;
    }
    false
}

/// One acquisition attempt against a single entry.
fn entry_acquire(e: &mut PoolEntry, now: u64, exclude: &Vec<usize>) -> (r: Option<usize>)
    requires
        entry_wf(*old(e)),
    ensures
        entry_wf(*final(e)),
        final(e).cooldown_until@ == old(e).cooldown_until@,
        final(e).concurrency == old(e).concurrency,
        final(e).next_idx == next_cursor(old(e).next_idx),
        match r {
            Some(i) => {
                &&& 0 <= (i as int) < key_count(*old(e))
                &&& Some(i as int) == selected(*old(e), now, exclude@)
                &&& eligible(*old(e), now, exclude@, i as int)
                &&& final(e).active@ == old(e).active@.update(
                    i as int,
                    (old(e).active@[i as int] + 1) as usize,
                )
            },
            None => selected(*old(e), now, exclude@) is None && final(e).active@ == old(
                e,
            ).active@,
        },
{
    let ghost e0 = *e;
    let k = e.active.len();
    let offset = e.next_idx;
    e.next_idx = if offset == usize::MAX {
        0
    } else {
        offset + 1
    };
    if k == 0 {
        return None;
    }
    let start = offset % k;
    proof {
        assert(start == (e0.next_idx as int) % key_count(e0));
    }
    let mut best: Option<usize> = None;
    let mut j: usize = 0;
    while j < k
        invariant
            entry_wf(e0),
            e.active == e0.active,
            e.cooldown_until == e0.cooldown_until,
            e.concurrency == e0.concurrency,
            k == key_count(e0),
            0 <= start < k,
            j <= k,
            match best {
                Some(b) => eligible(e0, now, exclude@, b as int) && (b as int) < k,
                None => true,
            },
            scan(
                e0,
                now,
                exclude@,
                start as int,
                j as int,
                match best {
                    Some(b) => Some(b as int),
                    None => None,
                },
            ) == scan(e0, now, exclude@, start as int, 0, None),
        decreases k - j,
    {
        let pos = if j < k - start {
            start + j
        } else {
            j - (k - start)
        };
        proof {
            assert(pos as int == scan_pos(start as int, j as int, k as int));
        }
        let excluded = slice_contains(exclude.as_slice(), pos);
        let cd = e.cooldown_until[pos];
        let act = e.active[pos];
        let under_limit = match e.concurrency {
            Some(l) => act < l,
            None => act < usize::MAX,
        };
        let improves = match best {
            Some(b) => act < e.active[b],
            None => true,
        };
        let ok = !excluded && cd <= now && under_limit && improves;
        if ok {
            best = Some(pos);
        }
        j += 1;
    }
    match best {
        Some(b) => {
            let cur = e.active[b];
            e.active.set(b, cur + 1);
            Some(b)
        },
        None => None,
    }
}

/// One direct increment of key `c`, used by the sticky path.
fn entry_take_key(e: &mut PoolEntry, c: usize)
    requires
        entry_wf(*old(e)),
        (c as int) < key_count(*old(e)),
        (old(e).active@[c as int] as int) < limit(*old(e)),
    ensures
        entry_wf(*final(e)),
        final(e).cooldown_until@ == old(e).cooldown_until@,
        final(e).concurrency == old(e).concurrency,
        final(e).next_idx == old(e).next_idx,
        final(e).active@ == old(e).active@.update(c as int, (old(e).active@[c as int] + 1) as usize),
{
    let cur = e.active[c];
    e.active.set(c, cur + 1);
}

impl KeyPool {
    /// One entry per route: present exactly for the routes with a key pool,
    /// with one slot per key (primary value first), all counters at zero.
    pub fn from_config(config: &Config) -> (r: KeyPool)
        ensures
            pool_wf(r),
            r@.len() == config.routes@.len(),
            forall|i: int|
                0 <= i < r@.len() ==> match #[trigger] r@[i] {
                    Some(e) => {
                        &&& config.routes@[i].upstream.auth.spec_pool_len() > 0
                        &&& key_count(e) == 1 + config.routes@[i].upstream.auth.spec_pool_len()
                        &&& e.concurrency == config.routes@[i].concurrency
                        &&& e.next_idx == 0
                        &&& forall|t: int| 0 <= t < key_count(e) ==> e.active@[t] == 0
                        &&& forall|t: int| 0 <= t < key_count(e) ==> e.cooldown_until@[t] == 0
                    },
                    None => config.routes@[i].upstream.auth.spec_pool_len() == 0,
                },
    {
        let n = config.routes.len();
        let mut entries: Vec<Option<PoolEntry>> = Vec::new();
        let mut i: usize = 0;
        while i < n
            invariant
                n == config.routes@.len(),
                i <= n,
                entries@.len() == i,
                forall|t: int|
                    0 <= t < i ==> match #[trigger] entries@[t] {
                        Some(e) => {
                            &&& config.routes@[t].upstream.auth.spec_pool_len() > 0
                            &&& key_count(e) == 1 + config.routes@[t].upstream.auth.spec_pool_len()
                            &&& e.concurrency == config.routes@[t].concurrency
                            &&& e.next_idx == 0
                            &&& entry_wf(e)
                            &&& forall|u: int| 0 <= u < key_count(e) ==> e.active@[u] == 0
                            &&& forall|u: int| 0 <= u < key_count(e) ==> e.cooldown_until@[u] == 0
                        },
                        None => config.routes@[t].upstream.auth.spec_pool_len() == 0,
                    },
            decreases n - i,
        {
            let route = &config.routes[i];
            if route.upstream.auth.has_pool() {
                let pool_size = route.upstream.auth.all_values().len();
                let active: Vec<usize> = vec![0; pool_size];
                let cooldown_until: Vec<u64> = vec![0; pool_size];
                entries.push(
                    Some(
                        PoolEntry {
                            active,
                            cooldown_until,
                            concurrency: route.concurrency,
                            next_idx: 0,
                        },
                    ),
                );
            } else {
                entries.push(None);
            }
            i += 1;
        }
        KeyPool { entries }
    }

    /// Least-connections acquisition at a given instant.
    pub fn acquire_at(&mut self, route_idx: usize, now: u64) -> (r: Option<usize>)
        requires
            pool_wf(*old(self)),
        ensures
            pool_wf(*final(self)),
            acquire_post(*old(self), *final(self), route_idx as int, now, Seq::empty(), r),
    {
        if route_idx >= self.entries.len() {
            return None;
        }
        let none_excluded: Vec<usize> = Vec::new();
        let r = match &mut self.entries[route_idx] {
            Some(e) => entry_acquire(e, now, &none_excluded),
            None => None,
        };
        proof {
            if old(self)@[route_idx as int] is None {
                assert(self@ =~= old(self)@);
            }
        }
        r
    }

    /// Least-connections acquisition, read off the system clock.
    pub fn acquire(&mut self, route_idx: usize) -> (r: Option<usize>)
        requires
            pool_wf(*old(self)),
        ensures
            pool_wf(*final(self)),
            exists|now: u64|
                acquire_post(*old(self), *final(self), route_idx as int, now, Seq::empty(), r),
    {
        let now = now_epoch_secs();
        self.acquire_at(route_idx, now)
    }

    /// Acquisition skipping the keys in `exclude`, at a given instant.
    pub fn acquire_excluding_at(&mut self, route_idx: usize, exclude: &[usize], now: u64) -> (r:
        Option<usize>)
        requires
            pool_wf(*old(self)),
        ensures
            pool_wf(*final(self)),
            acquire_post(*old(self), *final(self), route_idx as int, now, exclude@, r),
    {
        if route_idx >= self.entries.len() {
            return None;
        }
        let excl: Vec<usize> = slice_to_vec(exclude);
        let r = match &mut self.entries[route_idx] {
            Some(e) => entry_acquire(e, now, &excl),
            None => None,
        };
        proof {
            if old(self)@[route_idx as int] is None {
                assert(self@ =~= old(self)@);
            }
        }
        r
    }

    /// Acquisition skipping the keys in `exclude` (after rate limiting),
    /// read off the system clock.
    pub fn acquire_excluding(&mut self, route_idx: usize, exclude: &[usize]) -> (r: Option<usize>)
        requires
            pool_wf(*old(self)),
        ensures
            pool_wf(*final(self)),
            exists|now: u64|
                acquire_post(*old(self), *final(self), route_idx as int, now, exclude@, r),
    {
        let now = now_epoch_secs();
        self.acquire_excluding_at(route_idx, exclude, now)
    }

    /// Session-sticky acquisition at a given instant: try `hash mod k`
    /// first, fall back to the least-connections scan.
    pub fn acquire_sticky_at(&mut self, route_idx: usize, session_hash: u64, now: u64) -> (r:
        Option<usize>)
        requires
            pool_wf(*old(self)),
        ensures
            pool_wf(*final(self)),
            sticky_post(*old(self), *final(self), route_idx as int, session_hash, now, r),
    {
        if route_idx >= self.entries.len() {
            return None;
        }
        let none_excluded: Vec<usize> = Vec::new();
        let r = match &mut self.entries[route_idx] {
            Some(e) => {
                let k = e.active.len();
                if k > 0 {
                    let c = (session_hash % (k as u64)) as usize;
                    proof {
                        assert((session_hash % (k as u64)) < (k as u64));
                        assert(c as int == (session_hash as int) % (k as int)) by {
                            vstd::arithmetic::div_mod::lemma_mod_bound(
                                session_hash as int,
                                k as int,
                            );
                        }
                    }
                    let cd = e.cooldown_until[c];
                    let act = e.active[c];
                    let under_limit = match e.concurrency {
                        Some(l) => act < l,
                        None => act < usize::MAX,
                    };
                    if cd <= now && under_limit {
                        proof {
                            assert(Seq::<usize>::empty().contains(c) == false);
                        }
                        entry_take_key(e, c);
                        return Some(c);
                    }
                }
                entry_acquire(e, now, &none_excluded)
            },
            None => None,
        };
        proof {
            if old(self)@[route_idx as int] is None {
                assert(self@ =~= old(self)@);
            }
        }
        r
    }

    /// Session-sticky acquisition, read off the system clock.
    pub fn acquire_sticky(&mut self, route_idx: usize, session_hash: u64) -> (r: Option<usize>)
        requires
            pool_wf(*old(self)),
        ensures
            pool_wf(*final(self)),
            exists|now: u64|
                sticky_post(*old(self), *final(self), route_idx as int, session_hash, now, r),
    {
        let now = now_epoch_secs();
        self.acquire_sticky_at(route_idx, session_hash, now)
    }

    /// Give a key back: its active count drops by one, never below zero.
    /// A missing pool or an out-of-range key is tolerated unchanged.
    pub fn release(&mut self, route_idx: usize, key_idx: usize)
        requires
            pool_wf(*old(self)),
        ensures
            pool_wf(*final(self)),
            release_post(*old(self), *final(self), route_idx as int, key_idx as int),
    {
        if route_idx >= self.entries.len() {
            return ;
        }
        match &mut self.entries[route_idx] {
            Some(e) => {
                if key_idx < e.active.len() {
                    let cur = e.active[key_idx];
                    if cur > 0 {
                        e.active.set(key_idx, cur - 1);
                    } else {
                        e.active.set(key_idx, 0);
                    }
                }
            },
            None => {},
        }
        proof {
            if !has_entry(*old(self), route_idx as int) || key_idx as int >= key_count(
                entry(*old(self), route_idx as int),
            ) {
                assert(self@ =~= old(self)@);
            }
        }
    }

    /// Put a key into cooldown until `now` plus the parsed `Retry-After`
    /// seconds, or plus the default when none parsed.
    pub fn set_cooldown_at(
        &mut self,
        route_idx: usize,
        key_idx: usize,
        retry_after_secs: Option<u64>,
        now: u64,
    )
        requires
            pool_wf(*old(self)),
        ensures
            pool_wf(*final(self)),
            cooldown_post(
                *old(self),
                *final(self),
                route_idx as int,
                key_idx as int,
                retry_after_secs,
                now,
            ),
    {
        if route_idx >= self.entries.len() {
            return ;
        }
        match &mut self.entries[route_idx] {
            Some(e) => {
                if key_idx < e.cooldown_until.len() {
                    let secs = match retry_after_secs {
                        Some(s) => s,
                        None => DEFAULT_COOLDOWN_SECS,
                    };
                    let until = match now.checked_add(secs) {
                        Some(u) => u,
                        None => u64::MAX,
                    };
                    e.cooldown_until.set(key_idx, until);
                }
            },
            None => {},
        }
        proof {
            if !has_entry(*old(self), route_idx as int) || key_idx as int >= key_count(
                entry(*old(self), route_idx as int),
            ) {
                assert(self@ =~= old(self)@);
            }
        }
    }

    /// Put a key into cooldown, read off the system clock.
    pub fn set_cooldown(&mut self, route_idx: usize, key_idx: usize, retry_after_secs: Option<u64>)
        requires
            pool_wf(*old(self)),
        ensures
            pool_wf(*final(self)),
            exists|now: u64|
                cooldown_post(
                    *old(self),
                    *final(self),
                    route_idx as int,
                    key_idx as int,
                    retry_after_secs,
                    now,
                ),
    {
        let now = now_epoch_secs();
        self.set_cooldown_at(route_idx, key_idx, retry_after_secs, now)
    }
}

/// The exclusive right to decrement one key's active count once. Consuming
/// it in `release` is the only way to use it, so each acquisition is
/// balanced by at most one release.
pub struct PoolGuard {
    route_idx: usize,
    key_idx: usize,
}

impl PoolGuard {
    /// The route this guard belongs to.
    pub closed spec fn spec_route(&self) -> usize {
        self.route_idx
    }

    /// The key this guard holds.
    pub closed spec fn spec_key(&self) -> usize {
        self.key_idx
    }

    pub fn new(route_idx: usize, key_idx: usize) -> (g: PoolGuard)
        ensures
            g.spec_route() == route_idx,
            g.spec_key() == key_idx,
    {
        PoolGuard { route_idx, key_idx }
    }

    /// Give the held key back to the pool, consuming the guard.
    pub fn release(self, pool: &mut KeyPool)
        requires
            pool_wf(*old(pool)),
        ensures
            pool_wf(*final(pool)),
            release_post(
                *old(pool),
                *final(pool),
                self.spec_route() as int,
                self.spec_key() as int,
            ),
    {
        pool.release(self.route_idx, self.key_idx);
    }
}

/// An acquisition that hands out key `i` saw it outside its cooldown and
/// strictly under its limit at that instant, and leaves it at or under the
/// limit afterwards.
pub proof fn lemma_acquire_respects_cooldown_and_limit(
    p0: KeyPool,
    p1: KeyPool,
    route_idx: int,
    now: u64,
    excl: Seq<usize>,
    i: usize,
)
    requires
        acquire_post(p0, p1, route_idx, now, excl, Some(i)),
    ensures
        has_entry(p0, route_idx),
        entry(p0, route_idx).cooldown_until@[i as int] <= now,
        (entry(p0, route_idx).active@[i as int] as int) < limit(entry(p0, route_idx)),
        (entry(p1, route_idx).active@[i as int] as int) <= limit(entry(p0, route_idx)),
        !excl.contains(i),
{
}

/// An acquisition followed by the matching release restores every active
/// count exactly; with one guard per acquisition this keeps the counts
/// equal to the number of outstanding guards.
pub proof fn lemma_acquire_release_balance(
    p0: KeyPool,
    p1: KeyPool,
    p2: KeyPool,
    route_idx: int,
    now: u64,
    excl: Seq<usize>,
    i: usize,
)
    requires
        pool_wf(p0),
        acquire_post(p0, p1, route_idx, now, excl, Some(i)),
        release_post(p1, p2, route_idx, i as int),
    ensures
        entry(p2, route_idx).active@ =~= entry(p0, route_idx).active@,
        forall|t: int| 0 <= t < p0@.len() && t != route_idx ==> p2@[t] == p0@[t],
{
}

/// After a rate-limited response is recorded, the key stays ineligible for
/// at least the parsed `Retry-After` window (or the default one): its
/// cooldown deadline is no earlier than `now` plus those seconds.
pub proof fn lemma_cooldown_covers_retry_after(
    p0: KeyPool,
    p1: KeyPool,
    route_idx: int,
    key_idx: int,
    secs: u64,
    now: u64,
)
    requires
        pool_wf(p0),
        has_entry(p0, route_idx),
        0 <= key_idx < key_count(entry(p0, route_idx)),
        cooldown_post(p0, p1, route_idx, key_idx, Some(secs), now),
        now + secs <= u64::MAX,
    ensures
        entry(p1, route_idx).cooldown_until@[key_idx] >= now + secs,
        forall|t: u64| t < now + secs ==> !eligible(entry(p1, route_idx), t, Seq::empty(), key_idx),
{
}

} // verus!
