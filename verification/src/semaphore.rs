//! Per-route account-level concurrency caps, orthogonal to the per-key
//! limits of the pool: a bounded counter per route whose capacity is the
//! route's `concurrency` setting; a route without one takes no permit.

use vstd::prelude::*;

use crate::config::Config;

verus! {

use vstd::pervasive::VecAdditionalExecFns;

/// Per-route permit accounting.
pub struct AccountSemaphore {
    caps: Vec<Option<usize>>,
    used: Vec<usize>,
}

/// What acquiring a permit yields.
pub enum PermitOutcome {
    /// The route has no cap: proceed without a permit.
    NoCapNeeded,
    /// A permit was taken and must be given back once.
    Granted(AccountPermit),
    /// The route's cap is fully used.
    Exhausted,
}

/// The exclusive right to give one permit back.
pub struct AccountPermit {
    route_idx: usize,
}

impl View for AccountSemaphore {
    type V = (Seq<Option<usize>>, Seq<usize>);

    closed spec fn view(&self) -> (Seq<Option<usize>>, Seq<usize>) {
        (self.caps@, self.used@)
    }
}

/// Capacities and counters cover the same routes, and no counter exceeds
/// its cap.
pub open spec fn sem_wf(s: AccountSemaphore) -> bool {
    &&& s@.0.len() == s@.1.len()
    &&& forall|i: int|
        0 <= i < s@.0.len() ==> (#[trigger] s@.0[i] matches Some(c) ==> s@.1[i] <= c)
}

/// The cap of route `r`.
pub open spec fn cap_of(s: AccountSemaphore, r: int) -> Option<usize> {
    s@.0[r]
}

/// The permits out for route `r`.
pub open spec fn used_of(s: AccountSemaphore, r: int) -> usize {
    s@.1[r]
}

impl AccountPermit {
    /// The route this permit belongs to.
    pub closed spec fn spec_route(&self) -> usize {
        self.route_idx
    }
}

impl AccountSemaphore {
    /// One slot per route, its cap the route's `concurrency`, nothing used.
    pub fn from_config(config: &Config) -> (r: AccountSemaphore)
        ensures
            sem_wf(r),
            r@.0.len() == config.routes@.len(),
            forall|i: int|
                0 <= i < r@.0.len() ==> r@.0[i] == (#[trigger] config.routes@[i]).concurrency,
            forall|i: int| 0 <= i < r@.1.len() ==> r@.1[i] == 0,
    {
        let n = config.routes.len();
        let mut caps: Vec<Option<usize>> = Vec::new();
        let mut used: Vec<usize> = Vec::new();
        let mut i: usize = 0;
        while i < n
            invariant
                n == config.routes@.len(),
                i <= n,
                caps@.len() == i,
                used@.len() == i,
                forall|t: int|
                    0 <= t < i ==> caps@[t] == (#[trigger] config.routes@[t]).concurrency,
                forall|t: int| 0 <= t < i ==> used@[t] == 0,
            decreases n - i,
        {
            caps.push(config.routes[i].concurrency);
            used.push(0);
            i += 1;
        }
        AccountSemaphore { caps, used }
    }

    /// Try to take a permit for route `route_idx`. A route without a cap
    /// (or out of range) needs none; one at its cap grants nothing.
    pub fn try_acquire(&mut self, route_idx: usize) -> (r: PermitOutcome)
        requires
            sem_wf(*old(self)),
        ensures
            sem_wf(*final(self)),
            final(self)@.0 == old(self)@.0,
            (route_idx as int) >= old(self)@.0.len() || cap_of(*old(self), route_idx as int)
                is None ==> r == PermitOutcome::NoCapNeeded && final(self)@.1 == old(self)@.1,
            ((route_idx as int) < old(self)@.0.len() && cap_of(*old(self), route_idx as int)
                is Some) ==> {
                let c = cap_of(*old(self), route_idx as int)->Some_0;
                if used_of(*old(self), route_idx as int) < c {
                    &&& r matches PermitOutcome::Granted(g) && g.spec_route() == route_idx
                    &&& final(self)@.1 == old(self)@.1.update(
                        route_idx as int,
                        (used_of(*old(self), route_idx as int) + 1) as usize,
                    )
                } else {
                    r == PermitOutcome::Exhausted && final(self)@.1 == old(self)@.1
                }
            },
    {
        if route_idx >= self.caps.len() {
            return PermitOutcome::NoCapNeeded;
        }
        match self.caps[route_idx] {
            None => PermitOutcome::NoCapNeeded,
            Some(c) => {
                let u = self.used[route_idx];
                if u < c {
                    self.used.set(route_idx, u + 1);
                    PermitOutcome::Granted(AccountPermit { route_idx })
                } else {
                    PermitOutcome::Exhausted
                }
            },
        }
    }

    /// Give one permit back, consuming it; the counter never goes below
    /// zero.
    pub fn release(&mut self, permit: AccountPermit)
        requires
            sem_wf(*old(self)),
        ensures
            sem_wf(*final(self)),
            final(self)@.0 == old(self)@.0,
            (permit.spec_route() as int) >= old(self)@.1.len() ==> final(self)@.1 == old(
                self,
            )@.1,
            (permit.spec_route() as int) < old(self)@.1.len() ==> final(self)@.1 == old(
                self,
            )@.1.update(
                permit.spec_route() as int,
                if used_of(*old(self), permit.spec_route() as int) > 0 {
                    (used_of(*old(self), permit.spec_route() as int) - 1) as usize
                } else {
                    0
                },
            ),
    {
        let r = permit.route_idx;
        if r < self.used.len() {
            let u = self.used[r];
            if u > 0 {
                self.used.set(r, u - 1);
            } else {
                self.used.set(r, 0);
            }
        }
    }
}

} // verus!
