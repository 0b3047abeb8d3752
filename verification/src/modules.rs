//! The process-wide view-module cache.
//!
//! Every lazily loaded unit of rendering code is keyed by a module
//! identifier. Requesting a module triggers an underlying load only from
//! `Unloaded`; a request while the module is `Loading` joins the in-flight
//! load and a request after completion returns at once, so concurrent
//! requests for one identifier collapse into exactly one underlying load.

use vstd::prelude::*;

verus! {

/// The lifecycle of one view module.
#[derive(Clone, Copy, Debug, PartialEq, Eq, Structural)]
pub enum ModuleState {
    Unloaded,
    Loading,
    Loaded,
    Failed,
}

/// What a request for a module found.
#[derive(Clone, Copy, Debug, PartialEq, Eq, Structural)]
pub enum RequestOutcome {
    /// The module was `Unloaded`; this request started the one underlying load.
    Started,
    /// A load was already in flight; this request joined it.
    Joined,
    /// The module has already completed as `Loaded`.
    AlreadyLoaded,
    /// The module has already completed as `Failed`.
    AlreadyFailed,
}

/// The mathematical value of a cache: one state per module identifier and
/// the count of underlying loads ever issued for it.
pub ghost struct CacheModel {
    pub states: Seq<ModuleState>,
    pub started: Seq<u64>,
}

impl CacheModel {
    /// A module counts one issued load exactly when it has left `Unloaded`.
    pub open spec fn wf(self) -> bool {
        &&& self.started.len() == self.states.len()
        &&& forall|m: int|
            0 <= m < self.states.len() ==> self.started[m] == if self.states[m] is Unloaded {
                0u64
            } else {
                1u64
            }
    }

    /// The model after a request for module `m`, paired with its outcome:
    /// only an `Unloaded` module changes state, to `Loading`, and only then
    /// is an underlying load counted.
    pub open spec fn request(self, m: int) -> (CacheModel, RequestOutcome) {
        match self.states[m] {
            ModuleState::Unloaded => (
                CacheModel {
                    states: self.states.update(m, ModuleState::Loading),
                    started: self.started.update(m, 1u64),
                },
                RequestOutcome::Started,
            ),
            ModuleState::Loading => (self, RequestOutcome::Joined),
            ModuleState::Loaded => (self, RequestOutcome::AlreadyLoaded),
            ModuleState::Failed => (self, RequestOutcome::AlreadyFailed),
        }
    }

    /// The model after the in-flight load of module `m` completes; a module
    /// not currently `Loading` is left unchanged, so a completed outcome
    /// never reverts.
    pub open spec fn complete(self, m: int, ok: bool) -> CacheModel {
        if self.states[m] is Loading {
            CacheModel {
                states: self.states.update(
                    m,
                    if ok {
                        ModuleState::Loaded
                    } else {
                        ModuleState::Failed
                    },
                ),
                started: self.started,
            }
        } else {
            self
        }
    }
}

/// The shared cache: one state per module identifier, plus a count of the
/// underlying loads that have ever been issued for it.
#[derive(Clone, Debug)]
pub struct ModuleCache {
    pub states: Vec<ModuleState>,
    pub started: Vec<u64>,
}

impl ModuleCache {
    pub open spec fn model(self) -> CacheModel {
        CacheModel { states: self.states@, started: self.started@ }
    }

    pub open spec fn wf(self) -> bool {
        self.model().wf()
    }

    pub open spec fn len_spec(self) -> nat {
        self.states@.len()
    }

    /// An empty cache for `n` module identifiers.
    pub fn new(n: usize) -> (r: ModuleCache)
        ensures
            r.wf(),
            r.len_spec() == n,
            forall|m: int| 0 <= m < n ==> r.states@[m] is Unloaded,
    {
        let mut states: Vec<ModuleState> = Vec::new();
        let mut started: Vec<u64> = Vec::new();
        let mut i: usize = 0;
        while i < n
            invariant
                i <= n,
                states@.len() == i,
                started@.len() == i,
                forall|m: int| 0 <= m < i ==> states@[m] is Unloaded,
                forall|m: int| 0 <= m < i ==> started@[m] == 0u64,
            decreases n - i,
        {
            states.push(ModuleState::Unloaded);
            started.push(0);
            i = i + 1;
        }
        ModuleCache { states, started }
    }

    /// Requests module `m`: joins or reuses any load already known,
    /// and starts the underlying load only from `Unloaded`.
    pub fn request(&mut self, m: usize) -> (r: RequestOutcome)
        requires
            old(self).wf(),
            m < old(self).len_spec(),
        ensures
            final(self).wf(),
            final(self).model() == old(self).model().request(m as int).0,
            r == old(self).model().request(m as int).1,
            !(final(self).states@[m as int] is Unloaded),
            final(self).started@[m as int] == 1u64,
    {
        let outcome = match self.states[m] {
            ModuleState::Unloaded => {
                self.states.set(m, ModuleState::Loading);
                self.started.set(m, 1);
                RequestOutcome::Started
            },
            ModuleState::Loading => RequestOutcome::Joined,
            ModuleState::Loaded => RequestOutcome::AlreadyLoaded,
            ModuleState::Failed => RequestOutcome::AlreadyFailed,
        };
        outcome
    }

    /// Records the outcome of the one underlying load of module `m`.
    pub fn complete(&mut self, m: usize, ok: bool) -> (changed: bool)
        requires
            old(self).wf(),
            m < old(self).len_spec(),
        ensures
            final(self).wf(),
            final(self).model() == old(self).model().complete(m as int, ok),
            final(self).started@ == old(self).started@,
            changed == (old(self).states@[m as int] is Loading),
    {
        match self.states[m] {
            ModuleState::Loading => {
                self.states.set(m, if ok { ModuleState::Loaded } else { ModuleState::Failed });
                true
            },
            _ => false,
        }
    }
}

/// Module-load deduplication: however many requests for module `m` are made,
/// the underlying load is issued exactly once. A first request from
/// `Unloaded` starts it and counts it; every request made while or after the
/// load is known (`Loading`, `Loaded` or `Failed`) leaves the cache unchanged
/// and starts nothing, so after any request the issued-load count for `m` is
/// exactly one, and it never grows again.
pub proof fn lemma_module_load_dedup(c: CacheModel, m: int)
    requires
        c.wf(),
        0 <= m < c.states.len(),
    ensures
        c.request(m).1 is Started <==> c.states[m] is Unloaded,
        !(c.states[m] is Unloaded) ==> c.request(m).0 == c,
        c.request(m).0.started[m] == 1u64,
        c.request(m).0.request(m).0 == c.request(m).0,
        !(c.request(m).0.request(m).1 is Started),
{
    let c1 = c.request(m).0;
    assert(!(c1.states[m] is Unloaded));
    assert(c1.request(m).0 == c1);
}

/// All waiters for one module observe the same completed outcome: once the
/// load of `m` has completed, neither a further request nor a further
/// completion report changes its state again.
pub proof fn lemma_module_outcome_stable(c: CacheModel, m: int, ok: bool)
    requires
        c.wf(),
        0 <= m < c.states.len(),
        c.states[m] is Loaded || c.states[m] is Failed,
    ensures
        c.request(m).0 == c,
        c.complete(m, ok) == c,
{
}

} // verus!
