//! Navigation dispatch: the router state machine.
//!
//! `navigate` resolves a path, keeps the shared prefix of the old and new
//! active chains untouched, cancels the deferred values of exited routes,
//! and — in the same synchronous turn, before anything is awaited — creates
//! the route data and requests the view module of every newly entered
//! route. The host performs the returned actions (module loads, fetches,
//! the deserialization step) and reports their outcomes through the
//! `note_*` handlers; a report for a cancelled deferred value never mutates
//! the active chain and never asks for a render.

use vstd::prelude::*;
use vstd::std_specs::vec::vec_index_mut;
use crate::comments::Comment;
use crate::deferred::{DataPayload, DeferredSlot, DeferredState, LoadError, RouteData};
use crate::modules::{ModuleCache, ModuleState, RequestOutcome};
use crate::routes::{resolve, DataPlan, RouteTree};

verus! {

/// Work the single-threaded host must perform on the router's behalf.
/// Every action of one navigation is handed back in one batch, so no load
/// waits on another.
#[derive(Clone, Debug)]
pub enum Action {
    /// Start the one underlying load of a view module.
    LoadModule { module: usize },
    /// Fetch `url` and report the text through `note_fetch_done`.
    FetchText { slot: usize, url: String },
    /// Fetch `url`; the text must then pass the deserialization step.
    FetchComments { slot: usize, url: String },
    /// Run the deserialization step on fetched text and report through
    /// `note_deserialize_done`.
    Deserialize { slot: usize, text: String },
}

/// One matched route of the active chain, with the data its factory
/// produced when the route was entered.
#[derive(Clone, Debug)]
pub struct RouteEntry {
    pub route: usize,
    pub data: RouteData,
}

/// Whether a navigation matched a route or fell through to the host's
/// not-found fallback.
#[derive(Clone, Copy, Debug, PartialEq, Eq, Structural)]
pub enum NavOutcome {
    Matched,
    NotFound,
}

/// The reaction to a fetch report: whether the active view must re-render,
/// and the follow-up work it triggered, if any.
#[derive(Clone, Debug)]
pub struct FetchReaction {
    pub render: bool,
    pub follow_up: Option<Action>,
}

/// Whether entry `e` owns deferred slot `s`.
pub open spec fn owns_slot(e: RouteEntry, s: int) -> bool {
    match e.data.deferred {
        Some(x) => x == s,
        None => false,
    }
}

/// Whether two entries own no deferred slot in common.
pub open spec fn slots_disjoint(a: RouteEntry, b: RouteEntry) -> bool {
    match (a.data.deferred, b.data.deferred) {
        (Some(x), Some(y)) => x != y,
        _ => true,
    }
}

/// Whether position `j` lies in the shared prefix of the old chain `och`
/// and the newly resolved chain `nc`: matched before and still matched,
/// with every position up to it matched too.
pub open spec fn in_shared_prefix(och: Seq<RouteEntry>, nc: Seq<usize>, j: int) -> bool {
    &&& 0 <= j < och.len()
    &&& j < nc.len()
    &&& forall|l: int| 0 <= l <= j ==> och[l].route == nc[l]
}

/// Whether position `j` of the old chain exits in a navigation whose
/// resolution produced `target`.
pub open spec fn exits(och: Seq<RouteEntry>, target: Option<Seq<usize>>, j: int) -> bool {
    &&& 0 <= j < och.len()
    &&& match target {
        Some(nc) => !in_shared_prefix(och, nc, j),
        None => true,
    }
}

/// Whether some exiting entry of the old chain owns slot `s`.
pub open spec fn exited_owns(och: Seq<RouteEntry>, target: Option<Seq<usize>>, s: int) -> bool {
    exists|j: int| exits(och, target, j) && owns_slot(#[trigger] och[j], s)
}

/// What entering position `j` of the new chain `nc` must have produced, in
/// the same turn: the entry's data embeds a fresh pending deferred value
/// exactly when the route's plan fetches, and the batch of returned actions
/// holds the matching fetch request.
pub open spec fn entered_entry_ok(
    t: RouteTree,
    nc: Seq<usize>,
    j: int,
    ch: Seq<RouteEntry>,
    slots: Seq<DeferredSlot>,
    actions: Seq<Action>,
    fresh_from: int,
) -> bool {
    let node = t.nodes@[nc[j] as int];
    &&& ch[j].route == nc[j]
    &&& match node.data {
        DataPlan::NoData => ch[j].data.deferred is None,
        DataPlan::FetchText { url } => {
            &&& ch[j].data.deferred matches Some(s)
            &&& fresh_from <= s < slots.len()
            &&& slots[s as int] == DeferredSlot::spec_pending(false)
            &&& actions.contains(Action::FetchText { slot: s, url })
        },
        DataPlan::FetchComments { url } => {
            &&& ch[j].data.deferred matches Some(s)
            &&& fresh_from <= s < slots.len()
            &&& slots[s as int] == DeferredSlot::spec_pending(true)
            &&& actions.contains(Action::FetchComments { slot: s, url })
        },
    }
}

/// Whether action `a` is one the navigation resolving to `nc` was allowed
/// to emit: the load of a module that was still `Unloaded` and is named by
/// a newly entered route, or the fetch of a newly entered route's own
/// deferred value, with that route's planned address. A navigation emits
/// nothing else — in particular no load for a route it did not enter.
pub open spec fn action_from_entered(
    t: RouteTree,
    och: Seq<RouteEntry>,
    nc: Seq<usize>,
    ch: Seq<RouteEntry>,
    ostates: Seq<ModuleState>,
    a: Action,
) -> bool {
    match a {
        Action::LoadModule { module } => {
            &&& module < ostates.len()
            &&& ostates[module as int] is Unloaded
            &&& exists|l: int|
                0 <= l < nc.len() && !in_shared_prefix(och, nc, l) && t.nodes@[(
                #[trigger] nc[l]) as int].module == Some(module)
        },
        Action::FetchText { slot, url } => exists|l: int|
            0 <= l < nc.len() && l < ch.len() && !in_shared_prefix(och, nc, l) && (
            #[trigger] ch[l]).data.deferred == Some(slot) && (t.nodes@[nc[l] as int].data
                matches DataPlan::FetchText { url: u } && u == url),
        Action::FetchComments { slot, url } => exists|l: int|
            0 <= l < nc.len() && l < ch.len() && !in_shared_prefix(och, nc, l) && (
            #[trigger] ch[l]).data.deferred == Some(slot) && (t.nodes@[nc[l] as int].data
                matches DataPlan::FetchComments { url: u } && u == url),
        Action::Deserialize { .. } => false,
    }
}

/// Whether deferred slot `s` is owned by a newly entered entry of the
/// chain `ch`.
pub open spec fn slot_owned_by_entered(
    och: Seq<RouteEntry>,
    nc: Seq<usize>,
    ch: Seq<RouteEntry>,
    s: int,
) -> bool {
    exists|l: int|
        0 <= l < nc.len() && l < ch.len() && !in_shared_prefix(och, nc, l) && owns_slot(
            #[trigger] ch[l],
            s,
        )
}

/// Growing the chain beyond an already entered position preserves the
/// accounting of an already emitted action.
proof fn lemma_action_accounting_grow(
    t: RouteTree,
    och: Seq<RouteEntry>,
    nc: Seq<usize>,
    ch1: Seq<RouteEntry>,
    ch2: Seq<RouteEntry>,
    ostates: Seq<ModuleState>,
    a: Action,
)
    requires
        action_from_entered(t, och, nc, ch1, ostates, a),
        ch1.len() <= ch2.len(),
        forall|l: int| 0 <= l < ch1.len() ==> #[trigger] ch2[l] == ch1[l],
    ensures
        action_from_entered(t, och, nc, ch2, ostates, a),
{
    match a {
        Action::LoadModule { .. } => {},
        Action::FetchText { slot, url } => {
            let l = choose|l: int|
                0 <= l < nc.len() && l < ch1.len() && !in_shared_prefix(och, nc, l) && (
                #[trigger] ch1[l]).data.deferred == Some(slot) && (t.nodes@[nc[l] as int].data
                    matches DataPlan::FetchText { url: u } && u == url);
            assert(ch2[l] == ch1[l]);
        },
        Action::FetchComments { slot, url } => {
            let l = choose|l: int|
                0 <= l < nc.len() && l < ch1.len() && !in_shared_prefix(och, nc, l) && (
                #[trigger] ch1[l]).data.deferred == Some(slot) && (t.nodes@[nc[l] as int].data
                    matches DataPlan::FetchComments { url: u } && u == url);
            assert(ch2[l] == ch1[l]);
        },
        Action::Deserialize { .. } => {},
    }
}

/// Growing the chain beyond an already entered position preserves the
/// ownership of an already created slot.
proof fn lemma_slot_owner_grow(
    och: Seq<RouteEntry>,
    nc: Seq<usize>,
    ch1: Seq<RouteEntry>,
    ch2: Seq<RouteEntry>,
    s: int,
)
    requires
        slot_owned_by_entered(och, nc, ch1, s),
        ch1.len() <= ch2.len(),
        forall|l: int| 0 <= l < ch1.len() ==> #[trigger] ch2[l] == ch1[l],
    ensures
        slot_owned_by_entered(och, nc, ch2, s),
{
    let l = choose|l: int|
        0 <= l < nc.len() && l < ch1.len() && !in_shared_prefix(och, nc, l) && owns_slot(
            #[trigger] ch1[l],
            s,
        );
    assert(ch2[l] == ch1[l]);
}

/// The router: the static route table, the process-wide module cache, the
/// deferred-value slot table, and the active chain.
#[derive(Clone, Debug)]
pub struct Router {
    pub tree: RouteTree,
    pub cache: ModuleCache,
    pub slots: Vec<DeferredSlot>,
    pub chain: Vec<RouteEntry>,
}

impl Router {
    /// The router's invariant: indices in range, every active entry's
    /// deferred value live (not cancelled) and owned by that entry alone,
    /// and the view module of every active route already requested.
    pub open spec fn wf(self) -> bool {
        &&& self.tree.wf()
        &&& self.cache.wf()
        &&& forall|i: int|
            0 <= i < self.tree.nodes@.len() ==> match (#[trigger] self.tree.nodes@[i]).module {
                Some(m) => m < self.cache.len_spec(),
                None => true,
            }
        &&& forall|e: int|
            0 <= e < self.chain@.len() ==> (#[trigger] self.chain@[e]).route < self.tree.len_spec()
        &&& forall|e: int|
            0 <= e < self.chain@.len() ==> match (#[trigger] self.chain@[e]).data.deferred {
                Some(s) => s < self.slots@.len() && !self.slots@[s as int].cancelled,
                None => true,
            }
        &&& forall|e1: int, e2: int|
            0 <= e1 < e2 < self.chain@.len() ==> slots_disjoint(
                #[trigger] self.chain@[e1],
                #[trigger] self.chain@[e2],
            )
        &&& forall|e: int|
            0 <= e < self.chain@.len() ==> match self.tree.nodes@[(
            #[trigger] self.chain@[e]).route as int].module {
                Some(m) => !(self.cache.states@[m as int] is Unloaded),
                None => true,
            }
    }

    /// A fresh router over a given table, with `n_modules` module
    /// identifiers, an empty slot table and no active chain.
    pub fn new(tree: RouteTree, n_modules: usize) -> (r: Router)
        requires
            tree.wf(),
            forall|i: int|
                0 <= i < tree.nodes@.len() ==> match (#[trigger] tree.nodes@[i]).module {
                    Some(m) => m < n_modules,
                    None => true,
                },
        ensures
            r.wf(),
            r.tree == tree,
            r.chain@.len() == 0,
            r.slots@.len() == 0,
            r.cache.len_spec() == n_modules,
            forall|m: int| 0 <= m < n_modules ==> r.cache.states@[m] is Unloaded,
    {
        Router { tree, cache: ModuleCache::new(n_modules), slots: Vec::new(), chain: Vec::new() }
    }
}

/// Marks slot `s` cancelled, leaving its state untouched.
fn cancel_slot(slots: &mut Vec<DeferredSlot>, s: usize)
    requires
        s < old(slots)@.len(),
    ensures
        final(slots)@.len() == old(slots)@.len(),
        final(slots)@[s as int].state == old(slots)@[s as int].state,
        final(slots)@[s as int].parse_step == old(slots)@[s as int].parse_step,
        final(slots)@[s as int].cancelled,
        forall|x: int|
            0 <= x < old(slots)@.len() && x != s ==> final(slots)@[x] == old(slots)@[x],
{
    let el = vec_index_mut(slots, s);
    el.cancelled = true;
}

/// Creates a fresh pending deferred value for a fetching data plan and the
/// fetch action the host must perform; the fetch is issued without
/// awaiting anything, in particular not the view module load.
pub fn issue_fetch(slots: &mut Vec<DeferredSlot>, url: String, parse: bool) -> (r: (
    RouteData,
    Action,
))
    ensures
        final(slots)@ == old(slots)@.push(DeferredSlot::spec_pending(parse)),
        r.0.deferred matches Some(s) && s == old(slots)@.len() && r.1 == (if parse {
            Action::FetchComments { slot: s, url }
        } else {
            Action::FetchText { slot: s, url }
        }),
{
    let s = slots.len();
    slots.push(DeferredSlot::pending(parse));
    let action = if parse {
        Action::FetchComments { slot: s, url }
    } else {
        Action::FetchText { slot: s, url }
    };
    (RouteData { deferred: Some(s) }, action)
}

impl Router {
    /// Dispatches a navigation to `path` (already split into segments).
    ///
    /// The shared prefix of the old and new chains is reused as it stands:
    /// its entries, their route data and their deferred values are
    /// untouched, and no load is issued or re-counted for their modules.
    /// Exited entries' deferred values are cancelled. Every newly entered
    /// route has its data created and its view module requested here, in
    /// one synchronous turn, and the whole batch of resulting actions is
    /// returned together, before any of them is awaited — a parent's load
    /// is never awaited before a child's starts, so independent loads
    /// cannot waterfall.
    pub fn navigate(&mut self, path: &Vec<String>) -> (r: (NavOutcome, Vec<Action>))
        requires
            old(self).wf(),
        ensures
            final(self).wf(),
            final(self).tree == old(self).tree,
            final(self).cache.len_spec() == old(self).cache.len_spec(),
            final(self).slots@.len() >= old(self).slots@.len(),
            // existing deferred values keep their state; only cancellation marks change
            forall|s: int|
                0 <= s < old(self).slots@.len() ==> (#[trigger] final(self).slots@[s]).state
                    == old(self).slots@[s].state && final(self).slots@[s].parse_step == old(
                    self,
                ).slots@[s].parse_step,
            // a slot is cancelled exactly when it was already, or its owner exited now
            forall|s: int|
                0 <= s < old(self).slots@.len() ==> ((#[trigger] final(self).slots@[s]).cancelled
                    <==> (old(self).slots@[s].cancelled || exited_owns(
                    old(self).chain@,
                    spec_nav_target(old(self).tree, path.deep_view()),
                    s,
                ))),
            // the module cache only ever moves away from `Unloaded`
            forall|m: int|
                0 <= m < old(self).cache.len_spec() ==> ((#[trigger] old(
                    self,
                ).cache.states@[m]) is Unloaded || final(self).cache.states@[m] == old(
                    self,
                ).cache.states@[m]),
            // no load is re-issued for a module already requested
            forall|m: int|
                0 <= m < old(self).cache.len_spec() && !((#[trigger] old(
                    self,
                ).cache.states@[m]) is Unloaded) ==> final(self).cache.started@[m] == old(
                    self,
                ).cache.started@[m],
            // a module that left `Unloaded` now was requested by this navigation
            forall|m: int|
                0 <= m < old(self).cache.len_spec() && (#[trigger] old(
                    self,
                ).cache.states@[m]) is Unloaded && !(final(self).cache.states@[m] is Unloaded)
                    ==> r.1@.contains(Action::LoadModule { module: m as usize }),
            r.0 is NotFound <==> old(self).tree.spec_resolve(path.deep_view()) is None,
            old(self).tree.spec_resolve(path.deep_view()) is None ==> final(self).chain@.len() == 0
                && r.1@.len() == 0 && final(self).cache == old(self).cache
                && final(self).slots@.len() == old(self).slots@.len(),
            old(self).tree.spec_resolve(path.deep_view()) matches Some(best) ==> {
                let nc = old(self).tree.chain_of(best);
                &&& final(self).chain@.len() == nc.len()
                &&& forall|j: int|
                    0 <= j < nc.len() ==> (#[trigger] final(self).chain@[j]).route == nc[j]
                // shared prefix reused unchanged: same entries, same route data
                &&& forall|j: int|
                    in_shared_prefix(old(self).chain@, nc, j) ==> final(self).chain@[j] == old(
                        self,
                    ).chain@[j]
                // every newly entered route: data created and fetch issued in this turn
                &&& forall|j: int|
                    0 <= j < nc.len() && !in_shared_prefix(old(self).chain@, nc, j)
                        ==> entered_entry_ok(
                        old(self).tree,
                        nc,
                        j,
                        final(self).chain@,
                        final(self).slots@,
                        r.1@,
                        old(self).slots@.len() as int,
                    )
                // every newly entered route's module load is in flight or done
                &&& forall|j: int|
                    0 <= j < nc.len() && !in_shared_prefix(old(self).chain@, nc, j) ==> match old(
                        self,
                    ).tree.nodes@[#[trigger] nc[j] as int].module {
                        Some(m) => !(final(self).cache.states@[m as int] is Unloaded),
                        None => true,
                    }
                // shared-prefix routes' modules are not reloaded: their
                // issued-load counts stay exactly as they were
                &&& forall|j: int|
                    #[trigger] in_shared_prefix(old(self).chain@, nc, j) ==> match old(
                        self,
                    ).tree.nodes@[old(self).chain@[j].route as int].module {
                        Some(m) => final(self).cache.started@[m as int] == old(
                            self,
                        ).cache.started@[m as int],
                        None => true,
                    }
                // the cache changes only by this navigation's own requests:
                // from `Unloaded` to `Loading`, for an entered route's module
                &&& forall|m: int|
                    0 <= m < old(self).cache.len_spec() && (#[trigger] final(self).cache.states@[m])
                        != old(self).cache.states@[m] ==> (old(
                        self,
                    ).cache.states@[m] is Unloaded && final(self).cache.states@[m] is Loading && (
                    exists|l: int|
                        0 <= l < nc.len() && !in_shared_prefix(old(self).chain@, nc, l) && old(
                            self,
                        ).tree.nodes@[(#[trigger] nc[l]) as int].module == Some(m as usize)))
                // nothing beyond the specified loads and fetches is emitted
                &&& forall|x: int|
                    0 <= x < r.1@.len() ==> action_from_entered(
                        old(self).tree,
                        old(self).chain@,
                        nc,
                        final(self).chain@,
                        old(self).cache.states@,
                        #[trigger] r.1@[x],
                    )
                // the slot table grows by exactly the entered routes' fetches
                &&& forall|s: int|
                    old(self).slots@.len() <= s < final(self).slots@.len()
                        ==> #[trigger] slot_owned_by_entered(
                        old(self).chain@,
                        nc,
                        final(self).chain@,
                        s,
                    )
            },
    {
        let ghost och = old(self).chain@;
        let ghost oslots = old(self).slots@;
        let ghost ostates = old(self).cache.states@;
        let ghost pv = path.deep_view();
        let ghost target = spec_nav_target(old(self).tree, pv);
        let resolved = resolve(&self.tree, path);
        match resolved {
            None => {
                let mut e: usize = 0;
                while e < self.chain.len()
                    invariant
                        old(self).wf(),
                        self.tree == old(self).tree,
                        self.cache == old(self).cache,
                        self.chain == old(self).chain,
                        target is None,
                        e <= self.chain@.len(),
                        self.slots@.len() == oslots.len(),
                        oslots == old(self).slots@,
                        och == old(self).chain@,
                        forall|s: int|
                            0 <= s < oslots.len() ==> (#[trigger] self.slots@[s]).state
                                == oslots[s].state && self.slots@[s].parse_step
                                == oslots[s].parse_step,
                        forall|s: int|
                            0 <= s < oslots.len() ==> ((#[trigger] self.slots@[s]).cancelled <==> (
                            oslots[s].cancelled || exists|j: int|
                                0 <= j < e && owns_slot(#[trigger] och[j], s))),
                    decreases self.chain@.len() - e,
                {
                    match self.chain[e].data.deferred {
                        Some(s) => {
                            cancel_slot(&mut self.slots, s);
                        },
                        None => {},
                    }
                    e = e + 1;
                }
                self.chain = Vec::new();
                proof {
                    assert forall|s: int| 0 <= s < oslots.len() implies ((
                    #[trigger] self.slots@[s]).cancelled <==> (oslots[s].cancelled || exited_owns(
                        och,
                        target,
                        s,
                    ))) by {
                        if self.slots@[s].cancelled && !oslots[s].cancelled {
                            let j = choose|j: int|
                                0 <= j < och.len() && owns_slot(#[trigger] och[j], s);
                            assert(exits(och, target, j));
                        }
                        if exited_owns(och, target, s) {
                            let j = choose|j: int|
                                exits(och, target, j) && owns_slot(#[trigger] och[j], s);
                            assert(0 <= j < och.len() && owns_slot(och[j], s));
                        }
                    }
                }
                (NavOutcome::NotFound, Vec::new())
            },
            Some(nc) => {
                let ghost best = old(self).tree.spec_resolve(pv)->Some_0;
                let ghost nc_s = nc@;
                // length of the shared prefix
                let mut k: usize = 0;
                while k < self.chain.len() && k < nc.len() && self.chain[k].route == nc[k]
                    invariant
                        self == old(self),
                        nc_s == nc@,
                        k <= self.chain@.len(),
                        k <= nc_s.len(),
                        forall|l: int| 0 <= l < k ==> (#[trigger] och[l]).route == nc_s[l],
                        och == old(self).chain@,
                    decreases self.chain@.len() - k,
                {
                    k = k + 1;
                }
                proof {
                    assert forall|j: int| #[trigger] in_shared_prefix(och, nc_s, j) <==> (0 <= j
                        < k) by {
                        if 0 <= j < k {
                            assert(forall|l: int| 0 <= l <= j ==> (#[trigger] och[l]).route
                                == nc_s[l]);
                        }
                        if in_shared_prefix(och, nc_s, j) && j >= k {
                            assert(och[k as int].route == nc_s[k as int]);
                        }
                    }
                }
                // exit the entries past the shared prefix, cancelling their deferred values
                let mut e: usize = k;
                while e < self.chain.len()
                    invariant
                        old(self).wf(),
                        self.tree == old(self).tree,
                        self.cache == old(self).cache,
                        self.chain == old(self).chain,
                        k <= e <= self.chain@.len(),
                        self.slots@.len() == oslots.len(),
                        oslots == old(self).slots@,
                        och == old(self).chain@,
                        forall|j: int| #[trigger] in_shared_prefix(och, nc_s, j) <==> (0 <= j < k),
                        forall|s: int|
                            0 <= s < oslots.len() ==> (#[trigger] self.slots@[s]).state
                                == oslots[s].state && self.slots@[s].parse_step
                                == oslots[s].parse_step,
                        forall|s: int|
                            0 <= s < oslots.len() ==> ((#[trigger] self.slots@[s]).cancelled <==> (
                            oslots[s].cancelled || exists|j: int|
                                k <= j < e && owns_slot(#[trigger] och[j], s))),
                    decreases self.chain@.len() - e,
                {
                    match self.chain[e].data.deferred {
                        Some(s) => {
                            cancel_slot(&mut self.slots, s);
                        },
                        None => {},
                    }
                    e = e + 1;
                }
                self.chain.truncate(k);
                let ghost slots_mid = self.slots@;
                // enter the new routes: create data and request modules, all in this turn
                let mut actions: Vec<Action> = Vec::new();
                let mut j: usize = k;
                while j < nc.len()
                    invariant
                        old(self).wf(),
                        self.tree == old(self).tree,
                        self.tree.wf(),
                        self.cache.wf(),
                        self.cache.len_spec() == old(self).cache.len_spec(),
                        och == old(self).chain@,
                        oslots == old(self).slots@,
                        ostates == old(self).cache.states@,
                        nc_s == nc@,
                        old(self).tree.spec_resolve(pv) == Some(best),
                        nc_s == old(self).tree.chain_of(best),
                        forall|l: int| 0 <= l < nc_s.len() ==> nc_s[l] < old(self).tree.len_spec(),
                        k <= j <= nc_s.len(),
                        k <= och.len(),
                        forall|j2: int| #[trigger] in_shared_prefix(och, nc_s, j2) <==> (0 <= j2
                            < k),
                        // chain built so far
                        self.chain@.len() == j,
                        forall|l: int| 0 <= l < k ==> #[trigger] self.chain@[l] == och[l],
                        forall|l: int|
                            0 <= l < j ==> (#[trigger] self.chain@[l]).route == nc_s[l],
                        forall|l: int|
                            k <= l < j ==> entered_entry_ok(
                                old(self).tree,
                                nc_s,
                                l,
                                self.chain@,
                                self.slots@,
                                actions@,
                                oslots.len() as int,
                            ),
                        forall|l: int|
                            k <= l < j ==> match old(self).tree.nodes@[#[trigger] nc_s[l] as int].module {
                                Some(m) => !(self.cache.states@[m as int] is Unloaded),
                                None => true,
                            },
                        // chain well-formedness pieces
                        forall|e1: int|
                            0 <= e1 < j ==> match (#[trigger] self.chain@[e1]).data.deferred {
                                Some(s) => s < self.slots@.len() && !self.slots@[s as int].cancelled,
                                None => true,
                            },
                        forall|e1: int, e2: int|
                            0 <= e1 < e2 < j ==> slots_disjoint(
                                #[trigger] self.chain@[e1],
                                #[trigger] self.chain@[e2],
                            ),
                        forall|l: int|
                            k <= l < j ==> match (#[trigger] self.chain@[l]).data.deferred {
                                Some(s) => oslots.len() <= s,
                                None => true,
                            },
                        // slots: the pre-entry prefix is untouched, new ones appended
                        slots_mid.len() == oslots.len(),
                        slots_mid.len() <= self.slots@.len(),
                        forall|s: int| 0 <= s < slots_mid.len() ==> #[trigger] self.slots@[s]
                            == slots_mid[s],
                        forall|s: int|
                            0 <= s < oslots.len() ==> (#[trigger] slots_mid[s]).state
                                == oslots[s].state && slots_mid[s].parse_step
                                == oslots[s].parse_step,
                        forall|s: int|
                            0 <= s < oslots.len() ==> ((#[trigger] slots_mid[s]).cancelled <==> (
                            oslots[s].cancelled || exited_owns(och, target, s))),
                        target == Some(nc_s),
                        // cache: monotone, never re-counting an issued load
                        forall|m: int|
                            0 <= m < old(self).cache.len_spec() ==> ((#[trigger] old(
                                self,
                            ).cache.states@[m]) is Unloaded || self.cache.states@[m] == old(
                                self,
                            ).cache.states@[m]),
                        forall|m: int|
                            0 <= m < old(self).cache.len_spec() && !((#[trigger] old(
                                self,
                            ).cache.states@[m]) is Unloaded) ==> self.cache.started@[m] == old(
                                self,
                            ).cache.started@[m],
                        forall|m: int|
                            0 <= m < old(self).cache.len_spec() && (#[trigger] old(
                                self,
                            ).cache.states@[m]) is Unloaded && !(self.cache.states@[m] is Unloaded)
                                ==> actions@.contains(Action::LoadModule { module: m as usize }),
                        // cache changes, actions and new slots all accounted
                        // to the routes entered so far
                        forall|m: int|
                            0 <= m < old(self).cache.len_spec() && (
                            #[trigger] self.cache.states@[m]) != ostates[m] ==> (
                            ostates[m] is Unloaded && self.cache.states@[m] is Loading && (exists|
                                l: int,
                            |
                                k <= l < j && old(self).tree.nodes@[(#[trigger] nc_s[l]) as int].module
                                    == Some(m as usize))),
                        forall|x: int|
                            0 <= x < actions@.len() ==> action_from_entered(
                                old(self).tree,
                                och,
                                nc_s,
                                self.chain@,
                                ostates,
                                #[trigger] actions@[x],
                            ),
                        forall|s: int|
                            oslots.len() <= s < self.slots@.len()
                                ==> #[trigger] slot_owned_by_entered(och, nc_s, self.chain@, s),
                    decreases nc_s.len() - j,
                {
                    let rt = nc[j];
                    let ghost actions_before = actions@;
                    let ghost slots_before = self.slots@;
                    let ghost chain_before = self.chain@;
                    let ghost cache_before = self.cache;
                    let data: RouteData = match &self.tree.nodes[rt].data {
                        DataPlan::NoData => RouteData { deferred: None },
                        DataPlan::FetchText { url } => {
                            let u = url.clone();
                            let (d, a) = issue_fetch(&mut self.slots, u, false);
                            actions.push(a);
                            d
                        },
                        DataPlan::FetchComments { url } => {
                            let u = url.clone();
                            let (d, a) = issue_fetch(&mut self.slots, u, true);
                            actions.push(a);
                            d
                        },
                    };
                    match self.tree.nodes[rt].module {
                        Some(m) => {
                            let outcome = self.cache.request(m);
                            match outcome {
                                RequestOutcome::Started => {
                                    actions.push(Action::LoadModule { module: m });
                                },
                                _ => {},
                            }
                        },
                        None => {},
                    }
                    self.chain.push(RouteEntry { route: rt, data });
                    j = j + 1;
                    proof {
                        assert forall|l: int|
                            k <= l < j implies entered_entry_ok(
                            old(self).tree,
                            nc_s,
                            l,
                            self.chain@,
                            self.slots@,
                            actions@,
                            oslots.len() as int,
                        ) by {
                            if l < j - 1 {
                                assert(entered_entry_ok(
                                    old(self).tree,
                                    nc_s,
                                    l,
                                    chain_before,
                                    slots_before,
                                    actions_before,
                                    oslots.len() as int,
                                ));
                                assert(self.chain@[l] == chain_before[l]);
                                lemma_entered_entry_grow(
                                    old(self).tree,
                                    nc_s,
                                    l,
                                    chain_before,
                                    self.chain@,
                                    slots_before,
                                    self.slots@,
                                    actions_before,
                                    actions@,
                                    oslots.len() as int,
                                );
                            } else {
                                let node = old(self).tree.nodes@[nc_s[l] as int];
                                assert(self.chain@[l] == RouteEntry { route: rt, data });
                                match node.data {
                                    DataPlan::NoData => {},
                                    DataPlan::FetchText { url } => {
                                        let s2 = data.deferred->Some_0;
                                        assert(actions@[actions_before.len() as int]
                                            == Action::FetchText { slot: s2, url });
                                        assert(actions@.contains(
                                            Action::FetchText { slot: s2, url },
                                        ));
                                    },
                                    DataPlan::FetchComments { url } => {
                                        let s2 = data.deferred->Some_0;
                                        assert(actions@[actions_before.len() as int]
                                            == Action::FetchComments { slot: s2, url });
                                        assert(actions@.contains(
                                            Action::FetchComments { slot: s2, url },
                                        ));
                                    },
                                }
                            }
                        }
                        assert forall|m: int|
                            0 <= m < old(self).cache.len_spec() && (#[trigger] old(
                                self,
                            ).cache.states@[m]) is Unloaded && !(self.cache.states@[m] is Unloaded)
                                implies actions@.contains(
                            Action::LoadModule { module: m as usize },
                        ) by {
                            if cache_before.states@[m] is Unloaded {
                                // the request of this iteration moved it, so it was pushed last
                                assert(actions@[actions@.len() - 1] == Action::LoadModule {
                                    module: m as usize,
                                });
                            } else {
                                assert(actions_before.contains(
                                    Action::LoadModule { module: m as usize },
                                ));
                                let x = choose|x: int|
                                    0 <= x < actions_before.len() && actions_before[x]
                                        == Action::LoadModule { module: m as usize };
                                assert(actions@[x] == Action::LoadModule { module: m as usize });
                                assert(actions@.contains(Action::LoadModule { module: m as usize }));
                            }
                        }
                        assert forall|m: int|
                            0 <= m < old(self).cache.len_spec() && (
                            #[trigger] self.cache.states@[m]) != ostates[m] implies (
                        ostates[m] is Unloaded && self.cache.states@[m] is Loading && (exists|
                            l: int,
                        |
                            k <= l < j && old(self).tree.nodes@[(#[trigger] nc_s[l]) as int].module
                                == Some(m as usize))) by {
                            if self.cache.states@[m] != cache_before.states@[m] {
                                // this iteration's request changed it
                                assert(old(self).tree.nodes@[nc_s[j - 1] as int].module == Some(
                                    m as usize,
                                ));
                            } else {
                                let l = choose|l: int|
                                    k <= l < j - 1 && old(self).tree.nodes@[(
                                    #[trigger] nc_s[l]) as int].module == Some(m as usize);
                                assert(k <= l < j);
                            }
                        }
                        assert forall|x: int|
                            0 <= x < actions@.len() implies action_from_entered(
                            old(self).tree,
                            och,
                            nc_s,
                            self.chain@,
                            ostates,
                            #[trigger] actions@[x],
                        ) by {
                            if x < actions_before.len() {
                                assert(actions@[x] == actions_before[x]);
                                assert(action_from_entered(
                                    old(self).tree,
                                    och,
                                    nc_s,
                                    chain_before,
                                    ostates,
                                    actions_before[x],
                                ));
                                lemma_action_accounting_grow(
                                    old(self).tree,
                                    och,
                                    nc_s,
                                    chain_before,
                                    self.chain@,
                                    ostates,
                                    actions@[x],
                                );
                            } else {
                                assert(!in_shared_prefix(och, nc_s, j - 1));
                                assert(self.chain@[j - 1].route == rt);
                                match actions@[x] {
                                    Action::LoadModule { module } => {
                                        assert(cache_before.states@[module as int] is Unloaded);
                                        assert(ostates[module as int] is Unloaded);
                                        assert(old(self).tree.nodes@[nc_s[j - 1] as int].module
                                            == Some(module));
                                        assert(module < old(self).cache.len_spec());
                                    },
                                    Action::FetchText { slot, url } => {
                                        assert(self.chain@[j - 1].data.deferred == Some(slot));
                                    },
                                    Action::FetchComments { slot, url } => {
                                        assert(self.chain@[j - 1].data.deferred == Some(slot));
                                    },
                                    Action::Deserialize { .. } => {
                                        assert(false);
                                    },
                                }
                            }
                        }
                        assert forall|s: int|
                            oslots.len() <= s < self.slots@.len() implies #[trigger] slot_owned_by_entered(
                            och,
                            nc_s,
                            self.chain@,
                            s,
                        ) by {
                            if s < slots_before.len() {
                                assert(slot_owned_by_entered(och, nc_s, chain_before, s));
                                lemma_slot_owner_grow(och, nc_s, chain_before, self.chain@, s);
                            } else {
                                assert(owns_slot(self.chain@[j - 1], s));
                                assert(!in_shared_prefix(och, nc_s, j - 1));
                            }
                        }
                    }
                }
                proof {
                    assert(final(self).wf()) by {
                        assert forall|e1: int|
                            0 <= e1 < self.chain@.len() implies match (
                        #[trigger] self.chain@[e1]).data.deferred {
                            Some(s) => s < self.slots@.len() && !self.slots@[s as int].cancelled,
                            None => true,
                        } by {
                            if e1 < k {
                                assert(self.chain@[e1] == och[e1]);
                            }
                        }
                    }
                    assert forall|m: int|
                        0 <= m < old(self).cache.len_spec() && (#[trigger] self.cache.states@[m])
                            != ostates[m] implies (ostates[m] is Unloaded
                        && self.cache.states@[m] is Loading && (exists|l: int|
                        0 <= l < nc_s.len() && !in_shared_prefix(och, nc_s, l) && old(
                            self,
                        ).tree.nodes@[(#[trigger] nc_s[l]) as int].module == Some(m as usize))) by {
                        let l = choose|l: int|
                            k <= l < j && old(self).tree.nodes@[(#[trigger] nc_s[l]) as int].module
                                == Some(m as usize);
                        assert(!in_shared_prefix(och, nc_s, l));
                    }
                }
                (NavOutcome::Matched, actions)
            },
        }
    }
}

impl Router {
    /// Reports the outcome of a view module's underlying load. The active
    /// chain and the deferred values are never touched; a report for a
    /// module not currently loading (including one already completed)
    /// changes nothing, so a completed outcome never reverts.
    pub fn note_module_loaded(&mut self, m: usize, ok: bool) -> (render: bool)
        requires
            old(self).wf(),
            m < old(self).cache.len_spec(),
        ensures
            final(self).wf(),
            final(self).tree == old(self).tree,
            final(self).chain == old(self).chain,
            final(self).slots == old(self).slots,
            final(self).cache.model() == old(self).cache.model().complete(m as int, ok),
            render == (old(self).cache.states@[m as int] is Loading),
    {
        self.cache.complete(m, ok)
    }

    /// Reports the outcome of the fetch feeding deferred value `s`.
    ///
    /// The active chain is never mutated here. A report for a cancelled
    /// cell — one whose owning route exited — is discarded entirely: no
    /// state changes and no render is requested. A cell that already
    /// resolved never reverts. A live pending cell becomes `Ready` or
    /// `Failed` and asks for a render, except that fetched text still
    /// owing the deserialization step stays pending and hands back the
    /// deserialization action instead.
    pub fn note_fetch_done(&mut self, s: usize, text: Option<String>) -> (r: FetchReaction)
        requires
            old(self).wf(),
            s < old(self).slots@.len(),
        ensures
            final(self).wf(),
            final(self).tree == old(self).tree,
            final(self).chain == old(self).chain,
            final(self).cache == old(self).cache,
            final(self).slots@.len() == old(self).slots@.len(),
            forall|x: int|
                0 <= x < old(self).slots@.len() && x != s ==> #[trigger] final(self).slots@[x]
                    == old(self).slots@[x],
            ({
                let sl = old(self).slots@[s as int];
                if sl.cancelled || !(sl.state is Pending) {
                    &&& final(self).slots@[s as int] == sl
                    &&& r.render == false
                    &&& r.follow_up is None
                } else {
                    match text {
                        Some(t) => if sl.parse_step {
                            &&& final(self).slots@[s as int] == sl
                            &&& r.render == false
                            &&& r.follow_up == Some(Action::Deserialize { slot: s, text: t })
                        } else {
                            &&& final(self).slots@[s as int] == DeferredSlot {
                                state: DeferredState::Ready(DataPayload::Text(t)),
                                cancelled: false,
                                parse_step: false,
                            }
                            &&& r.render == true
                            &&& r.follow_up is None
                        },
                        None => {
                            &&& final(self).slots@[s as int] == DeferredSlot {
                                state: DeferredState::Failed(LoadError::FetchFailed),
                                cancelled: false,
                                parse_step: sl.parse_step,
                            }
                            &&& r.render == true
                            &&& r.follow_up is None
                        },
                    }
                }
            }),
    {
        let cancelled = self.slots[s].cancelled;
        let pending = match self.slots[s].state {
            DeferredState::Pending => true,
            _ => false,
        };
        if cancelled || !pending {
            return FetchReaction { render: false, follow_up: None };
        }
        let parse = self.slots[s].parse_step;
        match text {
            Some(t) => {
                if parse {
                    FetchReaction {
                        render: false,
                        follow_up: Some(Action::Deserialize { slot: s, text: t }),
                    }
                } else {
                    let el = vec_index_mut(&mut self.slots, s);
                    el.state = DeferredState::Ready(DataPayload::Text(t));
                    FetchReaction { render: true, follow_up: None }
                }
            },
            None => {
                let el = vec_index_mut(&mut self.slots, s);
                el.state = DeferredState::Failed(LoadError::FetchFailed);
                FetchReaction { render: true, follow_up: None }
            },
        }
    }

    /// Reports the outcome of the deserialization step feeding deferred
    /// value `s`. As with a fetch report, the active chain is never
    /// mutated, a cancelled cell discards the report without a render, and
    /// a resolved cell never reverts.
    pub fn note_deserialize_done(&mut self, s: usize, comments: Option<Vec<Comment>>) -> (render:
        bool)
        requires
            old(self).wf(),
            s < old(self).slots@.len(),
        ensures
            final(self).wf(),
            final(self).tree == old(self).tree,
            final(self).chain == old(self).chain,
            final(self).cache == old(self).cache,
            final(self).slots@.len() == old(self).slots@.len(),
            forall|x: int|
                0 <= x < old(self).slots@.len() && x != s ==> #[trigger] final(self).slots@[x]
                    == old(self).slots@[x],
            ({
                let sl = old(self).slots@[s as int];
                if sl.cancelled || !(sl.state is Pending) {
                    final(self).slots@[s as int] == sl && render == false
                } else {
                    match comments {
                        Some(cs) => final(self).slots@[s as int] == DeferredSlot {
                            state: DeferredState::Ready(DataPayload::Comments(cs)),
                            cancelled: false,
                            parse_step: sl.parse_step,
                        } && render == true,
                        None => final(self).slots@[s as int] == DeferredSlot {
                            state: DeferredState::Failed(LoadError::DeserializeFailed),
                            cancelled: false,
                            parse_step: sl.parse_step,
                        } && render == true,
                    }
                }
            }),
    {
        let cancelled = self.slots[s].cancelled;
        let pending = match self.slots[s].state {
            DeferredState::Pending => true,
            _ => false,
        };
        if cancelled || !pending {
            return false;
        }
        let el = vec_index_mut(&mut self.slots, s);
        match comments {
            Some(cs) => {
                el.state = DeferredState::Ready(DataPayload::Comments(cs));
            },
            None => {
                el.state = DeferredState::Failed(LoadError::DeserializeFailed);
            },
        }
        true
    }
}

/// The chain a navigation resolves to, if any.
pub open spec fn spec_nav_target(t: RouteTree, path: Seq<Seq<char>>) -> Option<Seq<usize>> {
    match t.spec_resolve(path) {
        Some(i) => Some(t.chain_of(i)),
        None => None,
    }
}

/// Growing the chain, the slot table or the action batch preserves what an
/// already entered position promised.
proof fn lemma_entered_entry_grow(
    t: RouteTree,
    nc: Seq<usize>,
    j: int,
    ch1: Seq<RouteEntry>,
    ch2: Seq<RouteEntry>,
    slots1: Seq<DeferredSlot>,
    slots2: Seq<DeferredSlot>,
    a1: Seq<Action>,
    a2: Seq<Action>,
    fresh_from: int,
)
    requires
        0 <= j < ch1.len(),
        entered_entry_ok(t, nc, j, ch1, slots1, a1, fresh_from),
        ch2[j] == ch1[j],
        slots1.len() <= slots2.len(),
        forall|s: int| 0 <= s < slots1.len() ==> #[trigger] slots2[s] == slots1[s],
        forall|x: int| 0 <= x < a1.len() ==> #[trigger] a2[x] == a1[x],
        a1.len() <= a2.len(),
    ensures
        entered_entry_ok(t, nc, j, ch2, slots2, a2, fresh_from),
{
    let node = t.nodes@[nc[j] as int];
    match node.data {
        DataPlan::NoData => {},
        DataPlan::FetchText { url } => {
            let idx = choose|x: int| 0 <= x < a1.len() && a1[x] == Action::FetchText {
                slot: ch1[j].data.deferred->Some_0,
                url,
            };
            assert(a1.contains(Action::FetchText { slot: ch1[j].data.deferred->Some_0, url }));
            let x = choose|x: int|
                0 <= x < a1.len() && a1[x] == Action::FetchText {
                    slot: ch1[j].data.deferred->Some_0,
                    url,
                };
            assert(a2[x] == a1[x]);
            assert(a2.contains(Action::FetchText { slot: ch1[j].data.deferred->Some_0, url }));
        },
        DataPlan::FetchComments { url } => {
            assert(a1.contains(Action::FetchComments { slot: ch1[j].data.deferred->Some_0, url }));
            let x = choose|x: int|
                0 <= x < a1.len() && a1[x] == Action::FetchComments {
                    slot: ch1[j].data.deferred->Some_0,
                    url,
                };
            assert(a2[x] == a1[x]);
            assert(a2.contains(Action::FetchComments { slot: ch1[j].data.deferred->Some_0, url }));
        },
    }
}

} // verus!
