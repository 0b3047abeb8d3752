//! The rendering rule: suspense regions over deferred values, and the
//! lines the active chain displays.
//!
//! A suspense region shows its fallback while any of its deferred values
//! is pending, its content once all are ready, and an error state as soon
//! as any has failed — the first failure, in dependency order, wins.

use vstd::prelude::*;
use vstd::string::StringExecFns;
use crate::comments::{comment_lines, spec_comment_lines};
use crate::deferred::{DataPayload, DeferredSlot, DeferredState, LoadError};
use crate::modules::ModuleState;
use crate::nav::Router;

verus! {

/// What a suspense region shows.
#[derive(Clone, Copy, Debug, PartialEq, Eq, Structural)]
pub enum SuspenseDecision {
    /// Some wrapped deferred value is still pending: show the fallback.
    Fallback,
    /// All wrapped deferred values are ready: show the real content.
    Content,
    /// A wrapped deferred value failed: show this error, the first one.
    Failed(LoadError),
}

/// The error of the first failed dependency, in order, if any.
pub open spec fn spec_first_failure(slots: Seq<DeferredSlot>, deps: Seq<usize>) -> Option<
    LoadError,
>
    decreases deps.len(),
{
    if deps.len() == 0 {
        None
    } else {
        match slots[deps[0] as int].state {
            DeferredState::Failed(e) => Some(e),
            _ => spec_first_failure(slots, deps.drop_first()),
        }
    }
}

/// Whether any dependency is still pending.
pub open spec fn spec_any_pending(slots: Seq<DeferredSlot>, deps: Seq<usize>) -> bool
    decreases deps.len(),
{
    if deps.len() == 0 {
        false
    } else {
        slots[deps[0] as int].state is Pending || spec_any_pending(slots, deps.drop_first())
    }
}

/// The suspense rule: fail fast on the first failure, otherwise fall back
/// while anything is pending, otherwise show content.
pub open spec fn spec_suspense(slots: Seq<DeferredSlot>, deps: Seq<usize>) -> SuspenseDecision {
    match spec_first_failure(slots, deps) {
        Some(e) => SuspenseDecision::Failed(e),
        None => if spec_any_pending(slots, deps) {
            SuspenseDecision::Fallback
        } else {
            SuspenseDecision::Content
        },
    }
}

/// Decides what a suspense region over the deferred values `deps` shows.
pub fn suspense_decision(slots: &Vec<DeferredSlot>, deps: &Vec<usize>) -> (r: SuspenseDecision)
    requires
        forall|l: int| 0 <= l < deps@.len() ==> #[trigger] deps@[l] < slots@.len(),
    ensures
        r == spec_suspense(slots@, deps@),
{
    let mut l: usize = 0;
    let mut pending = false;
    proof {
        assert(deps@.skip(0) =~= deps@);
    }
    while l < deps.len()
        invariant
            forall|x: int| 0 <= x < deps@.len() ==> #[trigger] deps@[x] < slots@.len(),
            l <= deps@.len(),
            spec_first_failure(slots@, deps@) == spec_first_failure(slots@, deps@.skip(l as int)),
            spec_any_pending(slots@, deps@) == (pending || spec_any_pending(
                slots@,
                deps@.skip(l as int),
            )),
        decreases deps@.len() - l,
    {
        proof {
            assert(deps@.skip(l as int)[0] == deps@[l as int]);
            assert(deps@.skip(l as int).drop_first() =~= deps@.skip(l as int + 1));
        }
        let s = deps[l];
        match &slots[s].state {
            DeferredState::Failed(e) => {
                return SuspenseDecision::Failed(*e);
            },
            DeferredState::Pending => {
                pending = true;
            },
            DeferredState::Ready(_) => {},
        }
        l = l + 1;
    }
    proof {
        assert(deps@.skip(l as int) =~= Seq::<usize>::empty());
    }
    if pending {
        SuspenseDecision::Fallback
    } else {
        SuspenseDecision::Content
    }
}

/// For a region over a single deferred value, the rule reads directly off
/// that value's state.
pub proof fn lemma_suspense_single(slots: Seq<DeferredSlot>, s: usize)
    requires
        s < slots.len(),
    ensures
        match slots[s as int].state {
            DeferredState::Pending => spec_suspense(slots, seq![s]) is Fallback,
            DeferredState::Ready(_) => spec_suspense(slots, seq![s]) is Content,
            DeferredState::Failed(e) => spec_suspense(slots, seq![s]) == SuspenseDecision::Failed(
                e,
            ),
        },
{
    let deps = seq![s];
    assert(deps[0] == s);
    assert(deps.drop_first() =~= Seq::<usize>::empty());
    assert(spec_first_failure(slots, deps.drop_first()) is None);
    assert(!spec_any_pending(slots, deps.drop_first()));
}

/// The error-state line of a failed deferred value.
pub open spec fn spec_error_line(e: LoadError) -> Seq<char> {
    match e {
        LoadError::FetchFailed => "Error: data fetch failed."@,
        LoadError::DeserializeFailed => "Error: deserialization failed."@,
    }
}

/// Formats the error state of a failed deferred value.
pub fn error_line(e: &LoadError) -> (r: String)
    ensures
        r@ == spec_error_line(*e),
{
    match e {
        LoadError::FetchFailed => String::from_str("Error: data fetch failed."),
        LoadError::DeserializeFailed => String::from_str("Error: deserialization failed."),
    }
}

/// The lines a suspense region over one deferred value shows: the fallback
/// while pending, the payload once ready, the error state after a failure.
pub open spec fn spec_suspense_lines(sl: DeferredSlot) -> Seq<Seq<char>> {
    match sl.state {
        DeferredState::Pending => seq!["Loading..."@],
        DeferredState::Ready(DataPayload::Text(t)) => seq![t@],
        DeferredState::Ready(DataPayload::Comments(cs)) => spec_comment_lines(cs@),
        DeferredState::Failed(e) => seq![spec_error_line(e)],
    }
}

/// Renders a suspense region over one deferred value.
pub fn suspense_lines(sl: &DeferredSlot) -> (r: Vec<String>)
    ensures
        r.deep_view() == spec_suspense_lines(*sl),
{
    match &sl.state {
        DeferredState::Pending => {
            let mut v: Vec<String> = Vec::new();
            v.push(String::from_str("Loading..."));
            proof {
                assert(v.deep_view() =~= spec_suspense_lines(*sl));
            }
            v
        },
        DeferredState::Ready(DataPayload::Text(t)) => {
            let mut v: Vec<String> = Vec::new();
            v.push(t.clone());
            proof {
                assert(v.deep_view() =~= spec_suspense_lines(*sl));
            }
            v
        },
        DeferredState::Ready(DataPayload::Comments(cs)) => {
            let v = comment_lines(cs);
            v
        },
        DeferredState::Failed(e) => {
            let mut v: Vec<String> = Vec::new();
            v.push(error_line(e));
            proof {
                assert(v.deep_view() =~= spec_suspense_lines(*sl));
            }
            v
        },
    }
}

/// The error-state line of a route whose view module failed to load.
pub open spec fn spec_module_error_line() -> Seq<char> {
    "Error: view module failed to load."@
}

fn module_error_line() -> (r: String)
    ensures
        r@ == spec_module_error_line(),
{
    String::from_str("Error: view module failed to load.")
}

/// Whether every active route's view module has completed loading, one
/// way or the other. Until then the previous content stays on screen.
pub open spec fn spec_modules_ready(r: Router) -> bool {
    forall|j: int|
        0 <= j < r.chain@.len() ==> match r.tree.nodes@[(
        #[trigger] r.chain@[j]).route as int].module {
            Some(m) => r.cache.states@[m as int] is Loaded || r.cache.states@[m as int] is Failed,
            None => true,
        }
}

/// The lines the active chain shows from position `j` on: each route its
/// static line, then its suspense region, then — through its outlet — its
/// child's lines; a route whose module failed shows the error state
/// instead, without its children, while everything above it stays.
pub open spec fn spec_render_from(r: Router, j: int) -> Seq<Seq<char>>
    decreases r.chain@.len() - j,
{
    if j < 0 || j >= r.chain@.len() {
        Seq::empty()
    } else {
        let node = r.tree.nodes@[r.chain@[j].route as int];
        let failed = match node.module {
            Some(m) => r.cache.states@[m as int] is Failed,
            None => false,
        };
        if failed {
            seq![spec_module_error_line()]
        } else {
            seq![node.text@] + (match r.chain@[j].data.deferred {
                Some(s) => spec_suspense_lines(r.slots@[s as int]),
                None => Seq::empty(),
            }) + (if node.outlet {
                spec_render_from(r, j + 1)
            } else {
                Seq::empty()
            })
        }
    }
}

fn render_from(r: &Router, j: usize) -> (out: Vec<String>)
    requires
        r.wf(),
        j <= r.chain@.len(),
    ensures
        out.deep_view() == spec_render_from(*r, j as int),
    decreases r.chain@.len() - j,
{
    let mut out: Vec<String> = Vec::new();
    if j == r.chain.len() {
        proof {
            assert(out.deep_view() =~= spec_render_from(*r, j as int));
        }
        return out;
    }
    let rt = r.chain[j].route;
    let failed = match r.tree.nodes[rt].module {
        Some(m) => match r.cache.states[m] {
            ModuleState::Failed => true,
            _ => false,
        },
        None => false,
    };
    if failed {
        out.push(module_error_line());
        proof {
            assert(out.deep_view() =~= spec_render_from(*r, j as int));
        }
        return out;
    }
    out.push(r.tree.nodes[rt].text.clone());
    match r.chain[j].data.deferred {
        Some(s) => {
            let mut extra = suspense_lines(&r.slots[s]);
            out.append(&mut extra);
        },
        None => {},
    }
    if r.tree.nodes[rt].outlet {
        let mut rest = render_from(r, j + 1);
        out.append(&mut rest);
    }
    proof {
        assert(out.deep_view() =~= spec_render_from(*r, j as int));
    }
    out
}

/// What the host shows after an update.
#[derive(Clone, Debug)]
pub enum RenderOutcome {
    /// No route matched: the host's own not-found fallback is shown.
    NoRoute,
    /// Some entered view module is still loading; the previous content
    /// stays until the whole new chain can render.
    Waiting,
    /// The active chain's lines.
    Content(Vec<String>),
}

/// Renders the router's current state: the not-found fallback without an
/// active chain, nothing new while a view module of the chain is still
/// loading, and otherwise the chain's lines.
pub fn render(r: &Router) -> (out: RenderOutcome)
    requires
        r.wf(),
    ensures
        r.chain@.len() == 0 ==> out is NoRoute,
        r.chain@.len() > 0 && !spec_modules_ready(*r) ==> out is Waiting,
        r.chain@.len() > 0 && spec_modules_ready(*r) ==> (out matches RenderOutcome::Content(lines)
            && lines.deep_view() == spec_render_from(*r, 0)),
{
    if r.chain.len() == 0 {
        return RenderOutcome::NoRoute;
    }
    let mut j: usize = 0;
    while j < r.chain.len()
        invariant
            r.wf(),
            j <= r.chain@.len(),
            forall|l: int|
                0 <= l < j ==> match r.tree.nodes@[(
                #[trigger] r.chain@[l]).route as int].module {
                    Some(m) => r.cache.states@[m as int] is Loaded || r.cache.states@[m
                        as int] is Failed,
                    None => true,
                },
        decreases r.chain@.len() - j,
    {
        let rt = r.chain[j].route;
        match r.tree.nodes[rt].module {
            Some(m) => {
                match r.cache.states[m] {
                    ModuleState::Loaded => {},
                    ModuleState::Failed => {},
                    _ => {
                        return RenderOutcome::Waiting;
                    },
                }
            },
            None => {},
        }
        j = j + 1;
    }
    RenderOutcome::Content(render_from(r, 0))
}

} // verus!
