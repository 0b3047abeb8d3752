//! The demonstration route table and its views.
//!
//! Three top-level routes mirror the three ways a route can load: an eager
//! view with no data, a lazy parent with a lazy child whose data is a text
//! fetch, and a lazy view whose data is a fetch followed by a lazily run
//! deserialization step. Each view type supplies its route-data factory
//! (`data`) and its view body (`view`); the table wires them into a tree.

use vstd::prelude::*;
use vstd::string::StringExecFns;
use crate::deferred::{DeferredSlot, RouteData};
use crate::nav::{issue_fetch, Action, Router};
use crate::render::{spec_suspense_lines, suspense_lines};
use crate::routes::{register, DataPlan, PathSegment, RouteNode, RouteTree};

verus! {

/// The eager route's view: shipped with the main bundle, it renders at
/// once, with no module load and no data.
#[allow(non_snake_case)]
pub fn ViewA() -> (r: Vec<String>)
    ensures
        r.deep_view() == seq!["View A"@],
{
    let mut v: Vec<String> = Vec::new();
    v.push(String::from_str("View A"));
    proof {
        assert(v.deep_view() =~= seq!["View A"@]);
    }
    v
}

/// The lazy parent route: no data of its own; its view wraps the matched
/// child through an outlet.
#[derive(Clone, Copy, Debug)]
pub struct ViewB;

/// The lazy child route under `ViewB`: its data is a deferred text fetch.
#[derive(Clone, Copy, Debug)]
pub struct ViewBChild;

/// The lazy comment-list route: its data is a fetch whose text must still
/// pass the (lazily run) deserialization step.
#[derive(Clone, Copy, Debug)]
pub struct ViewC;

/// The address the child route's text is fetched from.
pub fn todo_url() -> (r: String)
    ensures
        r@ == "https://jsonplaceholder.typicode.com/todos/1"@,
{
    String::from_str("https://jsonplaceholder.typicode.com/todos/1")
}

/// The address the comment list is fetched from.
pub fn comments_url() -> (r: String)
    ensures
        r@ == "https://jsonplaceholder.typicode.com/comments"@,
{
    String::from_str("https://jsonplaceholder.typicode.com/comments")
}

impl ViewB {
    /// The route-data factory: this parent needs no asynchronous data, so
    /// entering it defers nothing.
    pub fn data() -> (r: RouteData)
        ensures
            r.deferred is None,
    {
        RouteData { deferred: None }
    }

    /// The view body: its own line, then the matched child's lines.
    pub fn view(outlet: Vec<String>) -> (r: Vec<String>)
        ensures
            r.deep_view() == seq!["View B"@] + outlet.deep_view(),
    {
        let ghost outlet0 = outlet.deep_view();
        let mut v: Vec<String> = Vec::new();
        v.push(String::from_str("View B"));
        let mut rest = outlet;
        v.append(&mut rest);
        proof {
            assert(v.deep_view() =~= seq!["View B"@] + outlet0);
        }
        v
    }
}

impl ViewBChild {
    /// The route-data factory: issues the text fetch as a deferred value,
    /// in the same turn as the route's module request and without awaiting
    /// either — the data fetch and the code fetch run concurrently.
    pub fn data(slots: &mut Vec<DeferredSlot>) -> (r: (RouteData, Action))
        ensures
            final(slots)@ == old(slots)@.push(DeferredSlot::spec_pending(false)),
            (r.0.deferred matches Some(s) && s == old(slots)@.len()),
            (r.1 matches Action::FetchText { slot, url } && Some(slot) == r.0.deferred && url@
                == "https://jsonplaceholder.typicode.com/todos/1"@),
    {
        issue_fetch(slots, todo_url(), false)
    }

    /// The view body: its own line, then a suspense region over the
    /// fetched text, showing the fallback until the text arrives.
    pub fn view(slot: &DeferredSlot) -> (r: Vec<String>)
        ensures
            r.deep_view() == seq!["Nested Child"@] + spec_suspense_lines(*slot),
    {
        let mut v: Vec<String> = Vec::new();
        v.push(String::from_str("Nested Child"));
        let mut rest = suspense_lines(slot);
        v.append(&mut rest);
        proof {
            assert(v.deep_view() =~= seq!["Nested Child"@] + spec_suspense_lines(*slot));
        }
        v
    }
}

impl ViewC {
    /// The route-data factory: issues the comment fetch as a deferred
    /// value whose text must still pass the deserialization step.
    pub fn data(slots: &mut Vec<DeferredSlot>) -> (r: (RouteData, Action))
        ensures
            final(slots)@ == old(slots)@.push(DeferredSlot::spec_pending(true)),
            (r.0.deferred matches Some(s) && s == old(slots)@.len()),
            (r.1 matches Action::FetchComments { slot, url } && Some(slot) == r.0.deferred && url@
                == "https://jsonplaceholder.typicode.com/comments"@),
    {
        issue_fetch(slots, comments_url(), true)
    }

    /// The view body: its own line, then a suspense region over the parsed
    /// comment list.
    pub fn view(slot: &DeferredSlot) -> (r: Vec<String>)
        ensures
            r.deep_view() == seq!["Nested Child"@] + spec_suspense_lines(*slot),
    {
        let mut v: Vec<String> = Vec::new();
        v.push(String::from_str("Nested Child"));
        let mut rest = suspense_lines(slot);
        v.append(&mut rest);
        proof {
            assert(v.deep_view() =~= seq!["Nested Child"@] + spec_suspense_lines(*slot));
        }
        v
    }
}

/// The identifier of `ViewB`'s module.
pub const MODULE_VIEW_B: usize = 0;

/// The identifier of `ViewBChild`'s module.
pub const MODULE_VIEW_B_CHILD: usize = 1;

/// The identifier of `ViewC`'s module.
pub const MODULE_VIEW_C: usize = 2;

/// What the demonstration table holds, node by node: `ViewA` eager on the
/// empty pattern; `ViewB` as a pathless lazy parent; `ViewBChild` under it
/// on segment `b`, with its deferred text fetch; `ViewC` on segment `c`,
/// with its deferred fetch-then-deserialize comment load.
pub open spec fn demo_table_ok(nodes: Seq<RouteNode>) -> bool {
    &&& nodes.len() == 4
    &&& (nodes[0].segment matches PathSegment::Fixed(s) && s@ == ""@ && s@.len() == 0)
    &&& nodes[0].parent is None
    &&& nodes[0].module is None
    &&& nodes[0].text@ == "View A"@
    &&& nodes[0].outlet == false
    &&& nodes[0].data is NoData
    &&& (nodes[1].segment matches PathSegment::Fixed(s) && s@ == ""@ && s@.len() == 0)
    &&& nodes[1].parent is None
    &&& nodes[1].module == Some(MODULE_VIEW_B)
    &&& nodes[1].text@ == "View B"@
    &&& nodes[1].outlet == true
    &&& nodes[1].data is NoData
    &&& (nodes[2].segment matches PathSegment::Fixed(s) && s@ == "b"@)
    &&& nodes[2].parent == Some(1usize)
    &&& nodes[2].module == Some(MODULE_VIEW_B_CHILD)
    &&& nodes[2].text@ == "Nested Child"@
    &&& nodes[2].outlet == false
    &&& (nodes[2].data matches DataPlan::FetchText { url } && url@
        == "https://jsonplaceholder.typicode.com/todos/1"@)
    &&& (nodes[3].segment matches PathSegment::Fixed(s) && s@ == "c"@)
    &&& nodes[3].parent is None
    &&& nodes[3].module == Some(MODULE_VIEW_C)
    &&& nodes[3].text@ == "Nested Child"@
    &&& nodes[3].outlet == false
    &&& (nodes[3].data matches DataPlan::FetchComments { url } && url@
        == "https://jsonplaceholder.typicode.com/comments"@)
}

/// Builds the demonstration router: `ViewA` on the root path, `ViewB` as a
/// pathless lazy parent with `ViewBChild` on `b`, and `ViewC` on `c`, with
/// one module identifier per lazy view.
pub fn demo_router() -> (r: Router)
    ensures
        r.wf(),
        r.chain@.len() == 0,
        r.slots@.len() == 0,
        demo_table_ok(r.tree.nodes@),
        r.cache.len_spec() == 3,
        forall|m: int| 0 <= m < 3 ==> r.cache.states@[m] is Unloaded,
{
    let mut tree = RouteTree { nodes: Vec::new() };
    register(
        &mut tree,
        RouteNode {
            segment: PathSegment::Fixed(String::from_str("")),
            parent: None,
            module: None,
            text: String::from_str("View A"),
            outlet: false,
            data: DataPlan::NoData,
        },
    );
    let parent_b = register(
        &mut tree,
        RouteNode {
            segment: PathSegment::Fixed(String::from_str("")),
            parent: None,
            module: Some(MODULE_VIEW_B),
            text: String::from_str("View B"),
            outlet: true,
            data: DataPlan::NoData,
        },
    );
    register(
        &mut tree,
        RouteNode {
            segment: PathSegment::Fixed(String::from_str("b")),
            parent: Some(parent_b),
            module: Some(MODULE_VIEW_B_CHILD),
            text: String::from_str("Nested Child"),
            outlet: false,
            data: DataPlan::FetchText { url: todo_url() },
        },
    );
    register(
        &mut tree,
        RouteNode {
            segment: PathSegment::Fixed(String::from_str("c")),
            parent: None,
            module: Some(MODULE_VIEW_C),
            text: String::from_str("Nested Child"),
            outlet: false,
            data: DataPlan::FetchComments { url: comments_url() },
        },
    );
    proof {
        reveal_strlit("");
        assert(demo_table_ok(tree.nodes@));
        assert(forall|i: int|
            0 <= i < tree.nodes@.len() ==> match (#[trigger] tree.nodes@[i]).module {
                Some(m) => m < 3,
                None => true,
            });
    }
    Router::new(tree, 3)
}

} // verus!
