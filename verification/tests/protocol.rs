use lazy_routes::deferred::{DeferredSlot, DeferredState, LoadError};
use lazy_routes::modules::{ModuleCache, ModuleState, RequestOutcome};
use lazy_routes::nav::{Action, NavOutcome, Router};
use lazy_routes::render::{render, suspense_decision, RenderOutcome, SuspenseDecision};
use lazy_routes::routes::{resolve, DataPlan, PathSegment, RouteNode, RouteTree};
use lazy_routes::views::demo_router;

fn segs(parts: &[&str]) -> Vec<String> {
    parts.iter().map(|p| p.to_string()).collect()
}

fn chain_routes(r: &Router) -> Vec<usize> {
    r.chain.iter().map(|e| e.route).collect()
}

fn has_load(actions: &[Action], m: usize) -> bool {
    actions
        .iter()
        .any(|a| matches!(a, Action::LoadModule { module } if *module == m))
}

fn fetch_slot(actions: &[Action]) -> Option<usize> {
    actions.iter().find_map(|a| match a {
        Action::FetchText { slot, .. } => Some(*slot),
        Action::FetchComments { slot, .. } => Some(*slot),
        _ => None,
    })
}

#[test]
fn resolve_root_matches_first_registered_route() {
    let r = demo_router();
    let chain = resolve(&r.tree, &segs(&[])).expect("root must match");
    assert_eq!(chain, vec![0]);
}

#[test]
fn resolve_nested_path_matches_parent_and_child() {
    let r = demo_router();
    let chain = resolve(&r.tree, &segs(&["b"])).expect("/b must match");
    assert_eq!(chain, vec![1, 2]);
}

#[test]
fn resolve_unknown_path_matches_nothing() {
    let r = demo_router();
    assert!(resolve(&r.tree, &segs(&["nope"])).is_none());
    assert!(resolve(&r.tree, &segs(&["b", "deep"])).is_none());
}

#[test]
fn resolve_param_segment_matches_any_one_segment() {
    let tree = RouteTree {
        nodes: vec![
            RouteNode {
                segment: PathSegment::Fixed("users".to_string()),
                parent: None,
                module: None,
                text: "Users".to_string(),
                outlet: true,
                data: DataPlan::NoData,
            },
            RouteNode {
                segment: PathSegment::Param,
                parent: Some(0),
                module: None,
                text: "User".to_string(),
                outlet: false,
                data: DataPlan::NoData,
            },
        ],
    };
    assert_eq!(resolve(&tree, &segs(&["users", "42"])), Some(vec![0, 1]));
    assert_eq!(resolve(&tree, &segs(&["users"])), Some(vec![0]));
    assert!(resolve(&tree, &segs(&["teams", "42"])).is_none());
}

#[test]
fn module_requests_collapse_into_one_load() {
    let mut cache = ModuleCache::new(1);
    assert_eq!(cache.request(0), RequestOutcome::Started);
    assert_eq!(cache.request(0), RequestOutcome::Joined);
    assert_eq!(cache.request(0), RequestOutcome::Joined);
    assert_eq!(cache.started[0], 1);
    assert!(cache.complete(0, true));
    assert_eq!(cache.request(0), RequestOutcome::AlreadyLoaded);
    assert_eq!(cache.started[0], 1);
    assert_eq!(cache.states[0], ModuleState::Loaded);
}

#[test]
fn completed_module_outcome_never_reverts() {
    let mut cache = ModuleCache::new(1);
    cache.request(0);
    cache.complete(0, false);
    assert_eq!(cache.states[0], ModuleState::Failed);
    // a late or repeated completion report changes nothing
    assert!(!cache.complete(0, true));
    assert_eq!(cache.states[0], ModuleState::Failed);
    assert_eq!(cache.request(0), RequestOutcome::AlreadyFailed);
    assert_eq!(cache.started[0], 1);
}

#[test]
fn navigation_dedups_module_loads_across_visits() {
    let mut r = demo_router();
    let (_, first) = r.navigate(&segs(&["b"]));
    assert!(has_load(&first, 0));
    assert!(has_load(&first, 1));
    let (_, away) = r.navigate(&segs(&[]));
    assert!(away.is_empty());
    // the loads of /b are still in flight; re-entering must not re-issue them
    let (_, second) = r.navigate(&segs(&["b"]));
    assert!(!has_load(&second, 0));
    assert!(!has_load(&second, 1));
    assert_eq!(r.cache.started, vec![1, 1, 0]);
}

#[test]
fn entering_nested_routes_issues_all_loads_in_one_batch() {
    let mut r = demo_router();
    let (outcome, actions) = r.navigate(&segs(&["b"]));
    assert_eq!(outcome, NavOutcome::Matched);
    // parent module, child module and child data fetch all requested in the
    // same synchronous turn, before anything is awaited
    assert!(has_load(&actions, 0));
    assert!(has_load(&actions, 1));
    let slot = fetch_slot(&actions).expect("child data fetch issued");
    assert_eq!(slot, 0);
    assert!(matches!(
        r.slots[slot].state,
        DeferredState::Pending
    ));
}

#[test]
fn renavigation_to_same_path_reuses_everything() {
    let mut r = demo_router();
    let (_, first) = r.navigate(&segs(&["b"]));
    assert_eq!(first.len(), 3);
    let started = r.cache.started.clone();
    let slot = r.chain[1].data.deferred.expect("child entry owns its fetch");
    let (outcome, again) = r.navigate(&segs(&["b"]));
    assert_eq!(outcome, NavOutcome::Matched);
    // shared prefix (here: the whole chain): nothing reloaded, nothing issued
    assert!(again.is_empty());
    assert_eq!(r.cache.started, started);
    assert_eq!(chain_routes(&r), vec![1, 2]);
    assert_eq!(r.chain[1].data.deferred, Some(slot));
    assert!(!r.slots[slot].cancelled);
}

#[test]
fn partial_prefix_keeps_ancestor_and_swaps_leaf() {
    let tree = RouteTree {
        nodes: vec![
            RouteNode {
                segment: PathSegment::Fixed("shared".to_string()),
                parent: None,
                module: Some(0),
                text: "Shared".to_string(),
                outlet: true,
                data: DataPlan::NoData,
            },
            RouteNode {
                segment: PathSegment::Fixed("one".to_string()),
                parent: Some(0),
                module: Some(1),
                text: "One".to_string(),
                outlet: false,
                data: DataPlan::FetchText {
                    url: "https://example.test/one".to_string(),
                },
            },
            RouteNode {
                segment: PathSegment::Fixed("two".to_string()),
                parent: Some(0),
                module: Some(2),
                text: "Two".to_string(),
                outlet: false,
                data: DataPlan::NoData,
            },
        ],
    };
    let mut r = Router::new(tree, 3);
    let (_, first) = r.navigate(&segs(&["shared", "one"]));
    assert!(has_load(&first, 0));
    assert!(has_load(&first, 1));
    let slot = r.chain[1].data.deferred.unwrap();
    let ancestor_entry_module_started = r.cache.started[0];
    let (_, second) = r.navigate(&segs(&["shared", "two"]));
    assert_eq!(chain_routes(&r), vec![0, 2]);
    // the shared ancestor is reused: no load re-issued for it
    assert!(!has_load(&second, 0));
    assert_eq!(r.cache.started[0], ancestor_entry_module_started);
    // only the leaf that changed is torn down and built up
    assert!(has_load(&second, 2));
    assert!(r.slots[slot].cancelled);
}

#[test]
fn navigating_away_cancels_exited_deferred_values() {
    let mut r = demo_router();
    r.navigate(&segs(&["b"]));
    let slot = r.chain[1].data.deferred.unwrap();
    assert!(!r.slots[slot].cancelled);
    r.navigate(&segs(&[]));
    assert_eq!(chain_routes(&r), vec![0]);
    assert!(r.slots[slot].cancelled);
}

#[test]
fn late_resolution_of_cancelled_value_mutates_nothing() {
    let mut r = demo_router();
    r.navigate(&segs(&["b"]));
    let slot = r.chain[1].data.deferred.unwrap();
    r.navigate(&segs(&[]));
    let routes_before = chain_routes(&r);
    // the fetch of the exited route finally lands
    let reaction = r.note_fetch_done(slot, Some("too late".to_string()));
    assert!(!reaction.render);
    assert!(reaction.follow_up.is_none());
    assert_eq!(chain_routes(&r), routes_before);
    assert!(matches!(r.slots[slot].state, DeferredState::Pending));
    match render(&r) {
        RenderOutcome::Content(lines) => assert_eq!(lines, vec!["View A".to_string()]),
        other => panic!("expected content, got {:?}", other),
    }
}

#[test]
fn resolved_deferred_value_never_reverts() {
    let mut r = demo_router();
    r.navigate(&segs(&["b"]));
    let slot = r.chain[1].data.deferred.unwrap();
    let reaction = r.note_fetch_done(slot, Some("first".to_string()));
    assert!(reaction.render);
    let again = r.note_fetch_done(slot, Some("second".to_string()));
    assert!(!again.render);
    match &r.slots[slot].state {
        DeferredState::Ready(lazy_routes::deferred::DataPayload::Text(t)) => {
            assert_eq!(t, "first")
        },
        other => panic!("expected ready text, got {:?}", other),
    }
}

#[test]
fn unknown_path_falls_back_and_exits_all_routes() {
    let mut r = demo_router();
    r.navigate(&segs(&["b"]));
    let slot = r.chain[1].data.deferred.unwrap();
    let (outcome, actions) = r.navigate(&segs(&["missing"]));
    assert_eq!(outcome, NavOutcome::NotFound);
    assert!(actions.is_empty());
    assert!(chain_routes(&r).is_empty());
    assert!(r.slots[slot].cancelled);
    assert!(matches!(render(&r), RenderOutcome::NoRoute));
}

#[test]
fn suspense_shows_fallback_while_any_value_pends() {
    let slots = vec![
        DeferredSlot {
            state: DeferredState::Ready(lazy_routes::deferred::DataPayload::Text(
                "done".to_string(),
            )),
            cancelled: false,
            parse_step: false,
        },
        DeferredSlot {
            state: DeferredState::Pending,
            cancelled: false,
            parse_step: false,
        },
    ];
    assert_eq!(
        suspense_decision(&slots, &vec![0, 1]),
        SuspenseDecision::Fallback
    );
    assert_eq!(
        suspense_decision(&slots, &vec![0]),
        SuspenseDecision::Content
    );
}

#[test]
fn suspense_fails_fast_and_first_failure_wins() {
    let slots = vec![
        DeferredSlot {
            state: DeferredState::Pending,
            cancelled: false,
            parse_step: false,
        },
        DeferredSlot {
            state: DeferredState::Failed(LoadError::FetchFailed),
            cancelled: false,
            parse_step: false,
        },
        DeferredSlot {
            state: DeferredState::Failed(LoadError::DeserializeFailed),
            cancelled: false,
            parse_step: false,
        },
    ];
    // a failure decides even while another value is still pending, and the
    // first failed dependency supplies the error
    assert_eq!(
        suspense_decision(&slots, &vec![0, 1, 2]),
        SuspenseDecision::Failed(LoadError::FetchFailed)
    );
    assert_eq!(
        suspense_decision(&slots, &vec![2, 1, 0]),
        SuspenseDecision::Failed(LoadError::DeserializeFailed)
    );
}
