use lazy_routes::comments::{comment_line, decimal, Comment};
use lazy_routes::deferred::{DeferredSlot, DeferredState};
use lazy_routes::nav::{Action, NavOutcome, Router};
use lazy_routes::render::{render, RenderOutcome};
use lazy_routes::views::{demo_router, ViewA, ViewB, ViewBChild, ViewC};

fn path(parts: &[&str]) -> Vec<String> {
    parts.iter().map(|p| p.to_string()).collect()
}

fn content(r: &Router) -> Vec<String> {
    match render(r) {
        RenderOutcome::Content(lines) => lines,
        other => panic!("expected content, got {:?}", other),
    }
}

fn comment(name: &str, body: &str) -> Comment {
    Comment {
        post_id: 1,
        id: 1,
        name: name.to_string(),
        email: "commenter@example.com".to_string(),
        body: body.to_string(),
    }
}

#[test]
fn root_renders_view_a_immediately() {
    let mut r = demo_router();
    let (outcome, actions) = r.navigate(&path(&[]));
    assert_eq!(outcome, NavOutcome::Matched);
    // eager route: no module to load, no data to fetch
    assert!(actions.is_empty());
    assert_eq!(content(&r), vec!["View A".to_string()]);
}

#[test]
fn nested_lazy_routes_load_concurrently_then_render() {
    let mut r = demo_router();
    let (outcome, actions) = r.navigate(&path(&["b"]));
    assert_eq!(outcome, NavOutcome::Matched);
    // parent code, child code and child data all requested in one turn
    assert_eq!(actions.len(), 3);
    let slot = r.chain[1].data.deferred.unwrap();
    // nothing shows until the chain's modules arrive
    assert!(matches!(render(&r), RenderOutcome::Waiting));
    assert!(r.note_module_loaded(0, true));
    assert!(matches!(render(&r), RenderOutcome::Waiting));
    assert!(r.note_module_loaded(1, true));
    assert_eq!(
        content(&r),
        vec![
            "View B".to_string(),
            "Nested Child".to_string(),
            "Loading...".to_string()
        ]
    );
    // the fetched text replaces the fallback
    let reaction = r.note_fetch_done(slot, Some("delectus aut autem".to_string()));
    assert!(reaction.render);
    assert_eq!(
        content(&r),
        vec![
            "View B".to_string(),
            "Nested Child".to_string(),
            "delectus aut autem".to_string()
        ]
    );
}

#[test]
fn comment_route_parses_lazily_then_renders_list() {
    let mut r = demo_router();
    let (outcome, actions) = r.navigate(&path(&["c"]));
    assert_eq!(outcome, NavOutcome::Matched);
    assert_eq!(actions.len(), 2);
    let slot = r.chain[0].data.deferred.unwrap();
    assert!(r.note_module_loaded(2, true));
    assert_eq!(
        content(&r),
        vec!["Nested Child".to_string(), "Loading...".to_string()]
    );
    // the fetched text is not shown: it still owes the deserialization step
    let reaction = r.note_fetch_done(slot, Some("[{\"id\":1}]".to_string()));
    assert!(!reaction.render);
    match reaction.follow_up {
        Some(Action::Deserialize { slot: s, text }) => {
            assert_eq!(s, slot);
            assert_eq!(text, "[{\"id\":1}]");
        },
        other => panic!("expected deserialization follow-up, got {:?}", other),
    }
    assert_eq!(
        content(&r),
        vec!["Nested Child".to_string(), "Loading...".to_string()]
    );
    let parsed = vec![
        comment("id labore", "laudantium enim"),
        comment("quo vero", "est natus"),
    ];
    assert!(r.note_deserialize_done(slot, Some(parsed)));
    assert_eq!(
        content(&r),
        vec![
            "Nested Child".to_string(),
            "1 | 1 | id labore | commenter@example.com | laudantium enim".to_string(),
            "1 | 1 | quo vero | commenter@example.com | est natus".to_string()
        ]
    );
}

#[test]
fn failed_child_fetch_shows_error_while_parent_still_renders() {
    let mut r = demo_router();
    r.navigate(&path(&["b"]));
    let slot = r.chain[1].data.deferred.unwrap();
    r.note_module_loaded(0, true);
    r.note_module_loaded(1, true);
    let reaction = r.note_fetch_done(slot, None);
    assert!(reaction.render);
    assert_eq!(
        content(&r),
        vec![
            "View B".to_string(),
            "Nested Child".to_string(),
            "Error: data fetch failed.".to_string()
        ]
    );
}

#[test]
fn failed_deserialization_shows_its_own_error() {
    let mut r = demo_router();
    r.navigate(&path(&["c"]));
    let slot = r.chain[0].data.deferred.unwrap();
    r.note_module_loaded(2, true);
    r.note_fetch_done(slot, Some("not json".to_string()));
    assert!(r.note_deserialize_done(slot, None));
    assert_eq!(
        content(&r),
        vec![
            "Nested Child".to_string(),
            "Error: deserialization failed.".to_string()
        ]
    );
}

#[test]
fn failed_child_module_leaves_parent_rendered() {
    let mut r = demo_router();
    r.navigate(&path(&["b"]));
    r.note_module_loaded(0, true);
    assert!(r.note_module_loaded(1, false));
    assert_eq!(
        content(&r),
        vec![
            "View B".to_string(),
            "Error: view module failed to load.".to_string()
        ]
    );
}

#[test]
fn failed_module_load_shows_error_state() {
    let mut r = demo_router();
    r.navigate(&path(&["c"]));
    assert!(r.note_module_loaded(2, false));
    assert_eq!(
        content(&r),
        vec!["Error: view module failed to load.".to_string()]
    );
}

#[test]
fn view_bodies_render_their_lines() {
    assert_eq!(ViewA(), vec!["View A".to_string()]);
    assert_eq!(
        ViewB::view(vec!["inner".to_string()]),
        vec!["View B".to_string(), "inner".to_string()]
    );
    let pending = DeferredSlot {
        state: DeferredState::Pending,
        cancelled: false,
        parse_step: false,
    };
    assert_eq!(
        ViewBChild::view(&pending),
        vec!["Nested Child".to_string(), "Loading...".to_string()]
    );
    assert_eq!(
        ViewC::view(&pending),
        vec!["Nested Child".to_string(), "Loading...".to_string()]
    );
}

#[test]
fn data_factories_defer_exactly_their_fetch() {
    let mut slots: Vec<DeferredSlot> = Vec::new();
    let b = ViewB::data();
    assert!(b.deferred.is_none());
    let (data, action) = ViewBChild::data(&mut slots);
    assert_eq!(data.deferred, Some(0));
    match action {
        Action::FetchText { slot, url } => {
            assert_eq!(slot, 0);
            assert_eq!(url, "https://jsonplaceholder.typicode.com/todos/1");
        },
        other => panic!("expected text fetch, got {:?}", other),
    }
    let (data_c, action_c) = ViewC::data(&mut slots);
    assert_eq!(data_c.deferred, Some(1));
    match action_c {
        Action::FetchComments { slot, url } => {
            assert_eq!(slot, 1);
            assert_eq!(url, "https://jsonplaceholder.typicode.com/comments");
        },
        other => panic!("expected comment fetch, got {:?}", other),
    }
    assert!(!slots[0].parse_step);
    assert!(slots[1].parse_step);
}

#[test]
fn decimal_formatting_is_exact() {
    assert_eq!(decimal(0), "0");
    assert_eq!(decimal(7), "7");
    assert_eq!(decimal(10), "10");
    assert_eq!(decimal(90210), "90210");
}

#[test]
fn comment_formatting_shows_every_field() {
    let c = comment("id labore ex et quam laborum", "laudantium enim quasi");
    assert_eq!(
        comment_line(&c),
        "1 | 1 | id labore ex et quam laborum | commenter@example.com | laudantium enim quasi"
    );
    let wide = Comment {
        post_id: 10,
        id: 205,
        name: "alias odio sit".to_string(),
        email: "Hayden@althea.biz".to_string(),
        body: "non et atque".to_string(),
    };
    assert_eq!(
        comment_line(&wide),
        "10 | 205 | alias odio sit | Hayden@althea.biz | non et atque"
    );
}
