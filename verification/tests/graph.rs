use skyweb::crawler::Crawler;
use skyweb::crawler::FollowEntry;
use skyweb::crawler::FollowPage;
use skyweb::crawler::TaskState;
use skyweb::crawler::MAX_PAGE_RETRIES;
use skyweb::identity::resolve;
use skyweb::request::PAGE_LIMIT;
use skyweb::store::GraphStore;
use skyweb::store::Tie;

fn entry(handle: &str) -> FollowEntry {
    FollowEntry {
        handle: handle.to_string(),
        avatar: None,
    }
}

fn page(handles: &[&str], cursor: Option<&str>) -> FollowPage {
    FollowPage {
        follows: handles.iter().map(|h| entry(h)).collect(),
        cursor: cursor.map(|c| c.to_string()),
    }
}

fn crawler_for(root: &str) -> Crawler {
    let actor = resolve(&root.to_string()).unwrap();
    let (crawler, request) = Crawler::new(&actor);
    assert_eq!(request.actor, root);
    assert!(request.cursor.is_none());
    assert_eq!(request.limit, PAGE_LIMIT);
    crawler
}

/// Finds the task crawling `handle` and marks it launched.
fn launch(c: &mut Crawler, handle: &str) -> usize {
    loop {
        let (t, req) = c.launch_next().expect("a task should be launchable");
        if req.actor == handle {
            assert!(req.cursor.is_none());
            return t;
        }
    }
}

#[test]
fn get_or_create_same_handle_twice_returns_same_node() {
    let mut store = GraphStore::new();
    let handle = "alice.example.com".to_string();
    let (first, first_new) = store.get_or_create(&handle);
    let (second, second_new) = store.get_or_create(&handle);
    assert_eq!(first, second);
    assert!(first_new);
    assert!(!second_new);
    assert_eq!(store.len(), 1);
}

#[test]
fn store_size_equals_distinct_handles_observed() {
    let mut store = GraphStore::new();
    for handle in ["a.example.com", "b.example.com", "a.example.com", "c.example.com", "b.example.com"] {
        store.get_or_create(&handle.to_string());
    }
    assert_eq!(store.len(), 3);
}

#[test]
fn page_limit_is_the_remote_maximum() {
    assert_eq!(PAGE_LIMIT, 100);
}

#[test]
fn seed_scenario_three_accounts() {
    // Root follows {B, C}; B follows {C}; C follows {B}.
    let mut c = crawler_for("root.example.com");
    let next = c.on_root_page(&page(&["b.example.com", "c.example.com"], None));
    assert!(next.is_none());

    // Three nodes: B, C, then the root inserted last.
    assert_eq!(c.store.len(), 3);
    assert_eq!(c.store.nodes[0].handle, "b.example.com");
    assert_eq!(c.store.nodes[1].handle, "c.example.com");
    assert_eq!(c.store.nodes[2].handle, "root.example.com");
    assert_eq!(c.root_index, 2);

    let t_b = launch(&mut c, "b.example.com");
    let t_c = launch(&mut c, "c.example.com");
    assert!(c.launch_next().is_none());

    assert!(c.on_task_page(t_b, &page(&["c.example.com"], None)).is_none());
    assert!(c.on_task_page(t_c, &page(&["b.example.com"], None)).is_none());

    assert_eq!(c.store.nodes[0].shared, vec![1]);
    assert_eq!(c.store.nodes[1].shared, vec![0]);
    assert!(c.store.nodes[2].shared.is_empty());
    assert_eq!(c.store.max_shared, 1);
    assert!(c.is_quiescent());

    // One link edge per completed crawl's shared entry.
    assert_eq!(c.links.len(), 2);
    assert_eq!((c.links[0].source, c.links[0].target), (0, 1));
    assert_eq!((c.links[1].source, c.links[1].target), (1, 0));
}

#[test]
fn mutual_follow_result_is_order_independent() {
    let run = |first_b: bool| {
        let mut c = crawler_for("root.example.com");
        c.on_root_page(&page(&["b.example.com", "c.example.com"], None));
        let t_b = launch(&mut c, "b.example.com");
        let t_c = launch(&mut c, "c.example.com");
        let page_b = page(&["c.example.com"], None);
        let page_c = page(&["b.example.com"], None);
        if first_b {
            c.on_task_page(t_b, &page_b);
            c.on_task_page(t_c, &page_c);
        } else {
            c.on_task_page(t_c, &page_c);
            c.on_task_page(t_b, &page_b);
        }
        (c.store.nodes[0].shared.clone(), c.store.nodes[1].shared.clone())
    };
    assert_eq!(run(true), run(false));
    let (shared_b, shared_c) = run(true);
    assert!(shared_b.contains(&1));
    assert!(shared_c.contains(&0));
}

#[test]
fn two_pages_take_exactly_two_requests() {
    let mut c = crawler_for("root.example.com");
    c.on_root_page(&page(&["x.example.com"], None));
    let t_x = launch(&mut c, "x.example.com");

    // Page one carries a cursor: exactly one follow-up request, not complete.
    let second = c
        .on_task_page(t_x, &page(&[], Some("cursor-1")))
        .expect("a continuation request");
    assert_eq!(second.actor, "x.example.com");
    assert_eq!(second.cursor.as_deref(), Some("cursor-1"));
    assert!(matches!(c.tasks[t_x].state, TaskState::Active));
    assert!(!c.is_quiescent());

    // Page two carries none: no further request, complete only now.
    assert!(c.on_task_page(t_x, &page(&[], None)).is_none());
    assert!(matches!(c.tasks[t_x].state, TaskState::Complete));
    assert!(c.is_quiescent());
}

#[test]
fn handle_discovered_twice_gets_one_node() {
    // "alice" is discovered directly by the root and again through B.
    let mut c = crawler_for("root.example.com");
    c.on_root_page(&page(&["alice.example.com", "b.example.com"], None));
    assert_eq!(c.store.len(), 3);

    let t_b = launch(&mut c, "b.example.com");
    c.on_task_page(t_b, &page(&["alice.example.com"], None));

    assert_eq!(c.store.len(), 3);
    let alice_nodes = c
        .store
        .nodes
        .iter()
        .filter(|n| n.handle == "alice.example.com")
        .count();
    assert_eq!(alice_nodes, 1);
    // B recorded the already-known node instead of creating a second one.
    assert_eq!(c.store.nodes[1].shared, vec![0]);
}

#[test]
fn max_shared_tracks_every_completion() {
    let mut c = crawler_for("root.example.com");
    c.on_root_page(&page(&["a.example.com", "b.example.com", "d.example.com"], None));
    let t_a = launch(&mut c, "a.example.com");
    let t_b = launch(&mut c, "b.example.com");
    let t_d = launch(&mut c, "d.example.com");

    c.on_task_page(t_a, &page(&[], None));
    assert_eq!(c.store.max_shared, 0);
    c.on_task_page(t_b, &page(&["a.example.com"], None));
    assert_eq!(c.store.max_shared, 1);
    c.on_task_page(t_d, &page(&["a.example.com", "b.example.com"], None));
    assert_eq!(c.store.max_shared, 2);
}

#[test]
fn root_retries_same_cursor_then_stalls() {
    let mut c = crawler_for("root.example.com");
    let next = c.on_root_page(&page(&["a.example.com"], Some("root-cursor")));
    let request = next.expect("a continuation request");
    assert_eq!(request.cursor.as_deref(), Some("root-cursor"));

    for _ in 0..MAX_PAGE_RETRIES {
        let retry = c.on_root_error().expect("a retry of the same page");
        assert_eq!(retry.actor, "root.example.com");
        assert_eq!(retry.cursor.as_deref(), Some("root-cursor"));
    }
    // Past the bound the seed stalls instead of spinning forever.
    assert!(c.on_root_error().is_none());
    assert!(matches!(c.seed, TaskState::Stalled));
    assert!(c.launch_next().is_none());
}

#[test]
fn task_retries_same_cursor_then_stalls() {
    let mut c = crawler_for("root.example.com");
    c.on_root_page(&page(&["a.example.com", "b.example.com"], None));
    let t_a = launch(&mut c, "a.example.com");

    for _ in 0..MAX_PAGE_RETRIES {
        let retry = c.on_task_error(t_a).expect("a retry of the same page");
        assert_eq!(retry.actor, "a.example.com");
        assert!(retry.cursor.is_none());
    }
    assert!(c.on_task_error(t_a).is_none());
    assert!(matches!(c.tasks[t_a].state, TaskState::Stalled));

    // A stalled crawl blocks nothing else.
    let t_b = launch(&mut c, "b.example.com");
    assert!(c.on_task_page(t_b, &page(&[], None)).is_none());
    assert!(matches!(c.tasks[t_b].state, TaskState::Complete));
}

#[test]
fn a_full_page_seeds_one_task_per_distinct_handle() {
    // A page of the maximum size, with one handle repeated inside it.
    let mut c = crawler_for("root.example.com");
    let handles: Vec<String> = (0..PAGE_LIMIT as usize)
        .map(|i| format!("user-{}.example.com", i % 99))
        .collect();
    let refs: Vec<&str> = handles.iter().map(|h| h.as_str()).collect();
    let next = c.on_root_page(&page(&refs, Some("more")));
    assert!(next.is_some());
    // 99 distinct handles, each with exactly one node and one task.
    assert_eq!(c.store.len(), 99);
    assert_eq!(c.tasks.len(), 99);
    // The final page inserts the root as the last node.
    assert!(c.on_root_page(&page(&[], None)).is_none());
    assert_eq!(c.store.len(), 100);
    assert_eq!(c.root_index, 99);
}

#[test]
fn ties_classify_hover_lines_both_ways() {
    // A follows B and C; B follows A; C follows nobody among the members.
    let mut c = crawler_for("root.example.com");
    c.on_root_page(&page(&["a.example.com", "b.example.com", "c.example.com"], None));
    let t_a = launch(&mut c, "a.example.com");
    let t_b = launch(&mut c, "b.example.com");
    c.on_task_page(t_a, &page(&["b.example.com", "c.example.com"], None));
    c.on_task_page(t_b, &page(&["a.example.com"], None));

    assert_eq!(c.store.tie_between(0, 1), Tie::Mutual);
    assert_eq!(c.store.tie_between(0, 2), Tie::Outgoing);
    assert_eq!(c.store.tie_between(2, 0), Tie::Incoming);
    assert_eq!(c.store.tie_between(1, 2), Tie::Unrelated);
}

#[test]
fn empty_seed_page_leaves_only_the_root() {
    let mut c = crawler_for("root.example.com");
    assert!(c.on_root_page(&page(&[], None)).is_none());
    assert_eq!(c.store.len(), 1);
    assert_eq!(c.store.nodes[0].handle, "root.example.com");
    assert!(c.launch_next().is_none());
    assert!(c.is_quiescent());
}

#[test]
fn unknown_handles_in_task_pages_stay_outside_the_hop() {
    let mut c = crawler_for("root.example.com");
    c.on_root_page(&page(&["a.example.com"], None));
    let t_a = launch(&mut c, "a.example.com");
    c.on_task_page(t_a, &page(&["stranger.example.com", "root.example.com"], None));
    // The stranger is beyond one hop: no new node, no new task.
    assert_eq!(c.store.len(), 2);
    // The root, a member, is recorded as shared.
    assert_eq!(c.store.nodes[0].shared, vec![1]);
}
