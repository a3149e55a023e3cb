use skyweb::compat::Compat;
use skyweb::crawler::TaskState;
use skyweb::identity::profile_url;
use skyweb::identity::resolve;
use skyweb::layout::LayoutConfig;
use skyweb::session::Profile;
use skyweb::session::Stage;
use skyweb::session::Stuff;

#[test]
fn full_identifiers_resolve_as_given() {
    let id = resolve(&"alice.bsky.social".to_string()).unwrap();
    assert_eq!(id.text().as_str(), "alice.bsky.social");
    let did = resolve(&"did:plc:ewvi7nxzyoun6zhxrhs64oiz".to_string()).unwrap();
    assert_eq!(did.text().as_str(), "did:plc:ewvi7nxzyoun6zhxrhs64oiz");
}

#[test]
fn bare_names_fall_back_to_the_default_domain() {
    let id = resolve(&"alice".to_string()).unwrap();
    assert_eq!(id.text().as_str(), "alice.bsky.social");
}

#[test]
fn unusable_text_surfaces_the_original_input() {
    let raw = "not a handle at all!".to_string();
    let err = resolve(&raw).unwrap_err();
    assert_eq!(err.raw, raw);
}

#[test]
fn profile_urls_point_at_the_public_profile_page() {
    let url = profile_url(&"alice.bsky.social".to_string());
    assert_eq!(url, "https://bsky.app/profile/alice.bsky.social");
}

#[test]
fn compat_shell_hands_its_value_out_once() {
    let mut shell = Compat::new(42u32);
    assert!(shell.is_engaged());
    assert_eq!(shell.take(), Some(42));
    assert!(!shell.is_engaged());
    assert_eq!(shell.take(), None);
}

fn profile_for(handle: &str) -> Profile {
    Profile {
        handle: handle.to_string(),
        avatar: None,
        follows_count: Some(2),
    }
}

#[test]
fn session_runs_ask_get_connect() {
    let mut stuff = Stuff::new();
    assert!(matches!(stuff.stage, Stage::Ask));

    let actor = resolve(&"root.example.com".to_string()).unwrap();
    let request = stuff.begin_crawl(&actor, profile_for("root.example.com"));
    assert!(matches!(stuff.stage, Stage::Get));
    assert_eq!(request.actor, "root.example.com");
    assert!(request.cursor.is_none());

    {
        let crawler = stuff.crawler.as_mut().unwrap();
        let page = skyweb::crawler::FollowPage {
            follows: vec![skyweb::crawler::FollowEntry {
                handle: "b.example.com".to_string(),
                avatar: None,
            }],
            cursor: None,
        };
        assert!(crawler.on_root_page(&page).is_none());
        assert!(matches!(crawler.seed, TaskState::Complete));
    }

    stuff.enter_connect(LayoutConfig::default());
    assert!(matches!(stuff.stage, Stage::Connect));
    let layout = stuff.layout.as_ref().unwrap();
    let store_len = stuff.crawler.as_ref().unwrap().store.len();
    assert_eq!(layout.nodes.len(), store_len);
    assert!(layout.nodes[store_len - 1].fixed);
}

#[test]
fn failed_lookup_keeps_the_session_asking() {
    let mut stuff = Stuff::new();
    stuff.profile_failed("profile lookup failed".to_string());
    assert!(matches!(stuff.stage, Stage::Ask));
    assert_eq!(stuff.error.as_deref(), Some("profile lookup failed"));
    assert!(stuff.crawler.is_none());
}

#[test]
fn reset_discards_the_whole_crawl_at_once() {
    let mut stuff = Stuff::new();
    let actor = resolve(&"root.example.com".to_string()).unwrap();
    stuff.begin_crawl(&actor, profile_for("root.example.com"));
    {
        let crawler = stuff.crawler.as_mut().unwrap();
        let page = skyweb::crawler::FollowPage {
            follows: vec![],
            cursor: None,
        };
        crawler.on_root_page(&page);
    }
    stuff.enter_connect(LayoutConfig::default());

    stuff.reset();
    assert!(matches!(stuff.stage, Stage::Ask));
    assert!(stuff.profile.is_none());
    assert!(stuff.error.is_none());
    assert!(stuff.crawler.is_none());
    assert!(stuff.layout.is_none());
}
