use spotify_automation::errors::Error;
use spotify_automation::guards::{AuthToken, Config};
use spotify_automation::pager::{find_owned_named, PageStep, PageWalker, PlaylistSummary, PAGE_SIZE};
use spotify_automation::persistence::{self, tls_url, NoOp, Redis, KV};
use spotify_automation::urls::get_query_param;

#[test]
fn walker_pages_until_empty() {
    let mut w = PageWalker::new();
    assert_eq!(w.first_request(), PageStep::Fetch { offset: 0, limit: PAGE_SIZE });
    assert_eq!(w.on_page(50, None), PageStep::Fetch { offset: 50, limit: 50 });
    assert_eq!(w.on_page(50, None), PageStep::Fetch { offset: 100, limit: 50 });
    assert_eq!(w.on_page(0, None), PageStep::Exhausted);
    assert_eq!(w.on_page(3, None), PageStep::Exhausted);
}

#[test]
fn walker_stops_on_match() {
    let mut w = PageWalker::new();
    assert_eq!(w.on_page(50, Some(7)), PageStep::Found(7));
    assert!(w.finished);
}

#[test]
fn walker_stops_before_offset_overflow() {
    let mut w = PageWalker { offset: u32::MAX - 10, finished: false };
    assert_eq!(w.on_page(1, None), PageStep::Exhausted);
}

#[test]
fn archive_source_needs_name_and_owner() {
    let p = |id: &str, name: &str, owner: &str| PlaylistSummary {
        id: id.to_string(),
        name: name.to_string(),
        owner_id: owner.to_string(),
    };
    let page = vec![
        p("1", "Discover Weekly", "someone"),
        p("2", "Discover weekly", "me"),
        p("3", "Discover Weekly", "me"),
        p("4", "Discover Weekly", "me"),
    ];
    assert_eq!(find_owned_named(&page, "Discover Weekly", "me"), Some(2));
    assert_eq!(find_owned_named(&page, "Release Radar", "me"), None);
}

#[test]
fn authorization_header() {
    assert!(matches!(AuthToken::from_header(None), AuthToken::Missing));
    assert!(matches!(AuthToken::from_header(Some("BeArEr abc")), AuthToken::Bearer(v) if v == "abc"));
    assert!(matches!(AuthToken::from_header(Some("Basic a b")), AuthToken::Basic(v) if v == "a b"));
    assert!(matches!(AuthToken::from_header(Some("Token x")), AuthToken::Uncategorized(p, v) if p == "Token" && v == "x"));
    assert!(matches!(AuthToken::from_header(Some("abc")), AuthToken::Unprefixed(v) if v == "abc"));
}

#[test]
fn config_checks_bearer_token() {
    let open = Config { auth_token: None };
    assert!(open.authorizes(&AuthToken::Missing));
    let locked = Config { auth_token: Some("s3".to_string()) };
    assert!(locked.authorizes(&AuthToken::Bearer("s3".to_string())));
    assert!(!locked.authorizes(&AuthToken::Bearer("s4".to_string())));
    assert!(!locked.authorizes(&AuthToken::Basic("s3".to_string())));
    assert!(!locked.authorizes(&AuthToken::Missing));
}

#[test]
fn error_statuses() {
    assert_eq!(Error::InvalidTimeRange.http_status(), 400);
    assert_eq!(Error::InvalidYear.http_status(), 400);
    assert_eq!(Error::InvalidYearRange.http_status(), 400);
    assert_eq!(Error::NoAuthToken.http_status(), 400);
    assert_eq!(Error::AuthorizationFailed("x".to_string()).http_status(), 401);
    assert_eq!(Error::NoTokenStored.http_status(), 500);
    assert_eq!(Error::LockPoisoned.http_status(), 500);
}

#[test]
fn noop_store_keeps_nothing() {
    let s = NoOp;
    assert!(s.set("k", "v").is_ok());
    assert!(matches!(s.get("k"), Ok(None)));
}

#[test]
fn redis_urls() {
    assert_eq!(tls_url("redis://host:6379", true), "rediss://host:6379");
    assert_eq!(tls_url("redis://host:6379", false), "redis://host:6379");
    assert_eq!(tls_url("rediss://host", true), "rediss://host");
    assert_eq!(tls_url("redis:/", true), "redis:/");
    assert!(Redis::new("redis://127.0.0.1:6379").is_ok());
    assert!(matches!(Redis::new("http://127.0.0.1"), Err(persistence::Error::Redis(_))));
    assert!(matches!(Redis::from_env(None, true), Err(persistence::Error::EnvVar { name }) if name == "KV_URL"));
    assert!(Redis::from_env(Some("redis://localhost".to_string()), false).is_ok());
}

#[test]
fn query_parameters() {
    let uri = "https://example.com/api?name=Top%20Songs&limit=5&name=Last";
    assert_eq!(get_query_param(uri, "limit").unwrap(), Some("5".to_string()));
    assert_eq!(get_query_param(uri, "name").unwrap(), Some("Last".to_string()));
    assert_eq!(get_query_param("https://example.com/?a=b%20c", "a").unwrap(), Some("b c".to_string()));
    assert_eq!(get_query_param(uri, "from").unwrap(), None);
    assert!(get_query_param("/relative?x=1", "x").is_err());
}
