use cyberplug::discovery::{
    cache_is_fresh, description_url, display_name, fetch_step, readable_name, CatalogEntry,
    FetchAction, FetchError, FetchEvent, Source,
};

fn source(id: &str) -> Source {
    Source {
        repo: format!("https://example.org/{}.git", id),
        catalog: CatalogEntry {
            id: id.to_string(),
            name: id.to_string(),
            description: String::new(),
            author: None,
            version: None,
            category: None,
            tags: vec![],
            kind: None,
        },
    }
}

#[test]
fn cache_freshness_is_one_hour() {
    assert!(cache_is_fresh(Some(0)));
    assert!(cache_is_fresh(Some(3599)));
    assert!(!cache_is_fresh(Some(3600)));
    assert!(!cache_is_fresh(Some(u64::MAX)));
    assert!(!cache_is_fresh(None));
}

#[test]
fn fresh_cache_is_used_unless_forced() {
    assert!(matches!(
        fetch_step(FetchEvent::Begin { force_refresh: false, cache_fresh: true }),
        FetchAction::ReadFreshCache
    ));
    assert!(matches!(
        fetch_step(FetchEvent::Begin { force_refresh: true, cache_fresh: true }),
        FetchAction::Download
    ));
    assert!(matches!(
        fetch_step(FetchEvent::Begin { force_refresh: false, cache_fresh: false }),
        FetchAction::Download
    ));
    match fetch_step(FetchEvent::FreshCache(Some(vec![source("a")]))) {
        FetchAction::Finish(v) => assert_eq!(v[0].catalog.id, "a"),
        _ => panic!("expected the cached entries"),
    }
    assert!(matches!(fetch_step(FetchEvent::FreshCache(None)), FetchAction::Download));
}

#[test]
fn download_is_stored_or_fails_to_parse() {
    match fetch_step(FetchEvent::Downloaded(Some(vec![source("a"), source("b")]))) {
        FetchAction::StoreAndFinish(v) => assert_eq!(v.len(), 2),
        _ => panic!("expected the downloaded entries"),
    }
    assert!(matches!(
        fetch_step(FetchEvent::Downloaded(None)),
        FetchAction::Fail(FetchError::RegistryParse)
    ));
}

#[test]
fn failed_download_falls_back_to_stale_cache_or_nothing() {
    assert!(matches!(fetch_step(FetchEvent::DownloadFailed), FetchAction::ReadStaleCache));
    match fetch_step(FetchEvent::StaleCache(Some(vec![source("old")]))) {
        FetchAction::Finish(v) => assert_eq!(v[0].catalog.id, "old"),
        _ => panic!("expected the stale entries"),
    }
    match fetch_step(FetchEvent::StaleCache(None)) {
        FetchAction::Finish(v) => assert!(v.is_empty()),
        _ => panic!("expected no entries"),
    }
}

#[test]
fn readable_names_from_ids() {
    assert_eq!(readable_name("proton-mail"), "Proton Mail");
    assert_eq!(readable_name("cpu_temp-widget"), "Cpu Temp Widget");
    assert_eq!(readable_name("clock"), "Clock");
    assert_eq!(readable_name("x--y"), "X  Y");
    assert_eq!(readable_name("3d-view"), "3d View");
    assert_eq!(readable_name(""), "");
}

#[test]
fn shown_name_prefers_the_registry_name() {
    let mut s = source("proton-mail");
    assert_eq!(display_name(&s.catalog), "proton-mail");
    s.catalog.name = String::new();
    assert_eq!(display_name(&s.catalog), "Proton Mail");
}

#[test]
fn description_urls_for_github_repositories() {
    assert_eq!(
        description_url("https://github.com/omacom/suite").as_deref(),
        Some("https://api.github.com/repos/omacom/suite")
    );
    assert_eq!(
        description_url("https://github.com/omacom/suite.git").as_deref(),
        Some("https://api.github.com/repos/omacom/suite")
    );
    assert_eq!(
        description_url("https://github.com/omacom/suite/").as_deref(),
        Some("https://api.github.com/repos/omacom/suite")
    );
    assert_eq!(description_url("https://github.com/"), None);
    assert_eq!(description_url("https://gitlab.com/a/b"), None);
    assert_eq!(description_url("git@github.com:a/b.git"), None);
}
