use tordex::sources::api::{parse_kind, parse_status, ApiError, ListParams};
use tordex::sources::descriptor::{
    CollectionHints, RoutingPolicy, SourceInput, SourceKind, SourceStatus, SourceValidationError,
};

fn input(kind: SourceKind, name: &str, locator: &str) -> SourceInput {
    SourceInput {
        kind,
        display_name: name.to_string(),
        locator: locator.to_string(),
        routing_policy: RoutingPolicy::default(),
        hints: CollectionHints::default(),
        status: SourceStatus::default(),
        tags: vec![],
        metadata: serde_json::Value::Null,
    }
}

#[test]
fn all_kinds_in_stable_order() {
    let all = SourceKind::all();
    assert_eq!(all.len(), 8);
    assert_eq!(all[0], SourceKind::Website);
    assert_eq!(all[3], SourceKind::Repository);
    assert_eq!(all[7], SourceKind::Paper);
}

#[test]
fn defaults() {
    assert_eq!(RoutingPolicy::default(), RoutingPolicy::Auto);
    assert_eq!(SourceStatus::default(), SourceStatus::Active);
    let h = CollectionHints::default();
    assert!(!h.requires_js);
    assert!(h.preferred_locale.is_none());
    assert!(h.max_bytes.is_none());
}

#[test]
fn blank_name_and_locator_are_refused() {
    assert!(matches!(input(SourceKind::Website, "  ", "https://a.org").validate(), Err(SourceValidationError::EmptyDisplayName)));
    assert!(matches!(input(SourceKind::Website, "A", " \t").validate(), Err(SourceValidationError::EmptyLocator)));
}

#[test]
fn urls_are_required_for_web_kinds() {
    assert!(input(SourceKind::Website, "Example", "https://example.net").validate().is_ok());
    assert!(input(SourceKind::RssFeed, "Feed", "http://example.net/rss").validate().is_ok());
    match input(SourceKind::Api, "Api", "not a url").validate() {
        Err(SourceValidationError::InvalidUrl { kind, locator }) => {
            assert_eq!(kind, SourceKind::Api);
            assert_eq!(locator, "not a url");
        },
        other => panic!("unexpected {:?}", other),
    }
}

#[test]
fn repositories_are_owner_slash_repo() {
    assert!(input(SourceKind::Repository, "R", "owner/repo").validate().is_ok());
    for bad in ["owner", "/repo", "owner/", "owner/repo/extra", "a/b/"] {
        assert!(matches!(
            input(SourceKind::Repository, "R", bad).validate(),
            Err(SourceValidationError::InvalidRepositoryLocator(l)) if l == bad
        ));
    }
}

#[test]
fn local_files_need_absolute_paths() {
    assert!(input(SourceKind::LocalFile, "F", "/var/data/file.txt").validate().is_ok());
    assert!(matches!(
        input(SourceKind::LocalFile, "F", "data/file.txt").validate(),
        Err(SourceValidationError::NotAbsoluteLocalPath(_))
    ));
}

#[test]
fn documents_take_url_or_absolute_path() {
    assert!(input(SourceKind::Document, "D", "https://example.net/a.pdf").validate().is_ok());
    assert!(input(SourceKind::Paper, "P", "/papers/a.pdf").validate().is_ok());
    assert!(matches!(
        input(SourceKind::Paper, "P", "papers/a.pdf").validate(),
        Err(SourceValidationError::InvalidUrl { kind: SourceKind::Paper, .. })
    ));
}

#[test]
fn check_with_given_answers() {
    let i = input(SourceKind::Document, "D", "x");
    assert!(i.check(false, true).is_ok());
    assert!(i.check(true, false).is_ok());
    assert!(i.check(false, false).is_err());
}

#[test]
fn validation_messages() {
    assert_eq!(SourceValidationError::EmptyDisplayName.to_text(), "display_name must not be empty");
    assert_eq!(SourceValidationError::EmptyLocator.to_text(), "locator must not be empty");
    let e = SourceValidationError::InvalidUrl { kind: SourceKind::OnionService, locator: "a\"b".to_string() };
    assert_eq!(e.to_text(), "locator \"a\\\"b\" is not a valid URL for OnionService");
    let e = SourceValidationError::InvalidRepositoryLocator("x".to_string());
    assert_eq!(e.to_text(), "repository locator must be of the form owner/repo, got \"x\"");
    let e = SourceValidationError::NotAbsoluteLocalPath("rel".to_string());
    assert_eq!(e.to_text(), "local file locator must be an absolute path, got \"rel\"");
    let e = SourceValidationError::InvalidMetadata("oops".to_string());
    assert_eq!(e.to_text(), "invalid metadata JSON: oops");
}

#[test]
fn kinds_and_statuses_by_name() {
    assert_eq!(parse_kind("onion_service"), Ok(SourceKind::OnionService));
    assert_eq!(parse_kind("rss_feed"), Ok(SourceKind::RssFeed));
    assert_eq!(parse_kind("Website"), Err("unknown kind: Website".to_string()));
    assert_eq!(parse_status("paused"), Ok(SourceStatus::Paused));
    assert_eq!(parse_status("gone"), Err("unknown status: gone".to_string()));
}

#[test]
fn list_filters() {
    let p = ListParams { kind: Some("api".into()), status: None, limit: Some(5), cursor: None };
    assert!(matches!(p.filters(), Ok((Some(SourceKind::Api), None))));
    let p = ListParams { kind: Some("nope".into()), status: Some("bad".into()), limit: None, cursor: None };
    assert!(matches!(p.filters(), Err(ApiError::Invalid(m)) if m == "unknown kind: nope"));
    let p = ListParams { kind: None, status: Some("bad".into()), limit: None, cursor: None };
    assert!(matches!(p.filters(), Err(ApiError::Invalid(m)) if m == "unknown status: bad"));
}

#[test]
fn api_error_answers() {
    let e = ApiError::from_validation(&SourceValidationError::EmptyLocator);
    assert_eq!(e.status_code(), 422);
    assert_eq!(e.body(), "{\"error\":\"invalid\",\"message\":\"locator must not be empty\"}");
    assert_eq!(ApiError::NotFound("x".into()).status_code(), 404);
    assert_eq!(ApiError::Conflict("x".into()).status_code(), 409);
    let internal = ApiError::Internal("db down".into());
    assert_eq!(internal.status_code(), 500);
    assert_eq!(internal.body(), "{\"error\":\"internal\",\"message\":\"db down\"}");
    assert!(matches!(ApiError::from_message("m".to_string()), ApiError::Invalid(m) if m == "m"));
}
