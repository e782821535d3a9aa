use rscloud::manager::{found_or_none, not_found_as_none, presence_of, still_exists, synced, text_contains, ManagerError, Presence};

#[test]
fn text_contains_finds_runs_of_characters() {
    assert!(text_contains("NoSuchEntity: role r", "NoSuchEntity"));
    assert!(text_contains("x NotFound", "NotFound"));
    assert!(!text_contains("Throttling", "NotFound"));
    assert!(text_contains("abc", ""));
    assert!(!text_contains("ab", "abc"));
    assert!(text_contains("ababc", "abc"));
}

#[test]
fn missing_resource_lookup_finds_nothing() {
    let missing: Result<Option<u32>, ManagerError> =
        Err(ManagerError::LookupFail("ServiceError NoSuchEntity".to_string()));
    assert!(matches!(not_found_as_none(missing, "NoSuchEntity"), Ok(None)));
    let other: Result<Option<u32>, ManagerError> = Err(ManagerError::LookupFail("Throttled".to_string()));
    assert!(matches!(not_found_as_none(other, "NoSuchEntity"), Err(ManagerError::LookupFail(m)) if m == "Throttled"));
    let create: Result<Option<u32>, ManagerError> = Err(ManagerError::CreateFail("NoSuchEntity".to_string()));
    assert!(matches!(not_found_as_none(create, "NoSuchEntity"), Err(ManagerError::CreateFail(_))));
    assert!(matches!(not_found_as_none(Ok(Some(3u32)), "NoSuchEntity"), Ok(Some(3))));
}

#[test]
fn presence_prefers_what_the_input_finds() {
    assert!(matches!(presence_of(Some(1u32), Some(2u32)), Presence::Sync(1)));
    assert!(matches!(presence_of(None, Some(2u32)), Presence::Sync(2)));
    assert!(matches!(presence_of::<u32>(None, None), Presence::Create));
}

#[test]
fn synced_output_and_lookups() {
    assert_eq!(synced(1u32, Some(5)), 5);
    assert_eq!(synced(1u32, None), 1);
    assert_eq!(found_or_none(Ok(Some(3u32))), Some(3));
    assert_eq!(found_or_none::<u32>(Err(ManagerError::LookupFail("x".to_string()))), None);
    assert!(still_exists(&Some(1u32)));
    assert!(!still_exists::<u32>(&None));
}
