use made_activity_tracker::search::duplicates::{keep_candidate, match_id, match_url,
    DUPLICATE_CANDIDATES, DUPLICATE_THRESHOLD_PERCENT};
use made_activity_tracker::search::vector_store::ItemType;

#[test]
fn test_threshold() {
    let threshold = DUPLICATE_THRESHOLD_PERCENT as f32 / 100.0;
    assert!(threshold >= 0.0 && threshold <= 1.0);
    assert!((threshold - 0.85).abs() < 1e-6);
}

#[test]
fn test_item_type_equality() {
    assert_eq!(ItemType::Issue, ItemType::Issue);
    assert_eq!(ItemType::PullRequest, ItemType::PullRequest);
    assert_ne!(ItemType::Issue, ItemType::PullRequest);
}

#[test]
fn candidates_of_the_same_repository() {
    assert!(!keep_candidate(true, Some(7), 7));
    assert!(keep_candidate(true, Some(7), 8));
    assert!(keep_candidate(true, None, 7));
    assert!(keep_candidate(false, Some(7), 7));
    assert_eq!(DUPLICATE_CANDIDATES, 10);
}

#[test]
fn match_names_and_links() {
    assert_eq!(match_id(ItemType::Issue, 42), "issue-42");
    assert_eq!(match_id(ItemType::PullRequest, -3), "pr--3");
    assert_eq!(match_url(ItemType::Issue, "acme/app", 12), "https://github.com/acme/app/issues/12");
    assert_eq!(match_url(ItemType::PullRequest, "acme/app", 7), "https://github.com/acme/app/pull/7");
}
