use made_activity_tracker::db::queries::{
    check_github_id, initial_tracking, is_bot_user, is_excluded_author, metrics_filter_clause,
};
use made_activity_tracker::github::sync::effective_since;
use made_activity_tracker::text::{join_strings, str_eq};

fn bots() -> Vec<String> {
    vec!["dependabot[bot]".to_string(), "renovate".to_string()]
}

#[test]
fn bot_logins() {
    assert!(is_bot_user("Dependabot[BOT]", &bots()));
    assert!(is_bot_user("renovate", &bots()));
    assert!(is_bot_user("github-actions[bot]", &bots()));
    assert!(is_bot_user("some-app[bot]", &bots()));
    // a login that merely contains "bot" is not a known bot
    assert!(!is_bot_user("robotics-fan", &bots()));
    assert!(!is_bot_user("talbot", &["dependabot[bot]".to_string()]));
    assert!(!is_bot_user("ann", &bots()));
    // a `[bot]` login is a known bot whatever the list holds
    assert!(is_bot_user("dependabot[bot]", &[]));
    assert!(is_bot_user("renovate[bot]", &[]));
    assert!(!is_bot_user("renovate", &[]));
    assert!(is_excluded_author(&Some("renovate".to_string()), &bots()));
    assert!(!is_excluded_author(&None, &bots()));
}

#[test]
fn metrics_filters_number_their_parameters() {
    let (q, p) = metrics_filter_clause("i", true, Some(&[4, 5]), Some(9), Some(&[1, 2, 3]));
    assert_eq!(
        q,
        " AND i.created_at <= ?2 AND i.repo_id IN (?3, ?4) AND i.author_id = ?5 AND i.author_id IN (?6, ?7, ?8)"
    );
    assert_eq!(p, vec![4, 5, 9, 1, 2, 3]);
    let (q, p) = metrics_filter_clause("p", false, Some(&[]), None, Some(&[8]));
    assert_eq!(q, " AND p.author_id IN (?2)");
    assert_eq!(p, vec![8]);
    let (q, p) = metrics_filter_clause("p", false, None, Some(3), None);
    assert_eq!(q, " AND p.author_id = ?2");
    assert_eq!(p, vec![3]);
    let (q, p) = metrics_filter_clause("p", false, None, None, None);
    assert_eq!(q, "");
    assert!(p.is_empty());
}

#[test]
fn text_helpers() {
    assert!(str_eq("abc", "abc"));
    assert!(!str_eq("abc", "abd"));
    assert!(!str_eq("ab", "abc"));
    assert!(str_eq("", ""));
    let parts = vec!["a".to_string(), "b".to_string(), "c".to_string()];
    assert_eq!(join_strings(&parts, ", "), "a, b, c");
    assert_eq!(join_strings(&[], ", "), "");
}

#[test]
fn account_ids_must_be_positive() {
    assert_eq!(check_github_id(42, "ann"), Ok(()));
    assert_eq!(
        check_github_id(0, "ann"),
        Err("Invalid github_id (0) for user 'ann'. GitHub IDs must be positive integers.".to_string())
    );
    assert_eq!(
        check_github_id(-5, "bob"),
        Err("Invalid github_id (-5) for user 'bob'. GitHub IDs must be positive integers.".to_string())
    );
    assert!(initial_tracking(Some(true), Some(false)));
    assert!(!initial_tracking(Some(false), Some(true)));
    assert!(initial_tracking(None, Some(true)));
    assert!(!initial_tracking(None, None));
}

#[test]
fn watermark_wins_over_history_start() {
    assert_eq!(effective_since(Some("2024-05-01T00:00:00Z".to_string()), "2024-01-01T00:00:00Z"), "2024-05-01T00:00:00Z");
    assert_eq!(effective_since(None, "2024-01-01T00:00:00Z"), "2024-01-01T00:00:00Z");
}
