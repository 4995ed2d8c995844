use made_activity_tracker::db::models::{Issue, PullRequest};
use made_activity_tracker::metrics::calculator::{bug_issue_count, closed_issue_count, large_pr_count,
    merged_pr_count, rejected_pr_count, total_cycle_days, total_lead_days, total_pr_lines,
    total_review_comments};
use made_activity_tracker::metrics::commands::{bucket_step_days, date_buckets, generate_date_buckets};
use made_activity_tracker::metrics::filter_params::MetricsFilters;

fn make_issue(created_at: &str, closed_at: Option<&str>, labels: Vec<&str>) -> Issue {
    Issue {
        id: 1,
        github_id: 1,
        repo_id: 1,
        number: 1,
        title: "Test".to_string(),
        body: None,
        state: if closed_at.is_some() { "closed" } else { "open" }.to_string(),
        author_id: None,
        assignee_id: None,
        milestone_id: None,
        created_at: created_at.to_string(),
        updated_at: created_at.to_string(),
        sync_updated_at: None,
        closed_at: closed_at.map(|s| s.to_string()),
        labels: labels.into_iter().map(|s| s.to_string()).collect(),
    }
}

fn make_pr(created_at: &str, merged_at: Option<&str>, additions: i32, deletions: i32) -> PullRequest {
    PullRequest {
        id: 1,
        github_id: 1,
        repo_id: 1,
        number: 1,
        title: "Test".to_string(),
        body: None,
        state: "closed".to_string(),
        author_id: None,
        created_at: created_at.to_string(),
        updated_at: created_at.to_string(),
        sync_updated_at: None,
        merged_at: merged_at.map(|s| s.to_string()),
        closed_at: merged_at.map(|s| s.to_string()),
        additions,
        deletions,
        changed_files: 1,
        review_comments: 2,
        labels: vec![],
    }
}

#[test]
fn test_bug_rate_calculation() {
    let issues = vec![
        make_issue("2024-02-01", Some("2024-02-05"), vec!["bug"]),
        make_issue("2024-02-01", Some("2024-02-05"), vec!["feature"]),
        make_issue("2024-02-01", Some("2024-02-05"), vec!["bug", "urgent"]),
        make_issue("2024-02-01", None, vec!["enhancement"]),
    ];
    let bug_count = bug_issue_count(&issues, &["bug".to_string()]);
    let bug_rate = bug_count as f64 / issues.len() as f64;
    assert_eq!(bug_rate, 0.5); // 2 out of 4
}

#[test]
fn test_pr_rejection_rate() {
    let prs = vec![
        make_pr("2024-02-01", Some("2024-02-05"), 100, 50), // merged
        make_pr("2024-02-01", Some("2024-02-05"), 100, 50), // merged
        make_pr("2024-02-01", None, 100, 50),               // closed without merge
    ];
    let mut prs = prs;
    prs[2].closed_at = Some("2024-02-05".to_string());
    let rejected = rejected_pr_count(&prs);
    let rate = rejected as f64 / prs.len() as f64;
    assert!((rate - 0.333).abs() < 0.01);
}

#[test]
fn counts_and_totals() {
    let issues = vec![
        make_issue("2024-02-19", Some("2024-02-23"), vec![]),
        make_issue("2024-02-23", Some("2024-02-26"), vec![]),
        make_issue("2024-02-23", None, vec![]),
    ];
    assert_eq!(closed_issue_count(&issues), 2);
    assert_eq!(total_cycle_days(&issues), 5);
    let prs = vec![
        make_pr("2024-02-19", Some("2024-02-26"), 400, 200),
        make_pr("2024-02-19", None, 10, 5),
    ];
    assert_eq!(merged_pr_count(&prs), 1);
    assert_eq!(total_lead_days(&prs), 5);
    assert_eq!(large_pr_count(&prs), 1);
    assert_eq!(total_pr_lines(&prs), 615);
    assert_eq!(total_review_comments(&prs), 4);
    assert_eq!(rejected_pr_count(&prs), 0);
}

#[test]
fn empty_inputs() {
    assert_eq!(closed_issue_count(&[]), 0);
    assert_eq!(total_cycle_days(&[]), 0);
    assert_eq!(bug_issue_count(&[], &["bug".to_string()]), 0);
    assert_eq!(merged_pr_count(&[]), 0);
    assert_eq!(total_pr_lines(&[]), 0);
}

#[test]
fn bug_labels_must_match_exactly() {
    let issues = vec![make_issue("2024-02-01", None, vec!["Bug", "bugfix"])];
    assert_eq!(bug_issue_count(&issues, &["bug".to_string()]), 0);
    assert_eq!(bug_issue_count(&issues, &["bugfix".to_string(), "x".to_string()]), 1);
}

#[test]
fn exactly_500_lines_is_not_large() {
    let prs = vec![make_pr("2024-02-01", None, 250, 250), make_pr("2024-02-01", None, 251, 250)];
    assert_eq!(large_pr_count(&prs), 1);
}

#[test]
fn bucket_steps() {
    assert_eq!(bucket_step_days("daily"), 1);
    assert_eq!(bucket_step_days("monthly"), 30);
    assert_eq!(bucket_step_days("weekly"), 7);
    assert_eq!(bucket_step_days("yearly"), 7);
}

#[test]
fn buckets_cover_the_range() {
    assert_eq!(date_buckets((0, 0), (25, 0), 10), vec![((0, 0), (10, 0)), ((10, 0), (20, 0)), ((20, 0), (25, 0))]);
    assert_eq!(date_buckets((0, 0), (20, 0), 10), vec![((0, 0), (10, 0)), ((10, 0), (20, 0))]);
    assert_eq!(date_buckets((5, 0), (5, 0), 10), vec![]);
    assert_eq!(date_buckets((9, 0), (3, 0), 10), vec![]);
    // fractions of a second are kept and compared
    assert_eq!(date_buckets((0, 100), (0, 900), 10), vec![((0, 100), (0, 900))]);
    assert_eq!(date_buckets((0, 500), (10, 200), 10), vec![((0, 500), (10, 200))]);
    assert_eq!(date_buckets((0, 500), (10, 700), 10), vec![((0, 500), (10, 500)), ((10, 500), (10, 700))]);
    // a leap-second start moves on to the ordinary second
    assert_eq!(
        date_buckets((59, 1_200_000_000), (100, 0), 10),
        vec![((59, 1_200_000_000), (69, 200_000_000)), ((69, 200_000_000), (79, 200_000_000)),
            ((79, 200_000_000), (89, 200_000_000)), ((89, 200_000_000), (99, 200_000_000)),
            ((99, 200_000_000), (100, 0))]
    );
}

#[test]
fn printed_buckets() {
    let b = generate_date_buckets("2024-01-01T00:00:00Z", "2024-01-10T00:00:00Z", "weekly").unwrap();
    assert_eq!(
        b,
        vec![
            ("2024-01-01T00:00:00Z".to_string(), "2024-01-08T00:00:00Z".to_string()),
            ("2024-01-08T00:00:00Z".to_string(), "2024-01-10T00:00:00Z".to_string()),
        ]
    );
    let d = generate_date_buckets("2024-01-01T00:00:00Z", "2024-01-03T12:00:00Z", "daily").unwrap();
    assert_eq!(d.len(), 3);
    assert_eq!(d[2].1, "2024-01-03T12:00:00Z");
    assert!(generate_date_buckets("yesterday", "2024-01-03T12:00:00Z", "daily").is_none());
    // within one second, fractions decide
    assert_eq!(
        generate_date_buckets("2024-01-01T00:00:00.1Z", "2024-01-01T00:00:00.9Z", "daily").unwrap(),
        vec![("2024-01-01T00:00:00Z".to_string(), "2024-01-01T00:00:00Z".to_string())]
    );
    assert!(generate_date_buckets("2024-01-01T00:00:00.9Z", "2024-01-01T00:00:00.1Z", "daily").unwrap().is_empty());
    // a range ending 0.5 s after a whole day needs a second bucket
    assert_eq!(generate_date_buckets("2024-01-01T00:00:00Z", "2024-01-02T00:00:00.5Z", "daily").unwrap().len(), 2);
    // a leap second is printed as such
    assert_eq!(
        generate_date_buckets("2016-12-31T23:59:60Z", "2017-01-01T12:00:00Z", "daily").unwrap(),
        vec![("2016-12-31T23:59:60Z".to_string(), "2017-01-01T12:00:00Z".to_string())]
    );
}

#[test]
fn default_filters_are_empty() {
    let f = MetricsFilters::default();
    assert!(f.date_range.is_none());
    assert!(f.repository_ids.is_none());
    assert!(f.squad_id.is_none());
    assert!(f.user_id.is_none());
}
