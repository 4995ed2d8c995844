use made_activity_tracker::db::models::User;
use made_activity_tracker::db::project_queries::{date_filter_clause, merge_timeline, timeline_sources,
    user_filter_clause, timeline_event_id, timeline_kind_name, weekday_name, EventMetadata, TimelineEvent,
    TimelineKind};

fn event(id: &str, ts: &str) -> TimelineEvent {
    TimelineEvent {
        id: id.to_string(),
        event_type: "issue_opened".to_string(),
        timestamp: ts.to_string(),
        author: User {
            id: 1,
            github_id: 1,
            login: "ann".to_string(),
            name: None,
            avatar_url: None,
            is_bot: false,
            is_tracked: false,
            tracked_at: None,
        },
        title: "t".to_string(),
        description: None,
        url: None,
        metadata: EventMetadata::Issue { issue_number: 1, state: None, repository: None },
    }
}

#[test]
fn timeline_newest_first_and_limited() {
    let events = vec![
        event("a", "2024-01-01T00:00:00Z"),
        event("b", "2024-03-01T00:00:00Z"),
        event("c", "2024-02-01T00:00:00Z"),
        event("d", "2024-03-01T00:00:00Z"),
    ];
    let all = merge_timeline(events.clone(), 10);
    let ids: Vec<&str> = all.iter().map(|e| e.id.as_str()).collect();
    assert_eq!(ids, vec!["b", "d", "c", "a"]);
    let two = merge_timeline(events.clone(), 2);
    let ids: Vec<&str> = two.iter().map(|e| e.id.as_str()).collect();
    assert_eq!(ids, vec!["b", "d"]);
    assert!(merge_timeline(events.clone(), 0).is_empty());
    assert_eq!(merge_timeline(events, -1).len(), 4);
}

#[test]
fn timeline_event_kinds() {
    let all = timeline_sources(None);
    assert!(all.issues && all.pull_requests && all.reviews);
    let types = vec!["issue_opened".to_string(), "review".to_string()];
    let some = timeline_sources(Some(&types));
    assert!(some.issues && !some.pull_requests && some.reviews);
    let types = vec!["pr_merged".to_string(), "reviews".to_string()];
    let prs = timeline_sources(Some(&types));
    assert!(!prs.issues && prs.pull_requests && !prs.reviews);
    let none = timeline_sources(Some(&vec![]));
    assert!(!none.issues && !none.pull_requests && !none.reviews);
}

#[test]
fn filter_clauses() {
    assert_eq!(date_filter_clause("created_at", Some("2024-01-01"), Some("2024-02-01")),
        " AND created_at >= '2024-01-01' AND created_at <= '2024-02-01'");
    assert_eq!(date_filter_clause("r.submitted_at", None, Some("2024-02-01")), " AND r.submitted_at <= '2024-02-01'");
    assert_eq!(date_filter_clause("timestamp", None, None), "");
    assert_eq!(user_filter_clause(Some(42)), " AND author_id = 42");
    assert_eq!(user_filter_clause(Some(-7)), " AND author_id = -7");
    assert_eq!(user_filter_clause(None), "");
}

#[test]
fn weekday_names() {
    assert_eq!(weekday_name(0), "Sunday");
    assert_eq!(weekday_name(3), "Wednesday");
    assert_eq!(weekday_name(6), "Saturday");
}

#[test]
fn timeline_event_ids() {
    assert_eq!(timeline_event_id(TimelineKind::IssueOpened, 7), "issue-7-opened");
    assert_eq!(timeline_event_id(TimelineKind::IssueClosed, 7), "issue-7-closed");
    assert_eq!(timeline_event_id(TimelineKind::PrOpened, 42), "pr-42-opened");
    assert_eq!(timeline_event_id(TimelineKind::PrMerged, 42), "pr-42-merged");
    assert_eq!(timeline_event_id(TimelineKind::Review, 3), "review-3");
    assert_eq!(timeline_kind_name(TimelineKind::PrMerged), "pr_merged");
    assert_eq!(timeline_kind_name(TimelineKind::Review), "review");
}
