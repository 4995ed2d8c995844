use made_activity_tracker::db::models::{Issue, PullRequest};
use made_activity_tracker::embeddings::generator::{issue_to_embedding_text, last_space_index,
    pr_to_embedding_text, truncate_text, BODY_LIMIT};

fn issue(title: &str, body: Option<&str>, labels: Vec<&str>) -> Issue {
    Issue {
        id: 1,
        github_id: 1,
        repo_id: 1,
        number: 1,
        title: title.to_string(),
        body: body.map(|s| s.to_string()),
        state: "open".to_string(),
        author_id: None,
        assignee_id: None,
        milestone_id: None,
        created_at: "2024-01-01".to_string(),
        updated_at: "2024-01-01".to_string(),
        sync_updated_at: None,
        closed_at: None,
        labels: labels.into_iter().map(|s| s.to_string()).collect(),
    }
}

#[test]
fn test_issue_to_embedding_text() {
    let issue = issue("Add authentication", Some("We need OAuth support for the app"), vec!["feature", "auth"]);
    let text = issue_to_embedding_text(&issue);
    assert!(text.contains("Add authentication"));
    assert!(text.contains("OAuth support"));
    assert!(text.contains("Labels: feature, auth"));
}

#[test]
fn test_truncate_text() {
    let long_text = "This is a very long text that should be truncated at some point to avoid issues with embedding generation";
    let truncated = truncate_text(long_text, 50);
    assert!(truncated.len() <= 53); // 50 + "..."
    assert!(truncated.ends_with("..."));
}

#[test]
fn test_truncate_preserves_short_text() {
    let short_text = "Short text";
    let result = truncate_text(short_text, 50);
    assert_eq!(result, short_text);
}

#[test]
fn embedding_text_layout() {
    let i = issue("Title", Some("Body"), vec!["bug"]);
    assert_eq!(issue_to_embedding_text(&i), "Title\n\nBody\n\nLabels: bug");
    let no_body = issue("Only title", None, vec![]);
    assert_eq!(issue_to_embedding_text(&no_body), "Only title");
    let labels_only = issue("T", None, vec!["a", "b"]);
    assert_eq!(issue_to_embedding_text(&labels_only), "T\n\nLabels: a, b");
}

#[test]
fn pr_embedding_text_truncates_long_bodies() {
    let body = "word ".repeat(300);
    let pr = PullRequest {
        id: 1,
        github_id: 2,
        repo_id: 3,
        number: 4,
        title: "Refactor".to_string(),
        body: Some(body.clone()),
        state: "open".to_string(),
        author_id: None,
        created_at: "2024-01-01".to_string(),
        updated_at: "2024-01-01".to_string(),
        sync_updated_at: None,
        merged_at: None,
        closed_at: None,
        additions: 1,
        deletions: 1,
        changed_files: 1,
        review_comments: 0,
        labels: vec![],
    };
    let text = pr_to_embedding_text(&pr);
    let expected_body = format!("{}...", &body[..999]);
    assert_eq!(text, format!("Refactor\n\n{}", expected_body));
    assert!(text.len() < body.len());
    assert_eq!(BODY_LIMIT, 1000);
}

#[test]
fn truncate_cuts_at_last_space() {
    assert_eq!(truncate_text("hello world foo", 13), "hello world...");
    assert_eq!(truncate_text("abcdefghij", 4), "abcd...");
    assert_eq!(truncate_text("exactly ten", 11), "exactly ten");
}

#[test]
fn last_space_positions() {
    assert_eq!(last_space_index(&['a', ' ', 'b', ' ', 'c'], 5), Some(3));
    assert_eq!(last_space_index(&['a', ' ', 'b', ' ', 'c'], 3), Some(1));
    assert_eq!(last_space_index(&['a', 'b', 'c'], 3), None);
    assert_eq!(last_space_index(&[' ', 'a', 'b', 'c'], 0), None);
}

#[test]
fn truncate_counts_characters() {
    assert_eq!(truncate_text("ééé", 3), "ééé");
    assert_eq!(truncate_text("éééé", 3), "ééé...");
    assert_eq!(truncate_text("éé éé", 4), "éé...");
    assert_eq!(truncate_text("日本語のテキスト", 2), "日本...");
}
