use made_activity_tracker::db::models::User;
use made_activity_tracker::db::user_queries::{activity_status, build_collaboration_matrix,
    classify_activity, focus_distribution, merge_activity_trend, new_contribution, rank_contributions,
    total_work, whole_days_between, InteractionStats, FOCUS_TOP_REPOS};

fn user(id: i64, login: &str) -> User {
    User {
        id,
        github_id: id * 10,
        login: login.to_string(),
        name: None,
        avatar_url: None,
        is_bot: false,
        is_tracked: true,
        tracked_at: None,
    }
}

#[test]
fn activity_status_thresholds() {
    assert_eq!(classify_activity(None, 10), "idle");
    assert_eq!(classify_activity(Some(30), 3), "active");
    assert_eq!(classify_activity(Some(3), 0), "active");
    assert_eq!(classify_activity(Some(4), 0), "quiet");
    assert_eq!(classify_activity(Some(4), 1), "quiet");
    assert_eq!(classify_activity(Some(7), 0), "quiet");
    assert_eq!(classify_activity(Some(8), 2), "quiet");
    assert_eq!(classify_activity(Some(8), 0), "idle");
}

#[test]
fn whole_days_round_toward_zero() {
    assert_eq!(whole_days_between((0, 0), (86399, 0)), 0);
    assert_eq!(whole_days_between((0, 0), (86400, 0)), 1);
    assert_eq!(whole_days_between((0, 0), (3 * 86400 + 5, 0)), 3);
    assert_eq!(whole_days_between((86400, 0), (0, 0)), -1);
    assert_eq!(whole_days_between((86399, 0), (0, 0)), 0);
    assert_eq!(whole_days_between((i64::MIN, 0), (i64::MAX, 0)), 213503982334601);
    // fractions of a second count: 0.9 s short of a day is no day
    assert_eq!(whole_days_between((0, 900_000_000), (86400, 0)), 0);
    assert_eq!(whole_days_between((0, 900_000_000), (86400, 900_000_000)), 1);
    assert_eq!(whole_days_between((86400, 0), (0, 900_000_000)), 0);
    // from within a leap second (23:59:60.5) to midnight two days on
    assert_eq!(whole_days_between((86399, 1_500_000_000), (3 * 86400, 0)), 1);
}

#[test]
fn activity_status_from_timestamps() {
    // 2024-03-01T00:00:00Z
    let now = (1709251200, 0);
    assert_eq!(activity_status(&Some("2024-02-28T00:00:00Z".to_string()), now, 0), "active");
    assert_eq!(activity_status(&Some("2024-02-24T00:00:00Z".to_string()), now, 0), "quiet");
    assert_eq!(activity_status(&Some("2024-02-01T00:00:00Z".to_string()), now, 0), "idle");
    assert_eq!(activity_status(&Some("2024-02-01T00:00:00Z".to_string()), now, 5), "active");
    assert_eq!(activity_status(&Some("garbage".to_string()), now, 5), "idle");
    assert_eq!(activity_status(&None, now, 5), "idle");
    // 3 days and 0.1 s short of 4 days ago is still 3 whole days
    assert_eq!(activity_status(&Some("2024-02-26T00:00:00.1Z".to_string()), now, 0), "active");
    assert_eq!(activity_status(&Some("2024-02-25T23:59:59.9Z".to_string()), now, 0), "quiet");
    // with now at .1 s, a last activity at .9 s four days back is 3 whole days ago
    assert_eq!(activity_status(&Some("2024-02-26T00:00:00.9Z".to_string()), (1709251200, 100_000_000), 0), "active");
    assert_eq!(activity_status(&Some("2024-02-26T00:00:00.1Z".to_string()), (1709251200, 900_000_000), 0), "quiet");
}

#[test]
fn activity_trend_merges_periods() {
    let prs = vec![("2024-01-02".to_string(), 2), ("2024-01-01".to_string(), 1)];
    let reviews = vec![("2024-01-03".to_string(), 4), ("2024-01-01".to_string(), 5)];
    let issues = vec![("2024-01-02".to_string(), 7), ("2024-01-02".to_string(), 9)];
    let trend = merge_activity_trend(&prs, &reviews, &issues);
    let periods: Vec<&str> = trend.iter().map(|p| p.timestamp.as_str()).collect();
    assert_eq!(periods, vec!["2024-01-01", "2024-01-02", "2024-01-03"]);
    assert_eq!((trend[0].pr_count, trend[0].review_count, trend[0].issue_count), (1, 5, 0));
    assert_eq!((trend[1].pr_count, trend[1].review_count, trend[1].issue_count), (2, 0, 9));
    assert_eq!((trend[2].pr_count, trend[2].review_count, trend[2].issue_count), (0, 4, 0));
    assert_eq!(trend[0].total_activity, 6);
    assert_eq!(trend[1].total_activity, 11);
    assert_eq!(trend[2].total_activity, 4);
}

#[test]
fn empty_trend() {
    assert!(merge_activity_trend(&vec![], &vec![], &vec![]).is_empty());
}

#[test]
fn collaboration_matrix_mirrors() {
    let users = vec![user(1, "ann"), user(2, "bob"), user(3, "cy")];
    // (pr author, reviewing user, count)
    let reviews = vec![(1, 2, 4), (2, 1, 1), (3, 1, 6), (3, 1, 2), (9, 1, 5), (1, 1, 3)];
    let m = build_collaboration_matrix(users, &reviews);
    assert_eq!(m.users.len(), 3);
    // bob reviewed ann's code 4 times
    assert_eq!(m.interactions[1][0], InteractionStats { reviews_given: 4, reviews_received: 1 });
    assert_eq!(m.interactions[0][1], InteractionStats { reviews_given: 1, reviews_received: 4 });
    // the last row for a pair counts
    assert_eq!(m.interactions[0][2], InteractionStats { reviews_given: 2, reviews_received: 0 });
    assert_eq!(m.interactions[2][0], InteractionStats { reviews_given: 0, reviews_received: 2 });
    // no one reviews themselves in the matrix
    assert_eq!(m.interactions[0][0], InteractionStats { reviews_given: 0, reviews_received: 0 });
    for i in 0..3 {
        for j in 0..3 {
            assert_eq!(m.interactions[i][j].reviews_received, m.interactions[j][i].reviews_given);
        }
    }
}

#[test]
fn repository_ranking_and_focus() {
    let mut contributions = Vec::new();
    for k in 0..12 {
        contributions.push(new_contribution(k, "org".to_string(), format!("r{}", k), k as i32 % 3, 1, 0));
    }
    assert_eq!(contributions[5].total_contributions, 3);
    assert_eq!(total_work(&contributions), 12 + 0 + 1 + 2 + 0 + 1 + 2 + 0 + 1 + 2 + 0 + 1 + 2);
    let ranked = rank_contributions(contributions);
    let ids: Vec<i64> = ranked.iter().map(|c| c.repo_id).collect();
    assert_eq!(ids, vec![2, 5, 8, 11, 1, 4, 7, 10, 0, 3, 6, 9]);
    let focus = focus_distribution(&ranked);
    assert_eq!(focus.len(), FOCUS_TOP_REPOS);
    assert_eq!(focus[0], ("org/r2".to_string(), 3));
    assert_eq!(focus[9], ("org/r3".to_string(), 1));
    assert!(focus_distribution(&vec![]).is_empty());
}
