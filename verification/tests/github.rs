use made_activity_tracker::db::models::Milestone;
use made_activity_tracker::github::auth::{poll_step, verification_url, DeviceFlowResponse, PollStep};
use made_activity_tracker::github::cli::{issue_from_cli, issue_list_args, milestone_from_cli,
    milestones_api_args, pr_from_cli, pr_list_args, review_from_cli, CliIssue, CliLabel, CliMilestone,
    CliPullRequest, CliReview, CliUser, GitHubCli};
use made_activity_tracker::github::commands::group_milestones_by_cycle;
use made_activity_tracker::github::graphql::{check_reply, error_text, next_page, Actor,
    AssigneeConnection, GraphQlError, IssueCount, IssueNode, LabelConnection, LabelNode, MilestoneNode,
    MilestoneRef, PageInfo, PullRequestNode, ReviewConnection, ReviewNode};
use made_activity_tracker::github::rest_api::{absorb_page, issues_url, milestones_url, pulls_url,
    RestIssue, RestLabel, RestMilestone, RestPullRequest, RestPullRequestRef, RestUser};
use made_activity_tracker::github::sync::{keep_cli_pr, milestone_from_graphql, milestone_from_rest,
    plan_graphql_issues, plan_graphql_prs, plan_rest_issues, plan_rest_prs, sync_verdict,
    SourceOutcome, SyncSource, SyncVerdict};
use made_activity_tracker::github::sync_user::{detail_url, more_pages, plan_search_issue,
    plan_search_pr, search_url, SearchAccount, SearchItemDetail, SearchKind};

fn bots() -> Vec<String> {
    vec!["dependabot[bot]".to_string()]
}

fn actor(login: &str, id: Option<i64>) -> Actor {
    Actor { login: login.to_string(), database_id: id }
}

fn labels(names: &[&str]) -> LabelConnection {
    LabelConnection { nodes: names.iter().map(|n| LabelNode { name: n.to_string() }).collect() }
}

fn issue_node(n: i32, author: Option<Actor>) -> IssueNode {
    IssueNode {
        id: format!("I_{}", n),
        database_id: 1000 + n as i64,
        number: n,
        title: format!("Issue {}", n),
        body: Some("body".to_string()),
        state: "OPEN".to_string(),
        created_at: "2024-01-01T00:00:00Z".to_string(),
        updated_at: "2024-01-02T00:00:00Z".to_string(),
        closed_at: None,
        author,
        assignees: AssigneeConnection { nodes: vec![actor("zed", None), actor("amy", Some(5))] },
        labels: labels(&["bug", "ui"]),
        milestone: Some(MilestoneRef { id: "M".to_string(), number: 3, title: "Cycle 1".to_string() }),
    }
}

#[test]
fn graphql_reply_meaning() {
    assert!(check_reply(None, true, "o", "r").is_ok());
    assert!(matches!(check_reply(None, false, "o", "r"), Err(GraphQlError::NoData)));
    let errs = vec!["Bad query".to_string(), "Other".to_string()];
    match check_reply(Some(errs), true, "o", "r") {
        Err(GraphQlError::Errors { messages }) => assert_eq!(messages.len(), 2),
        _ => panic!("expected plain errors"),
    }
    let saml = vec!["Resource protected by organization SAML enforcement.".to_string()];
    match check_reply(Some(saml), true, "acme", "app") {
        Err(GraphQlError::SamlRequired { owner, repo }) => {
            assert_eq!(owner, "acme");
            assert_eq!(repo, "app");
        }
        _ => panic!("expected a SAML refusal"),
    }
    assert!(matches!(check_reply(Some(vec![]), true, "o", "r"), Err(GraphQlError::Errors { .. })));
}

#[test]
fn graphql_error_texts() {
    let e = GraphQlError::Errors { messages: vec!["a".to_string(), "b".to_string()] };
    assert_eq!(error_text(&e), "GraphQL errors: a, b");
    assert_eq!(error_text(&GraphQlError::NoData), "No data in response");
    let h = GraphQlError::Http { status: "401 Unauthorized".to_string(), body: "{}".to_string() };
    assert_eq!(error_text(&h), "GitHub API error (401 Unauthorized): {}");
    let p = GraphQlError::Parse { message: "eof".to_string(), body: "x".to_string() };
    assert_eq!(error_text(&p), "Failed to parse response: eof. Body: x");
}

#[test]
fn graphql_paging() {
    let more = PageInfo { has_next_page: true, end_cursor: Some("abc".to_string()) };
    assert_eq!(next_page(&more), Some(Some("abc".to_string())));
    let last = PageInfo { has_next_page: false, end_cursor: Some("abc".to_string()) };
    assert_eq!(next_page(&last), None);
}

#[test]
fn rest_addresses_and_paging() {
    assert_eq!(
        issues_url("acme", "app", "2024-01-01T00:00:00Z", 2),
        "https://api.github.com/repos/acme/app/issues?state=all&since=2024-01-01T00:00:00Z&per_page=100&page=2"
    );
    assert_eq!(pulls_url("acme", "app", 1), "https://api.github.com/repos/acme/app/pulls?state=all&per_page=100&page=1");
    assert_eq!(milestones_url("acme", "app"), "https://api.github.com/repos/acme/app/milestones?state=all&per_page=100");
    let mut all: Vec<i32> = Vec::new();
    assert_eq!(absorb_page(&mut all, (0..100).collect(), 1), Some(2));
    assert_eq!(all.len(), 100);
    assert_eq!(absorb_page(&mut all, (0..30).collect(), 2), None);
    assert_eq!(all.len(), 130);
    assert_eq!(absorb_page(&mut all, vec![], 3), None);
    assert_eq!(all.len(), 130);
}

#[test]
fn cli_gate() {
    let missing = GitHubCli::from_probes("gh".to_string(), false, true);
    assert_eq!(missing.check_auth(), Err("GitHub CLI (gh) is not installed. Install from: https://cli.github.com".to_string()));
    let logged_out = GitHubCli::from_probes("gh".to_string(), true, false);
    assert_eq!(logged_out.check_auth(), Err("GitHub CLI is not authenticated. Run: gh auth login".to_string()));
    let ready = GitHubCli::from_probes("gh".to_string(), true, true);
    assert_eq!(ready.check_auth(), Ok(true));
    assert_eq!(ready.command_path(), "gh");
}

#[test]
fn cli_arguments() {
    let args = issue_list_args("acme", "app");
    assert_eq!(args[0], "issue");
    assert_eq!(args[3], "acme/app");
    assert_eq!(args.len(), 10);
    assert_eq!(args[9], "number,title,body,state,author,assignees,milestone,createdAt,updatedAt,closedAt,labels");
    let args = pr_list_args("acme", "app");
    assert_eq!(args[0], "pr");
    assert_eq!(args[7], "1000");
    assert_eq!(milestones_api_args("acme", "app"), vec!["api", "repos/acme/app/milestones", "--paginate"]);
}

#[test]
fn cli_records() {
    let issue = issue_from_cli(CliIssue {
        number: 12,
        title: "T".to_string(),
        body: None,
        state: "OPEN".to_string(),
        author: Some(CliUser { login: "ann".to_string() }),
        assignees: vec![],
        milestone: None,
        created_at: "c".to_string(),
        updated_at: "u".to_string(),
        closed_at: None,
        labels: vec![CliLabel { name: "bug".to_string() }],
    });
    assert_eq!(issue.github_id, 12);
    assert_eq!(issue.sync_updated_at, Some("u".to_string()));
    assert_eq!(issue.labels, vec!["bug".to_string()]);
    let (pr, login) = pr_from_cli(CliPullRequest {
        number: 3,
        title: "P".to_string(),
        body: Some("b".to_string()),
        state: "MERGED".to_string(),
        author: Some(CliUser { login: "bob".to_string() }),
        created_at: "c".to_string(),
        updated_at: "u".to_string(),
        merged_at: Some("m".to_string()),
        closed_at: Some("m".to_string()),
        additions: 10,
        deletions: 2,
        changed_files: 1,
        labels: vec![],
    });
    assert_eq!(login, Some("bob".to_string()));
    assert_eq!(pr.github_id, 3);
    assert_eq!(pr.additions, 10);
    let m = milestone_from_cli(CliMilestone {
        id: 77,
        title: "Cycle".to_string(),
        description: None,
        state: "open".to_string(),
        due_on: None,
        open_issues: 4,
        closed_issues: 5,
    });
    assert_eq!((m.github_id, m.open_issues, m.closed_issues), (77, 4, 5));
    let r = review_from_cli(CliReview { id: 9, user: None, state: "APPROVED".to_string(), submitted_at: "s".to_string() });
    assert_eq!(r.github_id, 9);
    assert_eq!(r.sync_updated_at, Some("s".to_string()));
}

#[test]
fn sync_source_order() {
    assert_eq!(sync_verdict(SyncSource::GraphQl, SourceOutcome::Succeeded), SyncVerdict::Completed);
    assert_eq!(sync_verdict(SyncSource::GraphQl, SourceOutcome::SamlRequired), SyncVerdict::TryNext(SyncSource::Rest));
    assert_eq!(sync_verdict(SyncSource::GraphQl, SourceOutcome::Failed), SyncVerdict::Aborted);
    assert_eq!(sync_verdict(SyncSource::Rest, SourceOutcome::Failed), SyncVerdict::TryNext(SyncSource::Cli));
    assert_eq!(sync_verdict(SyncSource::Cli, SourceOutcome::Failed), SyncVerdict::GaveUp);
    assert_eq!(sync_verdict(SyncSource::Cli, SourceOutcome::Succeeded), SyncVerdict::Completed);
}

#[test]
fn graphql_issue_plans() {
    let nodes = vec![
        issue_node(1, Some(actor("ann", Some(11)))),
        issue_node(2, Some(actor("dependabot[bot]", Some(12)))),
        issue_node(3, Some(actor("carl", None))),
        issue_node(4, None),
    ];
    let plans = plan_graphql_issues(&nodes, 7, &bots());
    assert_eq!(plans.len(), 4);
    let p = plans[0].as_ref().unwrap();
    assert_eq!(p.issue.github_id, 1001);
    assert_eq!(p.issue.repo_id, 7);
    assert_eq!(p.issue.labels, vec!["bug".to_string(), "ui".to_string()]);
    assert_eq!(p.author.as_ref().unwrap().github_id, 11);
    // the first assignee has no id, so no assignee is resolved
    assert!(p.assignee.is_none());
    assert_eq!(p.milestone_ref, Some(3));
    assert!(plans[1].is_none());
    assert!(plans[2].as_ref().unwrap().author.is_none());
    assert!(plans[3].is_some());
}

#[test]
fn graphql_pr_plans() {
    let node = PullRequestNode {
        id: "P".to_string(),
        database_id: 55,
        number: 5,
        title: "PR".to_string(),
        body: None,
        state: "MERGED".to_string(),
        created_at: "c".to_string(),
        updated_at: "u".to_string(),
        merged_at: Some("m".to_string()),
        closed_at: Some("m".to_string()),
        additions: 3,
        deletions: 4,
        changed_files: 2,
        author: Some(actor("ann", Some(1))),
        labels: labels(&[]),
        reviews: ReviewConnection {
            nodes: vec![
                ReviewNode { id: "R1".to_string(), database_id: 91, state: "APPROVED".to_string(), submitted_at: Some("s".to_string()), author: Some(actor("bob", Some(2))) },
                ReviewNode { id: "R2".to_string(), database_id: 92, state: "PENDING".to_string(), submitted_at: None, author: None },
            ],
        },
    };
    let plans = plan_graphql_prs(&vec![node], 7, &bots());
    let p = plans[0].as_ref().unwrap();
    assert_eq!(p.pr.github_id, 55);
    assert_eq!(p.reviews.len(), 2);
    let r = p.reviews[0].as_ref().unwrap();
    assert_eq!(r.review.github_id, 91);
    assert_eq!(r.reviewer.as_ref().unwrap().login, "bob");
    assert!(p.reviews[1].is_none());
}

#[test]
fn rest_plans() {
    let issue = |n: i32, pr: bool, login: &str| RestIssue {
        id: n as i64 * 100,
        number: n,
        title: "t".to_string(),
        body: None,
        state: "open".to_string(),
        user: Some(RestUser { id: 1, login: login.to_string() }),
        assignee: None,
        milestone: Some(RestMilestone {
            id: 444,
            number: 2,
            title: "m".to_string(),
            description: None,
            state: "open".to_string(),
            due_on: None,
            open_issues: 0,
            closed_issues: 0,
        }),
        labels: vec![RestLabel { name: "x".to_string() }],
        created_at: "c".to_string(),
        updated_at: "u".to_string(),
        closed_at: None,
        pull_request: if pr { Some(RestPullRequestRef { url: "u".to_string() }) } else { None },
    };
    let plans = plan_rest_issues(&vec![issue(1, false, "ann"), issue(2, true, "ann"), issue(3, false, "renovate[bot]")], 9, &bots());
    assert_eq!(plans[0].as_ref().unwrap().milestone_ref, Some(444));
    assert!(plans[1].is_none());
    // "renovate[bot]" ends with "[bot]": every login with that suffix is a bot
    assert!(plans[2].is_none());
    let pr = RestPullRequest {
        id: 5,
        number: 6,
        title: "t".to_string(),
        body: None,
        state: "closed".to_string(),
        user: None,
        labels: vec![],
        created_at: "c".to_string(),
        updated_at: "u".to_string(),
        merged_at: None,
        closed_at: None,
        additions: None,
        deletions: Some(4),
        changed_files: None,
    };
    let plans = plan_rest_prs(&vec![pr], 9, &bots());
    let p = plans[0].as_ref().unwrap();
    assert_eq!((p.pr.additions, p.pr.deletions, p.pr.changed_files), (0, 4, 0));
    assert!(p.author.is_none());
    assert!(keep_cli_pr(&None, &bots()));
    assert!(!keep_cli_pr(&Some("dependabot[bot]".to_string()), &bots()));
    assert!(keep_cli_pr(&Some("ann".to_string()), &bots()));
}

#[test]
fn milestone_records() {
    let node = MilestoneNode {
        id: "M".to_string(),
        number: 4,
        title: "Cycle 4".to_string(),
        description: Some("d".to_string()),
        state: "OPEN".to_string(),
        due_on: Some("2024-05-01".to_string()),
        issues: IssueCount { total_count: 10 },
        closed_issues: IssueCount { total_count: 6 },
    };
    let m = milestone_from_graphql(&node, 3);
    assert_eq!((m.github_id, m.repo_id, m.open_issues, m.closed_issues), (4, 3, 10, 6));
    let r = milestone_from_rest(
        &RestMilestone {
            id: 99,
            number: 4,
            title: "Cycle 4".to_string(),
            description: None,
            state: "open".to_string(),
            due_on: None,
            open_issues: 2,
            closed_issues: 1,
        },
        3,
    );
    assert_eq!((r.github_id, r.open_issues, r.closed_issues), (99, 2, 1));
}

#[test]
fn search_sync() {
    assert_eq!(
        search_url(SearchKind::PullRequest, "ann", "acme", "app", "2024-01-01", 2),
        "https://api.github.com/search/issues?q=type:pr+author:ann+repo:acme/app+created:>=2024-01-01&per_page=100&page=2"
    );
    assert_eq!(detail_url(SearchKind::Issue, "acme", "app", 17), "https://api.github.com/repos/acme/app/issues/17");
    assert_eq!(detail_url(SearchKind::PullRequest, "acme", "app", 17), "https://api.github.com/repos/acme/app/pulls/17");
    assert!(more_pages(1, Some(150)));
    assert!(!more_pages(2, Some(150)));
    assert!(!more_pages(1, Some(100)));
    assert!(!more_pages(1, None));
    let detail = SearchItemDetail {
        id: None,
        title: None,
        body: None,
        state: None,
        user: Some(SearchAccount { id: Some(8), login: None }),
        assignee: Some(SearchAccount { id: None, login: Some("x".to_string()) }),
        created_at: Some("c".to_string()),
        updated_at: None,
        merged_at: None,
        closed_at: None,
        additions: Some(5_000_000_000),
        deletions: None,
        changed_files: Some(3),
        labels: Some(vec![Some("a".to_string()), None, Some("b".to_string())]),
        has_pull_request: false,
    };
    let pr = plan_search_pr(&detail, 12, 4);
    assert_eq!(pr.pr.github_id, 0);
    assert_eq!(pr.pr.state, "open");
    assert_eq!(pr.pr.title, "");
    assert_eq!(pr.pr.additions, 5_000_000_000i64 as i32);
    assert_eq!(pr.pr.labels, vec!["a".to_string(), "b".to_string()]);
    assert_eq!(pr.author.as_ref().unwrap().login, "");
    let issue = plan_search_issue(&detail, 12, 4).unwrap();
    assert!(issue.assignee.is_none());
    assert_eq!(issue.issue.sync_updated_at, Some(String::new()));
    let mut as_pr = detail.clone();
    as_pr.has_pull_request = true;
    assert!(plan_search_issue(&as_pr, 12, 4).is_none());
}

#[test]
fn device_flow() {
    let d = DeviceFlowResponse {
        device_code: "dc".to_string(),
        user_code: "ABCD-1234".to_string(),
        verification_uri: "https://github.com/login/device".to_string(),
        expires_in: 900,
        interval: 5,
    };
    assert_eq!(verification_url(&d), "https://github.com/login/device?user_code=ABCD-1234");
    assert!(matches!(poll_step(Some("tok".to_string()), Some("slow_down".to_string())), PollStep::Token(t) if t == "tok"));
    assert!(matches!(poll_step(None, None), PollStep::Wait));
    assert!(matches!(poll_step(None, Some("authorization_pending".to_string())), PollStep::Wait));
    assert!(matches!(poll_step(None, Some("slow_down".to_string())), PollStep::WaitLonger));
    assert!(matches!(poll_step(None, Some("expired_token".to_string())), PollStep::Fail(m) if m == "Device code expired"));
    assert!(matches!(poll_step(None, Some("access_denied".to_string())), PollStep::Fail(m) if m == "Access denied by user"));
    assert!(matches!(poll_step(None, Some("weird".to_string())), PollStep::Fail(m) if m == "OAuth error: weird"));
}

fn milestone(id: i64, repo: i64, title: &str, due: Option<&str>, open: i32, closed: i32) -> Milestone {
    Milestone {
        id,
        github_id: id,
        repo_id: repo,
        title: title.to_string(),
        description: None,
        state: "open".to_string(),
        due_on: due.map(|s| s.to_string()),
        open_issues: open,
        closed_issues: closed,
    }
}

#[test]
fn roadmap_groups_cycles() {
    let ms = vec![
        milestone(1, 10, "Cycle B", Some("2024-03-01"), 2, 1),
        milestone(2, 11, "Cycle A", Some("2024-02-01"), 5, 0),
        milestone(3, 12, "Cycle B", Some("2024-09-09"), 3, 4),
        milestone(4, 10, "Backlog", None, 7, 7),
    ];
    let groups = group_milestones_by_cycle(&ms);
    let titles: Vec<&str> = groups.iter().map(|g| g.title.as_str()).collect();
    assert_eq!(titles, vec!["Backlog", "Cycle A", "Cycle B"]);
    let b = &groups[2];
    assert_eq!(b.due_date, Some("2024-03-01".to_string()));
    assert_eq!((b.total_open, b.total_closed), (5, 5));
    assert_eq!(b.milestones.len(), 2);
    assert_eq!(b.milestones[1].id, "3");
    assert_eq!(b.milestones[1].repo, "repo-12");
    let total_open: i32 = groups.iter().map(|g| g.total_open).sum();
    assert_eq!(total_open, 2 + 5 + 3 + 7);
    assert!(group_milestones_by_cycle(&vec![]).is_empty());
}
