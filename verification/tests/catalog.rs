use dispatch::asset::{Asset, Type};
use dispatch::error::Failure;
use dispatch::github::{accept_session_token, session_token, user_agent, GitHub, GitHubArgs, Report};
use dispatch::http::header::{Field, Header};
use dispatch::milestone::Milestone;
use dispatch::release::Release;

fn args(token: Option<&str>) -> GitHubArgs {
    GitHubArgs {
        token: token.map(|t| t.to_string()),
        owner: "acme".to_string(),
        repo: "boot".to_string(),
        tag: "nightly-42".to_string(),
        filter: vec!["boot".to_string()],
    }
}

fn page(from: u64, count: u64) -> Vec<Milestone> {
    (from..from + count).map(|n| Milestone { title: format!("m{}", n), number: n }).collect()
}

fn loaded(pages: Vec<Vec<Milestone>>) -> GitHub {
    let mut github = GitHub::new(args(Some("secret")), true).unwrap();
    for p in pages {
        assert!(github.next_request().is_some());
        github.accept_page(p);
    }
    github
}

fn pairs(headers: &[Header]) -> Vec<(Field, String)> {
    headers.iter().map(|h| (h.field(), h.value().to_string())).collect()
}

#[test]
fn session_token_is_trimmed() {
    assert_eq!(session_token(true, "  gho_abc \n"), Some("gho_abc".to_string()));
    assert_eq!(session_token(true, "gho_abc"), Some("gho_abc".to_string()));
}

#[test]
fn session_token_needs_success_and_text() {
    assert_eq!(session_token(false, "gho_abc\n"), None);
    assert_eq!(session_token(true, " \n\t"), None);
    assert_eq!(session_token(true, ""), None);
}

#[test]
fn accept_session_token_takes_the_text_as_it_is() {
    assert_eq!(accept_session_token(true, "tok"), Some("tok".to_string()));
    assert_eq!(accept_session_token(true, " tok"), Some(" tok".to_string()));
    assert_eq!(accept_session_token(true, ""), None);
    assert_eq!(accept_session_token(false, "tok"), None);
}

#[test]
fn login_prefers_the_supplied_token() {
    let github = args(Some("mine")).login(Some("theirs".to_string()), false).unwrap();
    assert_eq!(github.token(), Some("mine"));
    assert!(!github.is_private());
}

#[test]
fn login_falls_back_to_the_session_token() {
    let github = args(None).login(Some("theirs".to_string()), true).unwrap();
    assert_eq!(github.token(), Some("theirs"));
    assert!(github.is_private());
    assert_eq!(github.requests(), 0);
    assert_eq!(github.milestones(), 0);
}

#[test]
fn login_without_a_credential_fails() {
    assert_eq!(args(None).login(None, false).err(), Some(Failure::AuthenticationRequired));
}

#[test]
fn login_with_a_token_unfit_for_a_header_fails() {
    assert_eq!(args(Some("bad\ntoken")).login(None, false).err(), Some(Failure::InvalidHeaderValue));
    assert_eq!(args(None).login(Some("bad\u{7f}".to_string()), false).err(), Some(Failure::InvalidHeaderValue));
}

#[test]
fn headers_with_a_token() {
    let headers = args(Some("secret")).headers().unwrap();
    assert_eq!(
        pairs(&headers),
        vec![
            (Field::Accept, "application/vnd.github+json".to_string()),
            (Field::UserAgent, "dispatch/0.1.0".to_string()),
            (Field::Authorization, "Bearer secret".to_string()),
        ]
    );
}

#[test]
fn headers_without_a_token() {
    let headers = args(None).headers().unwrap();
    assert_eq!(
        pairs(&headers),
        vec![
            (Field::Accept, "application/vnd.github+json".to_string()),
            (Field::UserAgent, "dispatch/0.1.0".to_string()),
        ]
    );
}

#[test]
fn headers_reject_a_token_unfit_for_a_header() {
    assert_eq!(args(Some("a\nb")).headers().err(), Some(Failure::InvalidHeaderValue));
    assert_eq!(args(Some("a\u{0}b")).headers().err(), Some(Failure::InvalidHeaderValue));
    assert!(args(Some("a\tb \u{e9}~")).headers().is_ok());
}

#[test]
fn header_new_checks_the_value() {
    assert_eq!(Header::new(Field::Accept, "a\rb".to_string()).err(), Some(Failure::InvalidHeaderValue));
    assert_eq!(Header::new(Field::Accept, "\u{1f}".to_string()).err(), Some(Failure::InvalidHeaderValue));
    let h = Header::new(Field::UserAgent, "x/1".to_string()).unwrap();
    assert_eq!(h.field(), Field::UserAgent);
    assert_eq!(h.value(), "x/1");
    assert_eq!(h.clone(), h);
    assert_eq!(Field::Accept.name(), "Accept");
    assert_eq!(Field::Authorization.name(), "Authorization");
    assert_eq!(Field::UserAgent.name(), "User-Agent");
}

#[test]
fn user_agent_is_product_and_version() {
    assert_eq!(user_agent(), "dispatch/0.1.0");
}

#[test]
fn new_fails_on_a_token_unfit_for_a_header() {
    assert_eq!(GitHub::new(args(Some("a\nb")), false).err(), Some(Failure::InvalidHeaderValue));
}

#[test]
fn requests_go_to_the_api() {
    let github = GitHub::new(args(None), false).unwrap();
    assert_eq!(
        github.next_request(),
        Some("https://api.github.com/repos/acme/boot/milestones?state=all&per_page=100&page=1".to_string())
    );
    assert_eq!(github.release_request(), "https://api.github.com/repos/acme/boot/releases/tags/nightly-42");
    assert_eq!(github.report_request(), "https://api.github.com/repos/acme/boot/issues");
}

#[test]
fn pagination_stops_at_the_first_empty_page() {
    let mut github = GitHub::new(args(None), false).unwrap();
    let mut pages = vec![page(0, 100), page(100, 100), page(200, 37), vec![], page(500, 5)].into_iter();
    let mut asked = Vec::new();
    while let Some(url) = github.next_request() {
        asked.push(url);
        github.accept_page(pages.next().unwrap());
    }
    assert_eq!(
        asked,
        vec![
            "https://api.github.com/repos/acme/boot/milestones?state=all&per_page=100&page=1".to_string(),
            "https://api.github.com/repos/acme/boot/milestones?state=all&per_page=100&page=2".to_string(),
            "https://api.github.com/repos/acme/boot/milestones?state=all&per_page=100&page=3".to_string(),
            "https://api.github.com/repos/acme/boot/milestones?state=all&per_page=100&page=4".to_string(),
        ]
    );
    assert_eq!(github.requests(), 4);
    assert_eq!(github.milestones(), 237);
    assert_eq!(github.next_request(), None);
    assert_eq!(github.milestone("m236"), Ok(236));
    assert_eq!(github.milestone("m500"), Err(Failure::MilestoneNotFound));
}

#[test]
fn pagination_of_an_empty_listing_takes_one_request() {
    let github = loaded(vec![vec![]]);
    assert_eq!(github.requests(), 1);
    assert_eq!(github.milestones(), 0);
    assert_eq!(github.next_request(), None);
}

#[test]
fn pagination_lets_the_later_page_win() {
    let github = loaded(vec![
        vec![Milestone { title: "v1.0".to_string(), number: 1 }],
        vec![Milestone { title: "v1.0".to_string(), number: 9 }],
        vec![],
    ]);
    assert_eq!(github.milestones(), 1);
    assert_eq!(github.milestone("v1.0"), Ok(9));
}

#[test]
fn milestone_is_found_by_title() {
    let github = loaded(vec![vec![Milestone { title: "v1.0".to_string(), number: 12 }], vec![]]);
    assert_eq!(github.milestone("v1.0"), Ok(12));
    assert_eq!(github.milestone("nonexistent"), Err(Failure::MilestoneNotFound));
}

#[test]
fn report_gets_the_number_of_its_milestone() {
    let github = loaded(vec![vec![Milestone { title: "v1.0".to_string(), number: 12 }], vec![]]);
    let sent = github.report(Report {
        title: "boot failed".to_string(),
        body: Some("log".to_string()),
        labels: Some(vec!["ci".to_string()]),
        assignees: Some(vec!["ada".to_string(), "bob".to_string()]),
        milestone: Some("v1.0".to_string()),
    });
    assert_eq!(
        sent,
        Report {
            title: "boot failed".to_string(),
            body: Some("log".to_string()),
            labels: Some(vec!["ci".to_string()]),
            assignees: Some(vec!["ada".to_string(), "bob".to_string()]),
            milestone: Some(12),
        }
    );
}

#[test]
fn report_with_an_unknown_milestone_goes_out_without_one() {
    let github = loaded(vec![vec![Milestone { title: "v1.0".to_string(), number: 12 }], vec![]]);
    let sent = github.report(Report {
        title: "boot passed".to_string(),
        body: None,
        labels: None,
        assignees: None,
        milestone: Some("nonexistent".to_string()),
    });
    assert_eq!(
        sent,
        Report { title: "boot passed".to_string(), body: None, labels: None, assignees: None, milestone: None }
    );
}

#[test]
fn report_without_a_milestone_stays_without_one() {
    let github = loaded(vec![vec![]]);
    let sent = github.report(Report {
        title: "t".to_string(),
        body: None,
        labels: Some(vec![]),
        assignees: None,
        milestone: None,
    });
    assert_eq!(
        sent,
        Report { title: "t".to_string(), body: None, labels: Some(vec![]), assignees: None, milestone: None }
    );
}

#[test]
fn assets_of_nightly_42_with_the_boot_filter() {
    let github = GitHub::new(args(None), false).unwrap();
    let release = Release {
        assets: vec![
            Asset {
                name: "boot.efi".to_string(),
                size: 1,
                url: "url1".to_string(),
                mime: "application/vnd.dispatch+efi".to_string(),
            },
            Asset {
                name: "disk.img".to_string(),
                size: 2,
                url: "url2".to_string(),
                mime: "application/vnd.dispatch+img".to_string(),
            },
            Asset { name: "readme.txt".to_string(), size: 3, url: "url3".to_string(), mime: "text/plain".to_string() },
        ],
    };
    assert_eq!(
        github.assets(release),
        vec![Asset { name: "boot.efi".to_string(), size: 1, url: "url1".to_string(), mime: Type::Efi }]
    );
}

#[test]
fn with_client_opens_the_catalog() {
    let github = GitHub::with_client(args(Some("secret")), true, reqwest::Client::new()).unwrap();
    assert!(github.is_private());
    assert_eq!(github.token(), Some("secret"));
    assert_eq!(github.requests(), 0);
    assert_eq!(github.milestones(), 0);
    assert_eq!(
        github.next_request(),
        Some("https://api.github.com/repos/acme/boot/milestones?state=all&per_page=100&page=1".to_string())
    );
}

#[test]
fn with_client_rejects_a_token_unfit_for_a_header() {
    assert_eq!(
        GitHub::with_client(args(Some("a\nb")), true, reqwest::Client::new()).err(),
        Some(Failure::InvalidHeaderValue)
    );
}

#[test]
fn accept_page_after_the_end_changes_nothing() {
    let mut github = loaded(vec![page(0, 3), vec![]]);
    github.accept_page(page(10, 5));
    github.accept_page(vec![]);
    assert_eq!(github.requests(), 2);
    assert_eq!(github.milestones(), 3);
    assert_eq!(github.next_request(), None);
    assert_eq!(github.milestone("m10"), Err(Failure::MilestoneNotFound));
}
