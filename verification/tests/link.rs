use database_links::error::{CommandError, Missing};
use database_links::link::{
    find_app_link, find_existing_link, LinkCheck, LinkCommand, LinkFlow, SqliteLinkCommand,
    SqliteUnlinkCommand, UnlinkCommand, UnlinkFlow,
};
use database_links::model::{Database, Link, ResourceLabel};
use database_links::protocol::{Progress, Reply, Request};

const APP_ID: u128 = 0x1234_5678_9abc_def0_1122_3344_5566_7788;

fn label(app_id: u128, label: &str, app: Option<&str>) -> ResourceLabel {
    ResourceLabel { app_id, label: label.to_string(), app_name: app.map(str::to_string) }
}

fn command(app: &str, database: &str, label: &str) -> SqliteLinkCommand {
    SqliteLinkCommand {
        app: app.to_string(),
        database: database.to_string(),
        label: label.to_string(),
    }
}

/// Runs a link command against `databases`, answering a confirmation with
/// `confirm`. Returns every request made and how the command ended.
fn run_link(
    command: SqliteLinkCommand,
    databases: Vec<Database>,
    confirm: Option<bool>,
) -> (Vec<Request>, Result<(), CommandError>) {
    let mut requests = Vec::new();
    let mut step = command.link(APP_ID);
    loop {
        match step {
            Progress::Done(outcome) => return (requests, outcome),
            Progress::Continue(flow, request) => {
                let reply = match &request {
                    Request::ListDatabases { .. } => Reply::Databases(databases.clone()),
                    Request::Confirm { .. } => Reply::Confirmed(confirm),
                    _ => Reply::Completed,
                };
                requests.push(request);
                step = flow.resume(reply);
            }
        }
    }
}

fn run_unlink(
    command: SqliteUnlinkCommand,
    databases: Vec<Database>,
) -> (Vec<Request>, Result<(), CommandError>) {
    let mut requests = Vec::new();
    let mut step = command.unlink(APP_ID);
    loop {
        match step {
            Progress::Done(outcome) => return (requests, outcome),
            Progress::Continue(flow, request) => {
                let reply = match &request {
                    Request::ListDatabases { .. } => Reply::Databases(databases.clone()),
                    _ => Reply::Completed,
                };
                requests.push(request);
                step = flow.resume(reply);
            }
        }
    }
}

fn mutations(requests: &[Request]) -> Vec<&Request> {
    requests.iter().filter(|r| r.is_mutation()).collect()
}

fn conflict_scenario() -> Vec<Database> {
    vec![
        Database::new("db1".to_string(), vec![]),
        Database::new("db2".to_string(), vec![label(APP_ID, "email", Some("app"))]),
    ]
}

#[test]
fn test_sqlite_link_error_database_does_not_exist() {
    let dbs = vec![
        Database::new("db1".to_string(), vec![]),
        Database::new("db2".to_string(), vec![]),
    ];
    let (requests, result) = run_link(command("app", "does-not-exist", "label"), dbs, None);
    assert_eq!(
        result.unwrap_err().message(),
        r#"Database "does-not-exist" does not exist"#
    );
    assert_eq!(requests, vec![Request::ListDatabases { app_id: None }]);
}

#[test]
fn test_sqlite_link_succeeds_when_database_exists() {
    let dbs = vec![
        Database::new("db1".to_string(), vec![]),
        Database::new("db2".to_string(), vec![]),
    ];
    let expected_resource_label = label(APP_ID, "label", None);
    let (requests, result) = run_link(command("app", "db1", "label"), dbs, None);
    assert_eq!(result, Ok(()));
    assert_eq!(
        requests,
        vec![
            Request::ListDatabases { app_id: None },
            Request::CreateLink { database: "db1".to_string(), link: expected_resource_label },
            Request::Say {
                line: r#"Database "db1" is now linked to app "app" with the label "label""#
                    .to_string()
            },
        ]
    );
}

#[test]
fn test_sqlite_link_errors_when_link_already_exists() {
    let dbs = vec![
        Database::new("db1".to_string(), vec![label(APP_ID, "label", Some("app"))]),
        Database::new("db2".to_string(), vec![]),
    ];
    let (requests, result) = run_link(command("app", "db1", "label"), dbs, None);
    assert_eq!(
        result.unwrap_err().message(),
        r#"Database "db1" is already linked to app "app" with the label "label""#
    );
    assert!(mutations(&requests).is_empty());
}

#[test]
fn link_already_linked_names_the_existing_link() {
    let dbs = vec![Database::new("db1".to_string(), vec![label(APP_ID, "label", None)])];
    let (_, result) = run_link(command("app", "db1", "label"), dbs, None);
    assert_eq!(
        result,
        Err(CommandError::AlreadyLinked {
            database: "db1".to_string(),
            app: "UNKNOWN".to_string(),
            label: "label".to_string(),
        })
    );
}

#[test]
fn link_missing_database_is_not_found() {
    let (requests, result) = run_link(command("app", "db3", "email"), conflict_scenario(), Some(true));
    assert_eq!(
        result,
        Err(CommandError::NotFound(Missing::Database { name: "db3".to_string() }))
    );
    assert!(mutations(&requests).is_empty());
}

#[test]
fn link_conflict_declined_changes_nothing() {
    let (requests, result) = run_link(command("app", "db1", "email"), conflict_scenario(), Some(false));
    assert_eq!(result, Ok(()));
    assert!(mutations(&requests).is_empty());
    assert_eq!(
        requests,
        vec![
            Request::ListDatabases { app_id: None },
            Request::Confirm {
                prompt: r#"App "app"'s "email" label is currently linked to "db2". Change to link to database "db1" instead?"#
                    .to_string()
            },
            Request::Say { line: "The link has not been updated".to_string() },
        ]
    );
}

#[test]
fn link_conflict_cancelled_changes_nothing() {
    let (requests, result) = run_link(command("app", "db1", "email"), conflict_scenario(), None);
    assert_eq!(result, Ok(()));
    assert!(mutations(&requests).is_empty());
    assert_eq!(
        requests.last(),
        Some(&Request::Say { line: "The link has not been updated".to_string() })
    );
}

#[test]
fn link_conflict_confirmed_removes_then_creates() {
    let (requests, result) = run_link(command("app", "db1", "email"), conflict_scenario(), Some(true));
    assert_eq!(result, Ok(()));
    assert_eq!(
        mutations(&requests),
        vec![
            &Request::RemoveLink {
                database: "db2".to_string(),
                link: label(APP_ID, "email", Some("app")),
            },
            &Request::CreateLink { database: "db1".to_string(), link: label(APP_ID, "email", None) },
        ]
    );
    assert_eq!(
        requests.last(),
        Some(&Request::Say {
            line: r#"Database "db1" is now linked to app "app" with the label "email""#.to_string()
        })
    );
}

#[test]
fn link_ignores_the_links_of_other_applications() {
    let dbs = vec![
        Database::new(
            "db1".to_string(),
            vec![label(APP_ID, "other", Some("app")), label(7, "email", Some("stranger"))],
        ),
        Database::new("db2".to_string(), vec![label(8, "email", Some("third"))]),
    ];
    let (requests, result) = run_link(command("app", "db1", "email"), dbs, None);
    assert_eq!(result, Ok(()));
    assert_eq!(
        mutations(&requests),
        vec![&Request::CreateLink {
            database: "db1".to_string(),
            link: label(APP_ID, "email", None)
        }]
    );
}

#[test]
fn link_failed_removal_stops_before_the_new_link() {
    let flow = match command("app", "db1", "email").link(APP_ID) {
        Progress::Continue(flow, _) => flow,
        other => panic!("unexpected step: {:?}", other),
    };
    let flow = match flow.resume(Reply::Databases(conflict_scenario())) {
        Progress::Continue(flow, Request::Confirm { .. }) => flow,
        other => panic!("unexpected step: {:?}", other),
    };
    let flow = match flow.resume(Reply::Confirmed(Some(true))) {
        Progress::Continue(flow, Request::RemoveLink { .. }) => flow,
        other => panic!("unexpected step: {:?}", other),
    };
    assert_eq!(
        flow.resume(Reply::Failed("gone".to_string())),
        Progress::Done(Err(CommandError::Upstream { context: None, cause: "gone".to_string() }))
    );
}

#[test]
fn link_failed_new_link_after_removal_leaves_the_label_unbound() {
    let flow = LinkFlow::Removing { command: command("app", "db1", "email"), app_id: APP_ID };
    let flow = match flow.resume(Reply::Completed) {
        Progress::Continue(flow, Request::CreateLink { database, link }) => {
            assert_eq!(database, "db1");
            assert_eq!(link, label(APP_ID, "email", None));
            flow
        }
        other => panic!("unexpected step: {:?}", other),
    };
    let end = flow.resume(Reply::Failed("refused".to_string()));
    assert_eq!(
        end,
        Progress::Done(Err(CommandError::Upstream { context: None, cause: "refused".to_string() }))
    );
}

#[test]
fn link_failed_listing_reports_what_was_being_done() {
    let flow = match LinkCommand::Sqlite(command("app", "db1", "email")).run(APP_ID) {
        Progress::Continue(flow, Request::ListDatabases { app_id: None }) => flow,
        other => panic!("unexpected step: {:?}", other),
    };
    match flow.resume(Reply::Failed("timeout".to_string())) {
        Progress::Done(Err(error)) => {
            assert_eq!(
                error,
                CommandError::Upstream {
                    context: Some("could not fetch databases".to_string()),
                    cause: "timeout".to_string()
                }
            );
            assert_eq!(error.message(), "could not fetch databases");
        }
        other => panic!("unexpected step: {:?}", other),
    }
}

#[test]
fn link_unexpected_reply_ends_the_workflow() {
    let flow = LinkFlow::Listing { command: command("app", "db1", "email"), app_id: APP_ID };
    assert_eq!(
        flow.resume(Reply::Confirmed(Some(true))),
        Progress::Done(Err(CommandError::UnexpectedReply))
    );
}

#[test]
fn check_reports_the_conflicting_link() {
    let outcome = command("app", "db1", "email").check(&conflict_scenario(), APP_ID);
    assert_eq!(
        outcome,
        Ok(LinkCheck::Conflict(Link::new(label(APP_ID, "email", Some("app")), "db2".to_string())))
    );
    let free = command("app", "db1", "logs").check(&conflict_scenario(), APP_ID);
    assert_eq!(free, Ok(LinkCheck::Free));
}

#[test]
fn find_app_link_takes_the_first_link_of_the_application() {
    let db = Database::new(
        "db".to_string(),
        vec![
            label(1, "email", Some("one")),
            label(APP_ID, "email", Some("first")),
            label(APP_ID, "email", Some("second")),
        ],
    );
    assert_eq!(
        find_app_link(&db, APP_ID, "email"),
        Some(Link::new(label(APP_ID, "email", Some("first")), "db".to_string()))
    );
    assert_eq!(find_app_link(&db, APP_ID, "logs"), None);
    assert_eq!(find_app_link(&db, 2, "email"), None);
}

#[test]
fn find_existing_link_tells_the_target_from_the_others() {
    let dbs = conflict_scenario();
    assert_eq!(find_existing_link(&dbs, APP_ID, "email", "db1", true), None);
    assert_eq!(
        find_existing_link(&dbs, APP_ID, "email", "db1", false).map(|l| l.resource),
        Some("db2".to_string())
    );
    assert_eq!(
        find_existing_link(&dbs, APP_ID, "email", "db2", true).map(|l| l.resource),
        Some("db2".to_string())
    );
    assert_eq!(find_existing_link(&dbs, APP_ID, "email", "db2", false), None);
}

#[test]
fn unlink_without_a_link_is_not_found() {
    let dbs = vec![Database::new("db1".to_string(), vec![label(APP_ID, "logs", Some("app"))])];
    let command = SqliteUnlinkCommand { app: "app".to_string(), label: "email".to_string() };
    let (requests, result) = run_unlink(command, dbs);
    assert_eq!(
        result,
        Err(CommandError::NotFound(Missing::Link {
            app: "app".to_string(),
            label: "email".to_string()
        }))
    );
    assert_eq!(
        result.unwrap_err().message(),
        "no database was linked to app 'app' with label 'email'"
    );
    assert_eq!(requests, vec![Request::ListDatabases { app_id: Some(APP_ID) }]);
}

#[test]
fn unlink_removes_the_link_found() {
    let dbs = vec![
        Database::new("db1".to_string(), vec![label(APP_ID, "email", Some("other"))]),
        Database::new(
            "db2".to_string(),
            vec![label(APP_ID, "logs", Some("app")), label(APP_ID, "email", Some("app"))],
        ),
    ];
    let command = SqliteUnlinkCommand { app: "app".to_string(), label: "email".to_string() };
    let (requests, result) = run_unlink(command, dbs);
    assert_eq!(result, Ok(()));
    assert_eq!(
        requests,
        vec![
            Request::ListDatabases { app_id: Some(APP_ID) },
            Request::RemoveLink {
                database: "db2".to_string(),
                link: label(APP_ID, "email", Some("app"))
            },
            Request::Say { line: "Database 'db2' no longer linked to app app".to_string() },
        ]
    );
}

#[test]
fn unlink_failed_removal_is_an_upstream_failure() {
    let command = SqliteUnlinkCommand { app: "app".to_string(), label: "email".to_string() };
    let flow = match UnlinkCommand::Sqlite(command).run(APP_ID) {
        Progress::Continue(flow, _) => flow,
        other => panic!("unexpected step: {:?}", other),
    };
    let dbs = vec![Database::new("db".to_string(), vec![label(APP_ID, "email", Some("app"))])];
    let flow: UnlinkFlow = match flow.resume(Reply::Databases(dbs)) {
        Progress::Continue(flow, Request::RemoveLink { .. }) => flow,
        other => panic!("unexpected step: {:?}", other),
    };
    assert_eq!(
        flow.resume(Reply::Failed("no".to_string())),
        Progress::Done(Err(CommandError::Upstream { context: None, cause: "no".to_string() }))
    );
}
