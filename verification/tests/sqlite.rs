use database_links::error::{CommandError, Missing};
use database_links::lookup::{database_has_link, find_database, find_database_link, find_linked};
use database_links::model::{Database, Link, ResourceLabel};
use database_links::protocol::{Progress, Reply, Request};
use database_links::sqlite::{
    disallow_empty, join_apps, prompt_delete_database, CreateCommand, DeleteCommand,
    ExecuteCommand, ExecuteTarget, RenameCommand, SqliteCommand, SqliteFlow,
};

fn resource_label(label: &str, app: &str) -> ResourceLabel {
    ResourceLabel { label: label.to_owned(), app_id: 99, app_name: Some(app.to_owned()) }
}

fn fake_dbs() -> Vec<Database> {
    vec![
        Database::new(
            "db1".to_string(),
            vec![
                resource_label("voicemail", "messaging"),
                resource_label("email", "attachment-manager"),
            ],
        ),
        Database::new(
            "db2".to_string(),
            vec![resource_label("notes", "docs"), resource_label("email", "messaging")],
        ),
    ]
}

/// Runs a command against `databases`, answering a question with `entered`
/// and the reading of a file with `file`.
fn run(
    command: SqliteCommand,
    databases: Vec<Database>,
    entered: Option<&str>,
    file: Option<&str>,
) -> (Vec<Request>, Result<(), CommandError>) {
    let mut requests = Vec::new();
    let mut step = command.run();
    loop {
        match step {
            Progress::Done(outcome) => return (requests, outcome),
            Progress::Continue(flow, request) => {
                let reply = match &request {
                    Request::ListDatabases { .. } => Reply::Databases(databases.clone()),
                    Request::Input { .. } => Reply::Entered(entered.map(str::to_string)),
                    Request::ReadFile { .. } => match file {
                        Some(text) => Reply::Contents(text.to_string()),
                        None => Reply::Failed("no such file".to_string()),
                    },
                    _ => Reply::Completed,
                };
                requests.push(request);
                step = flow.resume(reply);
            }
        }
    }
}

fn mutations(requests: &[Request]) -> Vec<&Request> {
    requests.iter().filter(|r| r.is_mutation()).collect()
}

fn execute(database: Option<&str>, label: Option<&str>, app: Option<&str>, sql: &str) -> SqliteCommand {
    SqliteCommand::Execute(ExecuteCommand {
        database: database.map(str::to_string),
        label: label.map(str::to_string),
        app: app.map(str::to_string),
        statement: sql.to_owned(),
    })
}

#[test]
fn test_create_if_db_already_exists_then_error() {
    let command = SqliteCommand::Create(CreateCommand { name: "db1".to_string() });
    let dbs = vec![
        Database::new("db1".to_string(), vec![]),
        Database::new("db2".to_string(), vec![]),
    ];
    let (requests, result) = run(command, dbs, None, None);
    assert_eq!(result.unwrap_err().message(), r#"Database "db1" already exists"#);
    assert!(mutations(&requests).is_empty());
}

#[test]
fn test_create_if_db_does_not_exist_db_is_created() {
    let command = SqliteCommand::Create(CreateCommand { name: "db1".to_string() });
    let dbs = vec![Database::new("db2".to_string(), vec![])];
    let (requests, result) = run(command, dbs, None, None);
    assert_eq!(result, Ok(()));
    assert_eq!(
        requests,
        vec![
            Request::ListDatabases { app_id: None },
            Request::CreateDatabase { name: "db1".to_string(), link: None },
            Request::Say { line: r#"Database "db1" created"#.to_string() },
        ]
    );
}

#[test]
fn test_delete_if_db_does_not_exist_then_error() {
    let command = SqliteCommand::Delete(DeleteCommand { name: "db1".to_string(), yes: true });
    let (requests, result) = run(command, vec![], None, None);
    assert_eq!(result.unwrap_err().message(), r#"No database found with name "db1""#);
    assert!(mutations(&requests).is_empty());
}

#[test]
fn test_delete_if_db_exists_then_it_is_deleted() {
    let command = SqliteCommand::Delete(DeleteCommand { name: "db1".to_string(), yes: true });
    let (requests, result) =
        run(command, vec![Database::new("db1".to_string(), vec![])], None, None);
    assert_eq!(result, Ok(()));
    assert_eq!(
        requests,
        vec![
            Request::ListDatabases { app_id: None },
            Request::DeleteDatabase { name: "db1".to_string() },
            Request::Say { line: r#"Database "db1" deleted"#.to_string() },
        ]
    );
}

#[test]
fn test_execute_by_db_if_db_exists_then_statement_is_executed() {
    let db = "db1";
    let sql = "CREATE TABLE test (message TEXT)";
    let (requests, result) = run(
        execute(Some(db), None, None, sql),
        vec![Database::new(db.to_string(), vec![])],
        None,
        None,
    );
    assert_eq!(result, Ok(()));
    assert_eq!(
        mutations(&requests),
        vec![&Request::ExecuteSql { database: db.to_string(), statement: sql.to_string() }]
    );
}

#[test]
fn test_execute_by_db_if_db_does_not_exist_then_error() {
    let sql = "CREATE TABLE test (message TEXT)";
    let (requests, result) = run(
        execute(Some("asked-for"), None, None, sql),
        vec![Database::new("actual".to_string(), vec![])],
        None,
        None,
    );
    let err = result.expect_err("exec should have errored but did not");
    assert_eq!(err.message(), r#"No database found with name "asked-for""#);
    assert!(mutations(&requests).is_empty());
}

#[test]
fn test_execute_by_label_if_label_linked_then_statement_is_executed() {
    let sql = "CREATE TABLE test (message TEXT)";
    let (requests, result) =
        run(execute(None, Some("email"), Some("messaging"), sql), fake_dbs(), None, None);
    assert_eq!(result, Ok(()));
    assert_eq!(
        mutations(&requests),
        vec![&Request::ExecuteSql { database: "db2".to_string(), statement: sql.to_string() }]
    );
}

#[test]
fn test_execute_by_label_if_label_not_linked_then_error() {
    let sql = "CREATE TABLE test (message TEXT)";
    let (_, result) =
        run(execute(None, Some("snailmail"), Some("messaging"), sql), fake_dbs(), None, None);
    let err = result.expect_err("exec should have errored but did not");
    assert_eq!(
        err.message(),
        r#"No database found with label "snailmail" for app "messaging""#
    );
}

#[test]
fn execute_reads_the_statement_from_a_file() {
    let (requests, result) = run(
        execute(Some("db1"), None, None, "@schema.sql"),
        fake_dbs(),
        None,
        Some("CREATE TABLE t (x INT)"),
    );
    assert_eq!(result, Ok(()));
    assert_eq!(
        requests,
        vec![
            Request::ListDatabases { app_id: None },
            Request::ReadFile { path: "schema.sql".to_string() },
            Request::ExecuteSql {
                database: "db1".to_string(),
                statement: "CREATE TABLE t (x INT)".to_string()
            },
        ]
    );
}

#[test]
fn execute_reports_a_file_that_cannot_be_read() {
    let (requests, result) = run(execute(Some("db1"), None, None, "@nowhere.sql"), fake_dbs(), None, None);
    assert_eq!(
        result,
        Err(CommandError::Upstream {
            context: Some("could not read sql file at 'nowhere.sql'".to_string()),
            cause: "no such file".to_string()
        })
    );
    assert!(mutations(&requests).is_empty());
}

#[test]
fn execute_failed_statement_is_reported() {
    let flow = match execute(Some("db1"), None, None, "SELECT 1").run() {
        Progress::Continue(flow, _) => flow,
        other => panic!("unexpected step: {:?}", other),
    };
    let flow: SqliteFlow = match flow.resume(Reply::Databases(fake_dbs())) {
        Progress::Continue(flow, Request::ExecuteSql { .. }) => flow,
        other => panic!("unexpected step: {:?}", other),
    };
    match flow.resume(Reply::Failed("syntax".to_string())) {
        Progress::Done(Err(error)) => assert_eq!(error.message(), "Problem executing SQL"),
        other => panic!("unexpected step: {:?}", other),
    }
}

#[test]
fn execute_target_takes_a_database_or_a_label_with_its_app() {
    let command = |database: Option<&str>, label: Option<&str>, app: Option<&str>| ExecuteCommand {
        database: database.map(str::to_string),
        label: label.map(str::to_string),
        app: app.map(str::to_string),
        statement: "SELECT 1".to_string(),
    };
    assert_eq!(
        command(Some("db"), None, None).target(),
        Ok(ExecuteTarget::Database("db".to_string()))
    );
    assert_eq!(
        command(None, Some("email"), Some("app")).target(),
        Ok(ExecuteTarget::Label { label: "email".to_string(), app: "app".to_string() })
    );
    for invalid in [
        command(None, None, None),
        command(Some("db"), Some("email"), None),
        command(Some("db"), None, Some("app")),
        command(Some("db"), Some("email"), Some("app")),
        command(None, Some("email"), None),
        command(None, None, Some("app")),
    ] {
        assert_eq!(invalid.target(), Err(CommandError::InvalidArguments));
        assert_eq!(invalid.run(), Progress::Done(Err(CommandError::InvalidArguments)));
    }
    assert_eq!(CommandError::InvalidArguments.message(), "Invalid combination of arguments");
}

#[test]
fn execute_target_finds_the_first_database() {
    let by_name = ExecuteTarget::Database("db2".to_string());
    assert_eq!(by_name.find_in(fake_dbs()).map(|d| d.name), Ok("db2".to_string()));
    let by_label = ExecuteTarget::Label { label: "email".to_string(), app: "messaging".to_string() };
    assert_eq!(by_label.find_in(fake_dbs()), Ok(fake_dbs().remove(1)));
    let unknown = ExecuteTarget::Label { label: "email".to_string(), app: "docs".to_string() };
    assert_eq!(
        unknown.find_in(fake_dbs()),
        Err(CommandError::NotFound(Missing::LabeledDatabase {
            label: "email".to_string(),
            app: "docs".to_string()
        }))
    );
}

#[test]
fn rename_needs_the_database() {
    let command = || {
        SqliteCommand::Rename(RenameCommand { name: "db1".to_string(), new_name: "main".to_string() })
    };
    let (requests, result) = run(command(), fake_dbs(), None, None);
    assert_eq!(result, Ok(()));
    assert_eq!(
        requests,
        vec![
            Request::ListDatabases { app_id: None },
            Request::RenameDatabase { name: "db1".to_string(), new_name: "main".to_string() },
            Request::Say { line: r#"Database "db1" is now named "main""#.to_string() },
        ]
    );
    let (requests, result) = run(command(), vec![], None, None);
    assert_eq!(result.unwrap_err().message(), r#"No database found with name "db1""#);
    assert!(mutations(&requests).is_empty());
}

#[test]
fn delete_asks_for_the_name_of_the_database() {
    let command = || SqliteCommand::Delete(DeleteCommand { name: "db1".to_string(), yes: false });
    let (requests, result) = run(command(), fake_dbs(), Some("db1"), None);
    assert_eq!(result, Ok(()));
    assert_eq!(
        requests,
        vec![
            Request::ListDatabases { app_id: None },
            Request::Input {
                prompt: "Database \"db1\" is currently linked to the following apps: messaging, attachment-manager.\nIt is recommended to use `spin cloud link sqlite` to link to another database to those apps before deleting.\nThe action is irreversible. Please type \"db1\" for confirmation".to_string(),
                default: None,
            },
            Request::Say { line: "Deleting database ...".to_string() },
            Request::DeleteDatabase { name: "db1".to_string() },
            Request::Say { line: r#"Database "db1" deleted"#.to_string() },
        ]
    );
    for wrong in [Some("db2"), Some(""), Some("DB1"), None] {
        let (requests, result) = run(command(), fake_dbs(), wrong, None);
        assert_eq!(result, Ok(()));
        assert!(mutations(&requests).is_empty());
        assert_eq!(
            requests.last(),
            Some(&Request::Say {
                line: "Invalid confirmation. Will not delete database.".to_string()
            })
        );
    }
}

#[test]
fn delete_prompt_warns_only_of_linked_apps() {
    assert_eq!(
        prompt_delete_database("db", &vec![]),
        Request::Input {
            prompt: "The action is irreversible. Please type \"db\" for confirmation".to_string(),
            default: None
        }
    );
    let nameless = ResourceLabel { app_id: 1, label: "l".to_string(), app_name: None };
    match prompt_delete_database("db", &vec![nameless]) {
        Request::Input { prompt, .. } => assert!(prompt.starts_with(
            "Database \"db\" is currently linked to the following apps: UNKNOWN.\n"
        )),
        other => panic!("unexpected request: {:?}", other),
    }
    let blank = ResourceLabel { app_id: 1, label: "l".to_string(), app_name: Some(String::new()) };
    assert_eq!(
        prompt_delete_database("db", &vec![blank]),
        prompt_delete_database("db", &vec![])
    );
}

#[test]
fn join_apps_puts_commas_between_the_names() {
    assert_eq!(join_apps(&vec![]), "");
    assert_eq!(join_apps(&vec![resource_label("a", "one")]), "one");
    let nameless = ResourceLabel { app_id: 1, label: "l".to_string(), app_name: None };
    assert_eq!(
        join_apps(&vec![resource_label("a", "one"), nameless, resource_label("b", "two")]),
        "one, UNKNOWN, two"
    );
}

#[test]
fn failed_listing_reports_what_was_being_done() {
    let flow = match SqliteCommand::Create(CreateCommand { name: "db".to_string() }).run() {
        Progress::Continue(flow, _) => flow,
        other => panic!("unexpected step: {:?}", other),
    };
    match flow.resume(Reply::Failed("offline".to_string())) {
        Progress::Done(Err(error)) => assert_eq!(error.message(), "Problem fetching databases"),
        other => panic!("unexpected step: {:?}", other),
    }
}

#[test]
fn failed_creation_and_deletion_name_the_database() {
    let flow = match (CreateCommand { name: "db".to_string() }).run() {
        Progress::Continue(flow, _) => flow,
        other => panic!("unexpected step: {:?}", other),
    };
    let flow = match flow.resume(Reply::Databases(vec![])) {
        Progress::Continue(flow, _) => flow,
        other => panic!("unexpected step: {:?}", other),
    };
    match flow.resume(Reply::Failed("offline".to_string())) {
        Progress::Done(Err(error)) => assert_eq!(error.message(), "Problem creating database db"),
        other => panic!("unexpected step: {:?}", other),
    }
    let flow = match (DeleteCommand { name: "db".to_string(), yes: true }).run() {
        Progress::Continue(flow, _) => flow,
        other => panic!("unexpected step: {:?}", other),
    };
    let flow = match flow.resume(Reply::Databases(vec![Database::new("db".to_string(), vec![])])) {
        Progress::Continue(flow, _) => flow,
        other => panic!("unexpected step: {:?}", other),
    };
    match flow.resume(Reply::Failed("offline".to_string())) {
        Progress::Done(Err(error)) => assert_eq!(error.message(), "Problem deleting database db"),
        other => panic!("unexpected step: {:?}", other),
    }
}

#[test]
fn disallow_empty_trims_and_refuses_blanks() {
    assert_eq!(disallow_empty("  SELECT 1;\n"), Ok("SELECT 1;".to_string()));
    assert_eq!(disallow_empty("a b"), Ok("a b".to_string()));
    assert_eq!(disallow_empty("\u{2003}x\u{3000}\u{a0}"), Ok("x".to_string()));
    for blank in ["", " ", "\t\n\r", "\u{85}\u{1680}\u{2028}\u{2029}\u{202f}\u{205f}"] {
        let outcome = disallow_empty(blank);
        assert_eq!(outcome, Err(CommandError::EmptyArgument));
        assert_eq!(outcome.unwrap_err().message(), "cannot be empty");
    }
    for text in ["", " a ", "\u{b}\u{c}mid dle\u{200a}", "\u{200b}", "\u{feff}x", "é ", "  \u{1f600}  "] {
        match disallow_empty(text) {
            Ok(trimmed) => assert_eq!(trimmed, text.trim()),
            Err(_) => assert!(text.trim().is_empty()),
        }
    }
}

#[test]
fn find_database_link_takes_the_first_link_under_the_label() {
    let db = &fake_dbs()[0];
    assert_eq!(
        find_database_link(db, "email"),
        Some(Link::new(resource_label("email", "attachment-manager"), "db1".to_string()))
    );
    assert_eq!(find_database_link(db, "notes"), None);
    let twice = Database::new(
        "db".to_string(),
        vec![resource_label("email", "first"), resource_label("email", "second")],
    );
    assert_eq!(find_database_link(&twice, "email").unwrap().app_name(), "first");
}

#[test]
fn database_has_link_matches_label_and_app() {
    let dbs = fake_dbs();
    assert!(database_has_link(&dbs[1], "email", Some("messaging")));
    assert!(!database_has_link(&dbs[0], "email", Some("messaging")));
    assert!(!database_has_link(&dbs[1], "email", None));
    assert!(!database_has_link(&dbs[1], "notes", Some("messaging")));
    let nameless =
        Database::new("db".to_string(), vec![ResourceLabel { app_id: 5, label: "l".to_string(), app_name: None }]);
    assert!(database_has_link(&nameless, "l", None));
    assert!(!database_has_link(&nameless, "l", Some("UNKNOWN")));
}

#[test]
fn lookups_report_the_first_match() {
    let mut dbs = fake_dbs();
    dbs.push(Database::new("db1".to_string(), vec![]));
    assert_eq!(find_database(&dbs, "db1"), Some(0));
    assert_eq!(find_database(&dbs, "db3"), None);
    assert_eq!(
        find_linked(&dbs, "email", Some("messaging")),
        Some((1, Link::new(resource_label("email", "messaging"), "db2".to_string())))
    );
    assert_eq!(find_linked(&dbs, "email", Some("nobody")), None);
}

#[test]
fn link_without_app_name_is_shown_as_unknown() {
    let link = Link::new(ResourceLabel { app_id: 1, label: "l".to_string(), app_name: None }, "db".to_string());
    assert_eq!(link.app_name(), "UNKNOWN");
    assert_eq!(link.clone(), link);
    assert_eq!(Link::new(resource_label("l", "app"), "db".to_string()).app_name(), "app");
}
