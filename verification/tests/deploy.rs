use database_links::deploy::{
    create_and_link_databases_for_existing_app, create_databases_for_new_app,
    get_database_selection_for_existing_app, get_database_selection_for_new_app, link_databases,
    ExistingAppDatabaseSelection, ExistingAppFlow, LinkDatabasesFlow, NewAppFlow,
};
use database_links::error::CommandError;
use database_links::model::{Database, ResourceLabel};
use database_links::protocol::{Progress, Reply, Request};
use database_links::strategy::{DatabaseRef, DatabaseSelection, Interactive, Scripted};

const APP_ID: u128 = 42;

fn label(label: &str, app: &str) -> ResourceLabel {
    ResourceLabel { app_id: APP_ID, label: label.to_string(), app_name: Some(app.to_string()) }
}

fn labels(names: &[&str]) -> Vec<String> {
    names.iter().map(|n| n.to_string()).collect()
}

/// A catalog in memory with a user who answers from a script.
struct Host {
    databases: Vec<Database>,
    replies: Vec<Reply>,
    names: usize,
    requests: Vec<Request>,
}

impl Host {
    fn new(databases: Vec<Database>, replies: Vec<Reply>) -> Host {
        Host { databases, replies, names: 0, requests: Vec::new() }
    }

    fn answer(&mut self, request: Request) -> Reply {
        let reply = match &request {
            Request::ListDatabases { .. } => Reply::Databases(self.databases.clone()),
            Request::CreateDatabase { name, link } => {
                let links = link.iter().cloned().collect();
                self.databases.push(Database::new(name.clone(), links));
                Reply::Completed
            }
            Request::CreateLink { database, link } => {
                match self.databases.iter_mut().find(|d| &d.name == database) {
                    Some(db) => {
                        db.links.push(link.clone());
                        Reply::Completed
                    }
                    None => Reply::Failed(format!("no database {}", database)),
                }
            }
            Request::ProposeName => {
                self.names += 1;
                Reply::Name(format!("generated-{}", self.names))
            }
            _ => self.replies.remove(0),
        };
        self.requests.push(request);
        reply
    }

    fn mutations(&self) -> Vec<&Request> {
        self.requests.iter().filter(|r| r.is_mutation()).collect()
    }
}

fn drive<M, T>(
    first: Progress<M, T>,
    resume: fn(M, Reply) -> Progress<M, T>,
    host: &mut Host,
) -> Result<T, CommandError> {
    let mut step = first;
    loop {
        match step {
            Progress::Done(outcome) => return outcome,
            Progress::Continue(flow, request) => step = resume(flow, host.answer(request)),
        }
    }
}

fn create_new(name: &str) -> Vec<Reply> {
    vec![Reply::Selected(Some(1)), Reply::Entered(Some(name.to_string()))]
}

#[test]
fn new_app_creates_a_database_for_each_label() {
    let mut replies = create_new("mail-db");
    replies.extend(create_new("log-db"));
    let mut host = Host::new(vec![], replies);
    let first = create_databases_for_new_app("app", labels(&["email", "logs"]), Interactive);
    let outcome = drive(first, NewAppFlow::resume, &mut host);
    assert_eq!(
        outcome,
        Ok(Some(vec![
            ("mail-db".to_string(), "email".to_string()),
            ("log-db".to_string(), "logs".to_string()),
        ]))
    );
    assert_eq!(
        host.mutations(),
        vec![
            &Request::CreateDatabase { name: "mail-db".to_string(), link: None },
            &Request::CreateDatabase { name: "log-db".to_string(), link: None },
        ]
    );
    assert_eq!(host.databases.len(), 2);
    assert!(host.databases.iter().all(|d| d.links.is_empty()));
}

#[test]
fn new_app_cancelled_on_the_second_label_keeps_the_first_database() {
    let mut replies = create_new("mail-db");
    replies.push(Reply::Selected(None));
    let mut host = Host::new(vec![], replies);
    let first = create_databases_for_new_app("app", labels(&["email", "logs"]), Interactive);
    let outcome = drive(first, NewAppFlow::resume, &mut host);
    assert_eq!(outcome, Ok(None));
    assert_eq!(
        host.mutations(),
        vec![&Request::CreateDatabase { name: "mail-db".to_string(), link: None }]
    );
    assert_eq!(host.databases, vec![Database::new("mail-db".to_string(), vec![])]);
}

#[test]
fn new_app_cancelled_name_is_a_cancellation() {
    let mut host = Host::new(vec![], vec![Reply::Selected(Some(1)), Reply::Entered(None)]);
    let first = create_databases_for_new_app("app", labels(&["email"]), Interactive);
    assert_eq!(drive(first, NewAppFlow::resume, &mut host), Ok(None));
    assert!(host.mutations().is_empty());
}

#[test]
fn new_app_takes_the_labels_in_increasing_order_and_once() {
    let mut scripted = Scripted::default();
    for l in ["zeta", "alpha", "mid"] {
        scripted.set_label_action(l, DatabaseRef::Named(format!("db-{}", l))).unwrap();
    }
    let mut host = Host::new(vec![Database::new("db-mid".to_string(), vec![])], vec![]);
    let first =
        create_databases_for_new_app("app", labels(&["zeta", "mid", "alpha", "mid"]), scripted);
    let outcome = drive(first, NewAppFlow::resume, &mut host);
    assert_eq!(
        outcome,
        Ok(Some(vec![
            ("db-alpha".to_string(), "alpha".to_string()),
            ("db-mid".to_string(), "mid".to_string()),
            ("db-zeta".to_string(), "zeta".to_string()),
        ]))
    );
    assert_eq!(
        host.mutations(),
        vec![
            &Request::CreateDatabase { name: "db-alpha".to_string(), link: None },
            &Request::CreateDatabase { name: "db-zeta".to_string(), link: None },
        ]
    );
}

#[test]
fn new_app_existing_database_is_recorded_without_a_request() {
    let mut host = Host::new(
        vec![Database::new("db1".to_string(), vec![]), Database::new("db2".to_string(), vec![])],
        vec![Reply::Selected(Some(0)), Reply::Selected(Some(1))],
    );
    let first = create_databases_for_new_app("app", labels(&["email"]), Interactive);
    assert_eq!(
        drive(first, NewAppFlow::resume, &mut host),
        Ok(Some(vec![("db2".to_string(), "email".to_string())]))
    );
    assert!(host.mutations().is_empty());
}

#[test]
fn new_app_without_labels_is_done_at_once() {
    assert_eq!(
        create_databases_for_new_app("app", vec![], Interactive),
        Progress::Done(Ok(Some(vec![])))
    );
}

#[test]
fn new_app_missing_declaration_ends_the_provisioning() {
    let mut scripted = Scripted::default();
    scripted.set_label_action("email", DatabaseRef::Named("db".to_string())).unwrap();
    let mut host = Host::new(vec![], vec![]);
    let first = create_databases_for_new_app("app", labels(&["email", "logs"]), scripted);
    assert_eq!(
        drive(first, NewAppFlow::resume, &mut host),
        Err(CommandError::MissingDeclaration { label: "logs".to_string() })
    );
    assert_eq!(
        host.mutations(),
        vec![&Request::CreateDatabase { name: "db".to_string(), link: None }]
    );
}

#[test]
fn new_app_failed_creation_ends_the_provisioning() {
    let first = create_databases_for_new_app("app", labels(&["email"]), Interactive);
    let flow = match first {
        Progress::Continue(flow, Request::ListDatabases { app_id: None }) => flow,
        other => panic!("unexpected step: {:?}", other),
    };
    let flow = match flow.resume(Reply::Databases(vec![])) {
        Progress::Continue(flow, Request::Select { .. }) => flow,
        other => panic!("unexpected step: {:?}", other),
    };
    let flow = match flow.resume(Reply::Selected(Some(1))) {
        Progress::Continue(flow, Request::ProposeName) => flow,
        other => panic!("unexpected step: {:?}", other),
    };
    let flow = match flow.resume(Reply::Name("fresh".to_string())) {
        Progress::Continue(flow, Request::Input { default, .. }) => {
            assert_eq!(default, Some("fresh".to_string()));
            flow
        }
        other => panic!("unexpected step: {:?}", other),
    };
    let flow = match flow.resume(Reply::Entered(Some("fresh".to_string()))) {
        Progress::Continue(flow, request) => {
            assert_eq!(request, Request::CreateDatabase { name: "fresh".to_string(), link: None });
            flow
        }
        other => panic!("unexpected step: {:?}", other),
    };
    assert_eq!(
        flow.resume(Reply::Failed("quota".to_string())),
        Progress::Done(Err(CommandError::Upstream { context: None, cause: "quota".to_string() }))
    );
}

#[test]
fn selection_for_new_app_is_the_strategy_s() {
    let mut scripted = Scripted::default();
    scripted.set_label_action("email", DatabaseRef::Named("db".to_string())).unwrap();
    assert_eq!(
        get_database_selection_for_new_app("app", "email", vec![], &scripted),
        Progress::Done(Ok(DatabaseSelection::New("db".to_string())))
    );
}

#[test]
fn existing_app_unlinked_label_is_not_yet_linked() {
    let databases = vec![
        Database::new("db1".to_string(), vec![label("email", "other-app")]),
        Database::new("db2".to_string(), vec![label("logs", "app")]),
    ];
    let mut scripted = Scripted::default();
    scripted.set_label_action("email", DatabaseRef::Named("db1".to_string())).unwrap();
    let selection =
        get_database_selection_for_existing_app("app", databases, &label("email", "app"), &scripted);
    assert_eq!(
        selection,
        ExistingAppDatabaseSelection::NotYetLinked(Progress::Done(Ok(
            DatabaseSelection::Existing("db1".to_string())
        )))
    );
}

#[test]
fn existing_app_linked_label_is_already_linked() {
    let databases = vec![
        Database::new("db1".to_string(), vec![]),
        Database::new("db2".to_string(), vec![label("logs", "app"), label("email", "app")]),
    ];
    let selection = get_database_selection_for_existing_app(
        "app",
        databases,
        &label("email", "app"),
        &Scripted::default(),
    );
    assert_eq!(selection, ExistingAppDatabaseSelection::AlreadyLinked);
}

#[test]
fn existing_app_links_what_is_not_linked_yet() {
    let mut scripted = Scripted::default();
    scripted.set_label_action("cache", DatabaseRef::Named("db1".to_string())).unwrap();
    scripted.set_label_action("email", DatabaseRef::Named("db2".to_string())).unwrap();
    scripted.set_label_action("logs", DatabaseRef::Named("fresh".to_string())).unwrap();
    let mut host = Host::new(
        vec![
            Database::new("db1".to_string(), vec![]),
            Database::new("db2".to_string(), vec![label("email", "app")]),
        ],
        vec![],
    );
    let first = create_and_link_databases_for_existing_app(
        "app",
        APP_ID,
        labels(&["logs", "email", "cache"]),
        scripted,
    );
    assert_eq!(drive(first, ExistingAppFlow::resume, &mut host), Ok(Some(())));
    assert_eq!(
        host.mutations(),
        vec![
            &Request::CreateLink { database: "db1".to_string(), link: label("cache", "app") },
            &Request::CreateDatabase {
                name: "fresh".to_string(),
                link: Some(label("logs", "app"))
            },
        ]
    );
}

#[test]
fn existing_app_done_twice_changes_nothing_the_second_time() {
    let declare = || {
        let mut scripted = Scripted::default();
        scripted.set_label_action("email", DatabaseRef::Named("db".to_string())).unwrap();
        scripted
    };
    let mut host = Host::new(vec![], vec![]);
    let first =
        create_and_link_databases_for_existing_app("app", APP_ID, labels(&["email"]), declare());
    assert_eq!(drive(first, ExistingAppFlow::resume, &mut host), Ok(Some(())));
    assert_eq!(host.mutations().len(), 1);
    let again =
        create_and_link_databases_for_existing_app("app", APP_ID, labels(&["email"]), declare());
    assert_eq!(drive(again, ExistingAppFlow::resume, &mut host), Ok(Some(())));
    assert_eq!(host.mutations().len(), 1);
}

#[test]
fn existing_app_cancelled_label_stops_the_reconciliation() {
    let mut replies = create_new("cache-db");
    replies.push(Reply::Selected(None));
    let mut host = Host::new(vec![], replies);
    let first = create_and_link_databases_for_existing_app(
        "app",
        APP_ID,
        labels(&["cache", "email", "logs"]),
        Interactive,
    );
    assert_eq!(drive(first, ExistingAppFlow::resume, &mut host), Ok(None));
    assert_eq!(
        host.mutations(),
        vec![&Request::CreateDatabase {
            name: "cache-db".to_string(),
            link: Some(label("cache", "app"))
        }]
    );
}

#[test]
fn existing_app_failed_link_names_the_database_and_the_app() {
    let mut scripted = Scripted::default();
    scripted.set_label_action("email", DatabaseRef::Named("db1".to_string())).unwrap();
    let first =
        create_and_link_databases_for_existing_app("app", APP_ID, labels(&["email"]), scripted);
    let flow = match first {
        Progress::Continue(flow, _) => flow,
        other => panic!("unexpected step: {:?}", other),
    };
    let flow = match flow.resume(Reply::Databases(vec![Database::new("db1".to_string(), vec![])])) {
        Progress::Continue(flow, Request::CreateLink { .. }) => flow,
        other => panic!("unexpected step: {:?}", other),
    };
    match flow.resume(Reply::Failed("denied".to_string())) {
        Progress::Done(Err(error)) => {
            assert_eq!(error.message(), r#"Could not link database "db1" to app "app""#);
            assert_eq!(
                error,
                CommandError::Upstream {
                    context: Some(r#"Could not link database "db1" to app "app""#.to_string()),
                    cause: "denied".to_string()
                }
            );
        }
        other => panic!("unexpected step: {:?}", other),
    }
}

#[test]
fn link_databases_links_each_pair_in_order() {
    let mut host = Host::new(
        vec![Database::new("db1".to_string(), vec![]), Database::new("db2".to_string(), vec![])],
        vec![],
    );
    let pairs = vec![
        ("db2".to_string(), "logs".to_string()),
        ("db1".to_string(), "email".to_string()),
    ];
    assert_eq!(drive(link_databases("app", APP_ID, pairs), LinkDatabasesFlow::resume, &mut host), Ok(()));
    assert_eq!(
        host.requests,
        vec![
            Request::CreateLink { database: "db2".to_string(), link: label("logs", "app") },
            Request::CreateLink { database: "db1".to_string(), link: label("email", "app") },
        ]
    );
}

#[test]
fn link_databases_stops_at_the_first_failure() {
    let mut host = Host::new(vec![Database::new("db1".to_string(), vec![])], vec![]);
    let pairs = vec![
        ("db1".to_string(), "email".to_string()),
        ("gone".to_string(), "logs".to_string()),
        ("db1".to_string(), "cache".to_string()),
    ];
    let outcome =
        drive(link_databases("app", APP_ID, pairs), LinkDatabasesFlow::resume, &mut host);
    assert_eq!(outcome.unwrap_err().message(), r#"Failed to link database "gone" to app "app""#);
    assert_eq!(host.requests.len(), 2);
    assert_eq!(host.databases[0].links, vec![label("email", "app")]);
}

#[test]
fn link_databases_without_pairs_is_done_at_once() {
    assert_eq!(link_databases("app", APP_ID, vec![]), Progress::Done(Ok(())));
}
