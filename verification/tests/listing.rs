use database_links::error::CommandError;
use database_links::listing::{
    collect_links, group_links, json_list_format, keep_databases, links_of_app, print_apps,
    print_databases, sort_links, unlinked_names, GroupBy, Keep, ListCommand, ListFormat,
};
use database_links::model::{Database, Link, ResourceLabel};
use database_links::order::ordered_labels;
use database_links::protocol::{
    DatabasesListJson, Progress, Reply, Request, ResourceLabelJson,
};
use database_links::sqlite::SqliteCommand;
use database_links::table::{draw_table, CONDENSED_BORDERS, FULL_BORDERS, MAX_CELL};
use database_links::text::{blank, strip_mark, trim};

fn link(label: &str, app: Option<&str>) -> ResourceLabel {
    ResourceLabel { app_id: 3, label: label.to_string(), app_name: app.map(str::to_string) }
}

fn on(database: &str, label: &str, app: &str) -> Link {
    Link::new(link(label, Some(app)), database.to_string())
}

fn account() -> Vec<Database> {
    vec![
        Database::new("store".to_string(), vec![link("main", Some("shop")), link("kv", Some("blog"))]),
        Database::new("empty".to_string(), vec![]),
        Database::new("archive".to_string(), vec![link("old", None), link("logs", Some("shop"))]),
        Database::new("spare".to_string(), vec![]),
    ]
}

fn texts(cells: &[&str]) -> Vec<String> {
    cells.iter().map(|c| c.to_string()).collect()
}

fn list(app: Option<&str>, database: Option<&str>, group_by: Option<GroupBy>, format: ListFormat) -> ListCommand {
    ListCommand {
        app: app.map(str::to_string),
        database: database.map(str::to_string),
        group_by,
        format,
    }
}

fn run(command: ListCommand, databases: Vec<Database>) -> (Vec<Request>, Result<(), CommandError>) {
    let mut requests = Vec::new();
    let mut step = SqliteCommand::List(command).run();
    loop {
        match step {
            Progress::Done(outcome) => return (requests, outcome),
            Progress::Continue(flow, request) => {
                let reply = match &request {
                    Request::ListDatabases { .. } => Reply::Databases(databases.clone()),
                    _ => Reply::Completed,
                };
                requests.push(request);
                step = flow.resume(reply);
            }
        }
    }
}

fn say(lines: &[&str]) -> Request {
    Request::Say { line: lines.join("\n") }
}

#[test]
fn list_by_app_sorts_the_links_and_shows_the_unlinked_databases() {
    let (requests, result) = run(list(None, None, None, ListFormat::Table), account());
    assert_eq!(result, Ok(()));
    assert_eq!(
        requests,
        vec![
            Request::ListDatabases { app_id: None },
            say(&[
                "+----------------------------+",
                "| App       Label   Database |",
                "+============================+",
                "| UNKNOWN   old     archive  |",
                "| blog      kv      store    |",
                "| shop      main    store    |",
                "| shop      logs    archive  |",
                "+----------------------------+",
            ]),
            Request::Say { line: "Databases not linked to any app".to_string() },
            say(&[
                "+----------+",
                "| Database |",
                "+==========+",
                "| empty    |",
                "|----------|",
                "| spare    |",
                "+----------+",
            ]),
        ]
    );
}

#[test]
fn list_by_database_groups_the_links() {
    let (requests, result) =
        run(list(None, None, Some(GroupBy::Database), ListFormat::Table), account());
    assert_eq!(result, Ok(()));
    assert_eq!(
        requests[1..],
        vec![say(&[
            "+-----------------------------------+",
            "| Database   Links                  |",
            "+===================================+",
            "| empty      -                      |",
            "| spare      -                      |",
            "| archive    UNKNOWN:old, shop:logs |",
            "| store      shop:main, blog:kv     |",
            "+-----------------------------------+",
        ])]
    );
}

#[test]
fn list_filters_by_app_and_database() {
    let (requests, _) = run(list(Some("shop"), None, None, ListFormat::Table), account());
    assert_eq!(
        requests[1],
        say(&[
            "+-------------------------+",
            "| App    Label   Database |",
            "+=========================+",
            "| shop   main    store    |",
            "| shop   logs    archive  |",
            "+-------------------------+",
        ])
    );
    let (requests, _) = run(list(Some("shop"), Some("store"), None, ListFormat::Table), account());
    assert_eq!(
        requests[1..],
        vec![say(&[
            "+-------------------------+",
            "| App    Label   Database |",
            "+=========================+",
            "| shop   main    store    |",
            "+-------------------------+",
        ])]
    );
}

#[test]
fn list_fails_on_a_name_too_long_for_a_table() {
    let long = "n".repeat(MAX_CELL + 1);
    let databases = vec![Database::new(long.clone(), vec![link("l", Some("app"))])];
    let (requests, result) = run(list(None, None, None, ListFormat::Table), databases.clone());
    assert_eq!(result, Err(CommandError::Undrawable));
    assert_eq!(requests, vec![Request::ListDatabases { app_id: None }]);
    assert_eq!(
        CommandError::Undrawable.message(),
        "A name is too long to be shown in a table"
    );
    let (_, result) = run(list(None, None, None, ListFormat::Json), databases);
    assert_eq!(result, Ok(()));
    let fits = vec![Database::new("n".repeat(MAX_CELL), vec![])];
    let (requests, result) = run(list(None, None, Some(GroupBy::Database), ListFormat::Table), fits);
    assert_eq!(result, Ok(()));
    assert_eq!(requests.len(), 2);
}

#[test]
fn draw_table_draws_what_comfy_table_draws() {
    let header = texts(&["Database", "Links"]);
    let rows = vec![texts(&["db", "app:label"]), texts(&["other"]), texts(&["é\u{1f600}", "two\nlines", "x"])];
    for preset in [CONDENSED_BORDERS, FULL_BORDERS] {
        let mut table = comfy_table::Table::new();
        table.load_preset(preset);
        table.set_header(vec!["Database", "Links"]);
        table.add_row(vec!["db", "app:label"]);
        table.add_row(vec!["other"]);
        table.add_row(vec!["é\u{1f600}", "two\nlines", "x"]);
        assert_eq!(draw_table(preset, &header, &rows), Some(table.to_string()));
    }
    assert_eq!(CONDENSED_BORDERS, comfy_table::presets::ASCII_BORDERS_ONLY_CONDENSED);
    assert_eq!(FULL_BORDERS, comfy_table::presets::ASCII_FULL);
    let mut plain = comfy_table::Table::new();
    plain.set_header(vec!["Database"]);
    plain.add_row(vec!["db"]);
    assert_eq!(
        draw_table(FULL_BORDERS, &texts(&["Database"]), &vec![texts(&["db"])]),
        Some(plain.to_string())
    );
    assert_ne!(
        draw_table(FULL_BORDERS, &header, &rows),
        draw_table(CONDENSED_BORDERS, &header, &rows)
    );
}

#[test]
fn draw_table_refuses_what_cannot_be_drawn() {
    let header = texts(&["Database"]);
    assert_eq!(draw_table(FULL_BORDERS, &vec![], &vec![]), None);
    assert_eq!(draw_table(FULL_BORDERS, &vec!["h".repeat(MAX_CELL + 1)], &vec![]), None);
    assert_eq!(
        draw_table(FULL_BORDERS, &header, &vec![texts(&["ok"]), vec!["c".repeat(MAX_CELL + 1)]]),
        None
    );
    assert_eq!(MAX_CELL, 65535 / 3);
    for widest in ["\u{17d8}", "\u{1f600}", "w"] {
        let wide = draw_table(FULL_BORDERS, &header, &vec![vec![widest.repeat(MAX_CELL)]]);
        assert!(wide.is_some());
    }
    assert_eq!(
        draw_table(FULL_BORDERS, &header, &vec![]),
        Some(["+----------+", "| Database |", "+==========+", "+----------+"].join("\n"))
    );
}

#[test]
fn list_says_so_when_nothing_is_there() {
    let (requests, result) = run(list(None, None, None, ListFormat::Table), vec![]);
    assert_eq!(result, Ok(()));
    assert_eq!(requests[1..], vec![Request::Say { line: "No databases".to_string() }]);
    let (requests, _) = run(list(None, Some("nope"), None, ListFormat::Json), account());
    assert_eq!(
        requests[1..],
        vec![Request::Say { line: "No database with name 'nope'".to_string() }]
    );
    let (requests, _) = run(list(Some("nobody"), None, None, ListFormat::Table), account());
    assert_eq!(
        requests[1..],
        vec![Request::Say { line: "No databases linked to an app named 'nobody'".to_string() }]
    );
}

#[test]
fn list_as_json_shows_the_databases_of_the_app() {
    let (requests, result) = run(list(Some("UNKNOWN"), None, None, ListFormat::Json), account());
    assert_eq!(result, Ok(()));
    assert_eq!(
        requests[1..],
        vec![Request::Json {
            databases: vec![DatabasesListJson {
                database: "archive".to_string(),
                links: vec![
                    ResourceLabelJson { label: "old".to_string(), app: "UNKNOWN".to_string() },
                    ResourceLabelJson { label: "logs".to_string(), app: "shop".to_string() },
                ],
            }]
        }]
    );
    let (requests, _) = run(list(None, None, None, ListFormat::Json), account());
    match &requests[1] {
        Request::Json { databases } => {
            let names: Vec<&str> = databases.iter().map(|d| d.database.as_str()).collect();
            assert_eq!(names, vec!["store", "empty", "archive", "spare"]);
        }
        other => panic!("unexpected request: {:?}", other),
    }
}

#[test]
fn list_refuses_grouped_json() {
    let command = list(None, None, Some(GroupBy::App), ListFormat::Json);
    let end = command.run();
    assert_eq!(end, Progress::Done(Err(CommandError::GroupedJson)));
    assert_eq!(
        CommandError::GroupedJson.message(),
        "Grouping is not supported with JSON format output"
    );
}

#[test]
fn list_failed_listing_reports_what_was_being_done() {
    let flow = match list(None, None, None, ListFormat::Table).run() {
        Progress::Continue(flow, Request::ListDatabases { app_id: None }) => flow,
        other => panic!("unexpected step: {:?}", other),
    };
    match flow.resume(Reply::Failed("offline".to_string())) {
        Progress::Done(Err(error)) => assert_eq!(error.message(), "Problem listing databases"),
        other => panic!("unexpected step: {:?}", other),
    }
}

#[test]
fn sort_links_keeps_equal_keys_in_their_order() {
    let links = vec![
        on("d3", "a", "m"),
        on("d1", "b", "z"),
        on("d2", "c", "m"),
        on("d1", "d", "a"),
        on("d3", "e", "m"),
    ];
    let labels = |sorted: Vec<Link>| -> Vec<String> {
        sorted.into_iter().map(|l| l.resource_label.label).collect()
    };
    assert_eq!(labels(sort_links(links.clone(), GroupBy::App)), texts(&["d", "a", "c", "e", "b"]));
    assert_eq!(
        labels(sort_links(links.clone(), GroupBy::Database)),
        texts(&["b", "d", "c", "a", "e"])
    );
    let mut expected = links.clone();
    expected.sort_by(|l1, l2| l1.app_name().cmp(l2.app_name()));
    assert_eq!(sort_links(links, GroupBy::App), expected);
    assert_eq!(sort_links(vec![], GroupBy::App), vec![]);
}

#[test]
fn sort_links_orders_by_code_points() {
    let links = vec![on("d", "1", "b"), on("d", "2", "B"), on("d", "3", "é"), on("d", "4", ""), on("d", "5", "ba")];
    let mut expected = links.clone();
    expected.sort_by(|l1, l2| l1.app_name().cmp(l2.app_name()));
    let sorted = sort_links(links, GroupBy::App);
    assert_eq!(sorted, expected);
    let apps: Vec<&str> = sorted.iter().map(|l| l.app_name()).collect();
    assert_eq!(apps, vec!["", "B", "b", "ba", "é"]);
}

#[test]
fn group_links_joins_runs_on_one_database() {
    let sorted = vec![on("a", "x", "one"), on("a", "y", "two"), on("b", "z", "one")];
    assert_eq!(
        group_links(&sorted),
        vec![
            ("a".to_string(), "one:x, two:y".to_string()),
            ("b".to_string(), "one:z".to_string()),
        ]
    );
    assert_eq!(group_links(&vec![]), vec![]);
}

#[test]
fn print_functions_build_the_tables() {
    let links = vec![on("db", "l", "app")];
    assert_eq!(
        print_apps(links.clone(), vec![]),
        Ok(vec![say(&[
            "+------------------------+",
            "| App   Label   Database |",
            "+========================+",
            "| app   l       db       |",
            "+------------------------+",
        ])])
    );
    assert_eq!(
        print_databases(links, texts(&["free"])),
        Ok(vec![say(&[
            "+------------------+",
            "| Database   Links |",
            "+==================+",
            "| free       -     |",
            "| db         app:l |",
            "+------------------+",
        ])])
    );
}

#[test]
fn listing_helpers_keep_the_order() {
    let databases = account();
    assert_eq!(unlinked_names(&databases), texts(&["empty", "spare"]));
    let links = collect_links(&databases);
    let labels: Vec<&str> = links.iter().map(|l| l.resource_label.label.as_str()).collect();
    assert_eq!(labels, vec!["main", "kv", "old", "logs"]);
    let shop: Vec<String> =
        links_of_app(links, "shop").into_iter().map(|l| l.resource).collect();
    assert_eq!(shop, texts(&["store", "archive"]));
    let kept = keep_databases(account(), &Keep::UsedBy("blog".to_string()));
    assert_eq!(kept, vec![account().remove(0)]);
    let kept = keep_databases(account(), &Keep::Called("spare".to_string()));
    assert_eq!(kept, vec![account().remove(3)]);
    assert_eq!(
        json_list_format(&databases[1]),
        DatabasesListJson { database: "empty".to_string(), links: vec![] }
    );
}

#[test]
fn group_by_reads_its_words() {
    assert_eq!(GroupBy::from_str("app"), Ok(GroupBy::App));
    assert_eq!(GroupBy::from_str("  APP\n"), Ok(GroupBy::App));
    assert_eq!(GroupBy::from_str("Database"), Ok(GroupBy::App));
    assert_eq!(
        GroupBy::from_str(" Label "),
        Err("Unrecognized group-by option: 'label'".to_string())
    );
    assert_eq!(GroupBy::from_word("APP"), Err("Unrecognized group-by option: 'APP'".to_string()));
    assert_eq!(GroupBy::default(), GroupBy::App);
    assert_eq!(GroupBy::App.name(), "app");
    assert_eq!(GroupBy::Database.name(), "database");
}

#[test]
fn ordered_labels_sorts_and_drops_repeats() {
    assert_eq!(
        ordered_labels(texts(&["logs", "email", "logs", "Email", "", "email2", "email"])),
        texts(&["", "Email", "email", "email2", "logs"])
    );
    assert_eq!(ordered_labels(vec![]), Vec::<String>::new());
    let labels = texts(&["é", "z", "a", "\u{1f600}", "ab", "A"]);
    let mut expected = labels.clone();
    expected.sort();
    assert_eq!(ordered_labels(labels), expected);
}

#[test]
fn trim_agrees_with_the_standard_library() {
    for text in ["", "x", "  x  ", "\n\tx y\r\n", "\u{2000}\u{200a}a\u{3000}", "\u{200b} a", " \u{85} "] {
        assert_eq!(trim(text), text.trim());
    }
    for code in 0..0x3100u32 {
        if let Some(c) = char::from_u32(code) {
            assert_eq!(blank(c), c.is_whitespace(), "U+{:04X}", code);
        }
    }
}

#[test]
fn strip_mark_takes_one_mark_off() {
    assert_eq!(strip_mark("@file.sql", '@'), Some("file.sql"));
    assert_eq!(strip_mark("@@x", '@'), Some("@x"));
    assert_eq!(strip_mark("@", '@'), Some(""));
    assert_eq!(strip_mark("file@", '@'), None);
    assert_eq!(strip_mark("", '@'), None);
    assert_eq!(strip_mark("éa", 'é'), Some("a"));
}
