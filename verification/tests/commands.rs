use kv_stores::commands::{
    as_text, parse_kv, CreateCommand, DeleteCommand, GroupBy, KeyValueCommand, ListCommand,
    RenameCommand, SetCommand,
};
use kv_stores::error::{CommandError, ConfigurationProblem};
use kv_stores::grouping::ResourceGroupBy;
use kv_stores::model::{AppLink, ResourceItem, ResourceType};
use kv_stores::protocol::{reply_answers, Output, Progress, Reply, Request, Step};
use kv_stores::render::ListFormat;

fn link(app: &str, label: &str) -> AppLink {
    AppLink::new(app.to_string(), label.to_string())
}

fn store(name: &str, links: Vec<AppLink>) -> ResourceItem {
    ResourceItem::new(name.to_string(), links)
}

fn pair(key: &str, value: &str) -> (String, String) {
    (key.to_string(), value.to_string())
}

/// Stands for the service and the user: answers from what it was given and
/// keeps what it was asked.
struct MockClient {
    stores: Vec<ResourceItem>,
    confirm: bool,
    fail_at: Option<usize>,
    calls: Vec<Request>,
}

impl MockClient {
    fn new(stores: Vec<ResourceItem>) -> Self {
        MockClient { stores, confirm: true, fail_at: None, calls: Vec::new() }
    }

    fn perform(&mut self, request: Request) -> Reply {
        let at = self.calls.len();
        let reply = if self.fail_at == Some(at) {
            Reply::Failed("service unavailable".to_string())
        } else {
            match &request {
                Request::ListStores => Reply::Stores(self.stores.clone()),
                Request::ConfirmDelete { .. } => Reply::Confirmed(self.confirm),
                _ => Reply::Done,
            }
        };
        self.calls.push(request);
        reply
    }
}

fn run(command: &KeyValueCommand, client: &mut MockClient) -> Result<Output, CommandError> {
    let mut step = command.start();
    loop {
        match step {
            Step::Finish(output) => return Ok(output),
            Step::Fail(error) => return Err(error),
            Step::Call { request, then } => {
                let reply = client.perform(request);
                assert!(reply_answers(&then, &reply));
                step = command.step(then, reply);
            }
        }
    }
}

fn create(name: &str) -> KeyValueCommand {
    KeyValueCommand::Create(CreateCommand { name: name.to_string() })
}

fn delete(name: &str, yes: bool) -> KeyValueCommand {
    KeyValueCommand::Delete(DeleteCommand { name: name.to_string(), yes })
}

fn rename(name: &str, new_name: &str) -> KeyValueCommand {
    KeyValueCommand::Rename(RenameCommand {
        name: name.to_string(),
        new_name: new_name.to_string(),
    })
}

fn list(app: Option<&str>, group_by: Option<GroupBy>, format: ListFormat) -> KeyValueCommand {
    KeyValueCommand::List(ListCommand {
        app: app.map(|a| a.to_string()),
        store: None,
        group_by,
        format,
    })
}

fn set_in_store(name: &str, key_values: Vec<(String, String)>) -> KeyValueCommand {
    KeyValueCommand::SetPairs(SetCommand {
        store: Some(name.to_string()),
        label: None,
        app: None,
        key_values,
    })
}

fn set_by_label(label: &str, app: &str, key_values: Vec<(String, String)>) -> KeyValueCommand {
    KeyValueCommand::SetPairs(SetCommand {
        store: None,
        label: Some(label.to_string()),
        app: Some(app.to_string()),
        key_values,
    })
}

fn lines(list: &[&str]) -> Output {
    Output::Lines(list.iter().map(|s| s.to_string()).collect())
}

#[test]
fn test_create_if_store_already_exists_then_error() {
    let command = create("kv1");
    let stores = vec![store("kv1", vec![]), store("kv2", vec![])];
    let mut mock = MockClient::new(stores);
    let result = run(&command, &mut mock);
    assert_eq!(result.unwrap_err().message(), r#"Key value store "kv1" already exists"#);
    assert_eq!(mock.calls, vec![Request::ListStores]);
}

#[test]
fn test_create_if_store_does_not_exist_store_is_created() {
    let command = create("kv1");
    let dbs = vec![store("kv2", vec![])];
    let mut mock = MockClient::new(dbs);
    let result = run(&command, &mut mock);
    assert_eq!(result, Ok(lines(&[r#"Key value store "kv1" created"#])));
    assert_eq!(
        mock.calls,
        vec![Request::ListStores, Request::CreateStore { name: "kv1".to_string() }]
    );
}

#[test]
fn test_delete_if_store_does_not_exist_then_error() {
    let command = delete("kv1", true);
    let mut mock = MockClient::new(vec![]);
    let result = run(&command, &mut mock);
    assert_eq!(result.unwrap_err().message(), r#"No key value store found with name "kv1""#);
    assert_eq!(mock.calls, vec![Request::ListStores]);
}

#[test]
fn test_delete_if_store_exists_then_it_is_deleted() {
    let command = delete("kv1", true);
    let mut mock = MockClient::new(vec![store("kv1", vec![])]);
    let result = run(&command, &mut mock);
    assert_eq!(result, Ok(lines(&[r#"Key value store "kv1" deleted"#])));
    assert_eq!(
        mock.calls,
        vec![Request::ListStores, Request::DeleteStore { name: "kv1".to_string() }]
    );
}

#[test]
fn delete_asks_the_user_and_shows_the_links() {
    let command = delete("kv1", false);
    let links = vec![link("shop", "data"), link("blog", "cache")];
    let mut mock = MockClient::new(vec![store("kv0", vec![]), store("kv1", links.clone())]);
    let result = run(&command, &mut mock);
    assert_eq!(result, Ok(lines(&[r#"Key value store "kv1" deleted"#])));
    assert_eq!(
        mock.calls,
        vec![
            Request::ListStores,
            Request::ConfirmDelete { name: "kv1".to_string(), links },
            Request::DeleteStore { name: "kv1".to_string() },
        ]
    );
}

#[test]
fn delete_does_nothing_when_the_user_declines() {
    let command = delete("kv1", false);
    let mut mock = MockClient::new(vec![store("kv1", vec![])]);
    mock.confirm = false;
    let result = run(&command, &mut mock);
    assert_eq!(result, Ok(lines(&[])));
    assert_eq!(
        mock.calls,
        vec![Request::ListStores, Request::ConfirmDelete { name: "kv1".to_string(), links: vec![] }]
    );
}

#[test]
fn rename_asks_for_the_new_name_and_reports_both() {
    let command = rename("kv1", "kv9");
    let mut mock = MockClient::new(vec![store("kv1", vec![])]);
    let result = run(&command, &mut mock);
    assert_eq!(result, Ok(lines(&[r#"Key value store "kv1" is now named "kv9""#])));
    assert_eq!(
        mock.calls,
        vec![
            Request::ListStores,
            Request::RenameStore { name: "kv1".to_string(), new_name: "kv9".to_string() },
        ]
    );
}

#[test]
fn rename_of_a_missing_store_asks_nothing_more() {
    let command = rename("kv1", "kv9");
    let mut mock = MockClient::new(vec![store("kv2", vec![])]);
    let result = run(&command, &mut mock);
    assert_eq!(
        result,
        Err(CommandError::NotFound {
            resource_type: ResourceType::KeyValueStore,
            name: "kv1".to_string(),
        })
    );
    assert_eq!(mock.calls, vec![Request::ListStores]);
}

#[test]
fn set_with_a_store_sets_the_one_pair_in_it() {
    let command = set_in_store("kv1", vec![pair("key", "value")]);
    let mut mock = MockClient::new(vec![store("kv1", vec![])]);
    let result = run(&command, &mut mock);
    assert_eq!(result, Ok(lines(&[])));
    assert_eq!(
        mock.calls,
        vec![
            Request::ListStores,
            Request::SetPair {
                store: "kv1".to_string(),
                key: "key".to_string(),
                value: "value".to_string(),
            },
        ]
    );
}

#[test]
fn set_by_label_sets_the_pairs_in_their_given_order() {
    let command = set_by_label("data", "shop", vec![pair("b", "2"), pair("a", "1"), pair("b", "3")]);
    let stores = vec![store("kv1", vec![]), store("kv2", vec![link("shop", "data")])];
    let mut mock = MockClient::new(stores);
    let result = run(&command, &mut mock);
    assert_eq!(result, Ok(lines(&[])));
    let set = |key: &str, value: &str| Request::SetPair {
        store: "kv2".to_string(),
        key: key.to_string(),
        value: value.to_string(),
    };
    assert_eq!(mock.calls, vec![Request::ListStores, set("b", "2"), set("a", "1"), set("b", "3")]);
}

#[test]
fn set_without_pairs_asks_for_the_stores_only() {
    let command = set_in_store("kv1", vec![]);
    let mut mock = MockClient::new(vec![store("kv1", vec![])]);
    assert_eq!(run(&command, &mut mock), Ok(lines(&[])));
    assert_eq!(mock.calls, vec![Request::ListStores]);
}

#[test]
fn set_stops_at_the_first_pair_that_fails() {
    let command = set_in_store("kv1", vec![pair("a", "1"), pair("b", "2"), pair("c", "3")]);
    let mut mock = MockClient::new(vec![store("kv1", vec![])]);
    mock.fail_at = Some(2);
    let result = run(&command, &mut mock);
    assert_eq!(
        result.unwrap_err().message(),
        "Error adding key value pair 'b=2' to store 'kv1': service unavailable"
    );
    assert_eq!(mock.calls.len(), 3);
}

#[test]
fn set_with_malformed_selectors_asks_nothing() {
    let command = KeyValueCommand::SetPairs(SetCommand {
        store: Some("kv1".to_string()),
        label: Some("data".to_string()),
        app: None,
        key_values: vec![pair("key", "value")],
    });
    let mut mock = MockClient::new(vec![store("kv1", vec![])]);
    let result = run(&command, &mut mock);
    assert_eq!(result, Err(CommandError::Configuration(ConfigurationProblem::TargetSelectors)));
    assert!(mock.calls.is_empty());
}

#[test]
fn set_by_an_ambiguous_label_sets_nothing() {
    let command = set_by_label("data", "shop", vec![pair("key", "value")]);
    let stores = vec![
        store("kv1", vec![link("shop", "data")]),
        store("kv2", vec![link("shop", "data")]),
    ];
    let mut mock = MockClient::new(stores);
    let result = run(&command, &mut mock);
    assert!(matches!(result, Err(CommandError::Ambiguous { .. })));
    assert_eq!(mock.calls, vec![Request::ListStores]);
}

#[test]
fn list_as_json_with_a_grouping_fails_before_any_call() {
    for group_by in [GroupBy::App, GroupBy::Store] {
        let command = list(None, Some(group_by), ListFormat::Json);
        let mut mock = MockClient::new(vec![store("kv1", vec![])]);
        let result = run(&command, &mut mock);
        assert_eq!(
            result,
            Err(CommandError::Configuration(ConfigurationProblem::GroupingWithJson))
        );
        assert!(mock.calls.is_empty());
    }
}

#[test]
fn list_as_json_hands_over_the_stores_of_the_app() {
    let stores = vec![
        store("kv2", vec![link("shop", "data")]),
        store("kv1", vec![]),
        store("kv0", vec![link("blog", "data"), link("shop", "cache")]),
    ];
    let mut mock = MockClient::new(stores.clone());
    let all = run(&list(None, None, ListFormat::Json), &mut mock);
    assert_eq!(all, Ok(Output::Json(stores.clone())));
    let mut mock = MockClient::new(stores.clone());
    let of_shop = run(&list(Some("shop"), None, ListFormat::Json), &mut mock);
    assert_eq!(of_shop, Ok(Output::Json(vec![stores[0].clone(), stores[2].clone()])));
    let mut mock = MockClient::new(vec![]);
    assert_eq!(run(&list(None, None, ListFormat::Json), &mut mock), Ok(Output::Json(vec![])));
}

#[test]
fn list_as_table_groups_as_asked() {
    let stores = vec![
        store("kv2", vec![link("shop", "data")]),
        store("kv1", vec![]),
        store("kv0", vec![link("blog", "data"), link("shop", "cache")]),
    ];
    let mut mock = MockClient::new(stores.clone());
    let by_app = run(&list(None, Some(GroupBy::App), ListFormat::Table), &mut mock);
    assert_eq!(
        by_app,
        Ok(lines(&[
            "App \"blog\"",
            "  kv0 (blog:data, shop:cache)",
            "App \"shop\"",
            "  kv0 (blog:data, shop:cache)",
            "  kv2 (shop:data)",
            "Not linked to any app",
            "  kv1",
        ]))
    );
    let mut mock = MockClient::new(stores.clone());
    let by_store = run(&list(Some("blog"), Some(GroupBy::Store), ListFormat::Table), &mut mock);
    assert_eq!(by_store, Ok(lines(&["Key value stores", "  kv0 (blog:data, shop:cache)"])));
    let mut mock = MockClient::new(stores);
    let flat = run(&list(None, None, ListFormat::Table), &mut mock);
    assert_eq!(
        flat,
        Ok(lines(&["All", "  kv2 (shop:data)", "  kv1", "  kv0 (blog:data, shop:cache)"]))
    );
    assert_eq!(mock.calls, vec![Request::ListStores]);
}

#[test]
fn list_of_no_stores_says_so() {
    let mut mock = MockClient::new(vec![]);
    let result = run(&list(None, None, ListFormat::Table), &mut mock);
    assert_eq!(result, Ok(lines(&["No key value stores found"])));
}

#[test]
fn a_failure_of_the_service_is_reported_with_what_was_asked() {
    let stores = vec![store("kv1", vec![])];
    let cases: Vec<(KeyValueCommand, usize, &str)> = vec![
        (create("kv1"), 0, "Error listing key value stores 'kv1'"),
        (create("kv2"), 1, "Error creating key value store 'kv2'"),
        (delete("kv1", true), 0, "Error listing key value stores 'kv1'"),
        (delete("kv1", true), 1, "Problem deleting key value store 'kv1'"),
        (rename("kv1", "kv2"), 0, "Error listing key value stores 'kv1'"),
        (rename("kv1", "kv2"), 1, "Error renaming key value store 'kv1'"),
        (list(None, None, ListFormat::Table), 0, "Error listing key value stores"),
        (set_in_store("kv1", vec![pair("k", "v")]), 0, "Problem fetching key value stores"),
        (
            set_in_store("kv1", vec![pair("k", "v")]),
            1,
            "Error adding key value pair 'k=v' to store 'kv1'",
        ),
    ];
    for (command, fail_at, context) in cases {
        let mut mock = MockClient::new(stores.clone());
        mock.fail_at = Some(fail_at);
        let result = run(&command, &mut mock);
        assert_eq!(
            result,
            Err(CommandError::Remote {
                context: context.to_string(),
                cause: "service unavailable".to_string(),
            })
        );
        assert_eq!(mock.calls.len(), fail_at + 1);
    }
}

#[test]
fn a_reply_to_what_was_not_asked_fails_the_command() {
    let out_of_turn = Step::Fail(CommandError::OutOfTurn);
    assert_eq!(create("kv1").step(Progress::Confirming, Reply::Confirmed(true)), out_of_turn);
    assert_eq!(create("kv1").step(Progress::Listing, Reply::Done), out_of_turn);
    assert_eq!(delete("kv1", true).step(Progress::Confirming, Reply::Done), out_of_turn);
    assert_eq!(rename("a", "b").step(Progress::Mutating, Reply::Stores(vec![])), out_of_turn);
    assert_eq!(
        list(None, None, ListFormat::Table).step(Progress::Mutating, Reply::Done),
        out_of_turn
    );
    let set = set_in_store("kv1", vec![pair("k", "v")]);
    let at = |next: usize| Progress::Setting { store: "kv1".to_string(), next };
    assert_eq!(set.step(at(0), Reply::Done), out_of_turn);
    assert_eq!(set.step(at(2), Reply::Done), out_of_turn);
    assert_eq!(set.step(at(2), Reply::Failed("x".to_string())), out_of_turn);
    assert_eq!(set.step(at(1), Reply::Done), Step::Finish(lines(&[])));
    assert!(!reply_answers(&Progress::Listing, &Reply::Done));
    assert!(reply_answers(&Progress::Listing, &Reply::Failed("x".to_string())));
    assert!(!reply_answers(&Progress::Confirming, &Reply::Failed("x".to_string())));
    assert!(reply_answers(&at(1), &Reply::Done));
}

#[test]
fn the_grouping_named_by_the_user_becomes_a_strategy() {
    assert_eq!(ResourceGroupBy::from(GroupBy::App), ResourceGroupBy::App);
    assert_eq!(
        ResourceGroupBy::from(GroupBy::Store),
        ResourceGroupBy::Resource(ResourceType::KeyValueStore)
    );
    assert_eq!(GroupBy::default(), GroupBy::App);
}

#[test]
fn parse_kv_reads_a_key_and_a_value() {
    assert_eq!(parse_kv("key=value"), Ok(pair("key", "value")));
    assert_eq!(parse_kv("key=a=b"), Ok(pair("key", "a=b")));
    assert_eq!(parse_kv("key="), Ok(pair("key", "")));
    assert_eq!(
        parse_kv("key"),
        Err(CommandError::Configuration(ConfigurationProblem::KeyValuePair))
    );
}

#[test]
fn as_text_borrows_the_text() {
    assert_eq!(as_text(&Some("shop".to_string())), Some("shop"));
    assert_eq!(as_text(&None), None);
}
