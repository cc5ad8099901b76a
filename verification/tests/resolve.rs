use kv_stores::error::{CommandError, ConfigurationProblem};
use kv_stores::model::{AppLink, ResourceItem, ResourceType};
use kv_stores::target::{has_name, ResourceTarget};

fn link(app: &str, label: &str) -> AppLink {
    AppLink::new(app.to_string(), label.to_string())
}

fn store(name: &str, links: Vec<AppLink>) -> ResourceItem {
    ResourceItem::new(name.to_string(), links)
}

fn some(text: &str) -> Option<String> {
    Some(text.to_string())
}

fn by_label(label: &str, app: &str) -> ResourceTarget {
    ResourceTarget::ByLabel { label: label.to_string(), app: app.to_string() }
}

fn malformed() -> Result<ResourceTarget, CommandError> {
    Err(CommandError::Configuration(ConfigurationProblem::TargetSelectors))
}

#[test]
fn from_inputs_takes_a_store_alone() {
    let target = ResourceTarget::from_inputs(&some("kv1"), &None, &None);
    assert_eq!(target, Ok(ResourceTarget::ByName("kv1".to_string())));
}

#[test]
fn from_inputs_takes_a_label_with_its_app() {
    let target = ResourceTarget::from_inputs(&None, &some("data"), &some("shop"));
    assert_eq!(target, Ok(by_label("data", "shop")));
}

#[test]
fn from_inputs_rejects_every_other_combination() {
    assert_eq!(ResourceTarget::from_inputs(&None, &None, &None), malformed());
    assert_eq!(ResourceTarget::from_inputs(&None, &some("data"), &None), malformed());
    assert_eq!(ResourceTarget::from_inputs(&None, &None, &some("shop")), malformed());
    assert_eq!(ResourceTarget::from_inputs(&some("kv1"), &some("data"), &None), malformed());
    assert_eq!(ResourceTarget::from_inputs(&some("kv1"), &None, &some("shop")), malformed());
    assert_eq!(
        ResourceTarget::from_inputs(&some("kv1"), &some("data"), &some("shop")),
        malformed()
    );
}

#[test]
fn from_inputs_rejects_empty_values() {
    assert_eq!(ResourceTarget::from_inputs(&some(""), &None, &None), malformed());
    assert_eq!(ResourceTarget::from_inputs(&None, &some(""), &some("shop")), malformed());
    assert_eq!(ResourceTarget::from_inputs(&None, &some("data"), &some("")), malformed());
}

#[test]
fn find_by_name_returns_the_store_of_that_name() {
    let stores = vec![
        store("kv2", vec![]),
        store("kv1", vec![link("shop", "data")]),
        store("kv10", vec![]),
    ];
    let target = ResourceTarget::ByName("kv1".to_string());
    let found = target.find_in(stores, ResourceType::KeyValueStore);
    assert_eq!(found, Ok(store("kv1", vec![link("shop", "data")])));
}

#[test]
fn find_by_name_is_case_sensitive() {
    let target = ResourceTarget::ByName("KV1".to_string());
    let found = target.find_in(vec![store("kv1", vec![])], ResourceType::KeyValueStore);
    assert_eq!(
        found,
        Err(CommandError::NotFound {
            resource_type: ResourceType::KeyValueStore,
            name: "KV1".to_string(),
        })
    );
}

#[test]
fn find_by_name_reports_a_missing_store() {
    let target = ResourceTarget::ByName("kv1".to_string());
    let err = target
        .find_in(vec![store("kv2", vec![])], ResourceType::KeyValueStore)
        .unwrap_err();
    assert_eq!(err.message(), "No key value store found with name \"kv1\"");
}

#[test]
fn find_by_name_takes_the_first_of_two_stores_with_one_name() {
    let stores = vec![
        store("kv1", vec![link("shop", "data")]),
        store("kv1", vec![link("blog", "data")]),
    ];
    let target = ResourceTarget::ByName("kv1".to_string());
    let found = target.find_in(stores, ResourceType::KeyValueStore);
    assert_eq!(found, Ok(store("kv1", vec![link("shop", "data")])));
}

#[test]
fn find_by_label_returns_the_one_store_linked_so() {
    let stores = vec![
        store("kv1", vec![link("shop", "cache")]),
        store("kv2", vec![link("blog", "data")]),
        store("kv3", vec![link("blog", "cache"), link("shop", "data")]),
    ];
    let found = by_label("data", "shop").find_in(stores, ResourceType::KeyValueStore);
    assert_eq!(found, Ok(store("kv3", vec![link("blog", "cache"), link("shop", "data")])));
}

#[test]
fn find_by_label_counts_a_store_once_however_often_it_is_linked() {
    let stores = vec![store("kv1", vec![link("shop", "data"), link("shop", "data")])];
    let found = by_label("data", "shop").find_in(stores, ResourceType::KeyValueStore);
    assert_eq!(found.map(|s| s.name), Ok("kv1".to_string()));
}

#[test]
fn find_by_label_reports_that_nothing_is_linked_so() {
    let stores = vec![
        store("kv1", vec![link("shop", "cache")]),
        store("kv2", vec![link("blog", "data")]),
        store("kv3", vec![]),
    ];
    let err = by_label("data", "shop").find_in(stores, ResourceType::KeyValueStore).unwrap_err();
    assert_eq!(
        err,
        CommandError::NotFoundByLabel {
            resource_type: ResourceType::KeyValueStore,
            label: "data".to_string(),
            app: "shop".to_string(),
        }
    );
    assert_eq!(
        err.message(),
        "No key value store found with label \"data\" for app \"shop\". \
         Address the key value store by its name instead"
    );
}

#[test]
fn find_by_label_refuses_to_choose() {
    let stores = vec![
        store("kv1", vec![link("shop", "data")]),
        store("kv2", vec![link("blog", "data")]),
        store("kv3", vec![link("shop", "cache"), link("shop", "data")]),
    ];
    let err = by_label("data", "shop").find_in(stores, ResourceType::KeyValueStore).unwrap_err();
    assert_eq!(
        err,
        CommandError::Ambiguous {
            resource_type: ResourceType::KeyValueStore,
            label: "data".to_string(),
            app: "shop".to_string(),
            names: vec!["kv1".to_string(), "kv3".to_string()],
        }
    );
    assert_eq!(
        err.message(),
        "More than one key value store found with label \"data\" for app \"shop\": kv1, kv3. \
         Address one of them by its exact name"
    );
}

#[test]
fn find_in_an_empty_list_finds_nothing() {
    let by_name = ResourceTarget::ByName("kv1".to_string());
    assert!(matches!(
        by_name.find_in(vec![], ResourceType::Database),
        Err(CommandError::NotFound { .. })
    ));
    assert!(matches!(
        by_label("data", "shop").find_in(vec![], ResourceType::Database),
        Err(CommandError::NotFoundByLabel { .. })
    ));
}

#[test]
fn selects_tells_whether_a_target_addresses_a_store() {
    let item = store("kv1", vec![link("shop", "data")]);
    assert!(ResourceTarget::ByName("kv1".to_string()).selects(&item));
    assert!(!ResourceTarget::ByName("kv".to_string()).selects(&item));
    assert!(by_label("data", "shop").selects(&item));
    assert!(!by_label("shop", "data").selects(&item));
    assert!(!by_label("data", "blog").selects(&item));
}

#[test]
fn has_link_and_has_app_read_the_links() {
    let item = store("kv1", vec![link("shop", "data"), link("blog", "cache")]);
    assert!(item.has_app("shop"));
    assert!(item.has_app("blog"));
    assert!(!item.has_app("data"));
    assert!(item.has_link("cache", "blog"));
    assert!(!item.has_link("cache", "shop"));
    assert!(!store("kv2", vec![]).has_app("shop"));
}

#[test]
fn has_name_finds_exact_names_only() {
    let stores = vec![store("kv1", vec![]), store("kv2", vec![])];
    assert!(has_name(&stores, "kv2"));
    assert!(!has_name(&stores, "kv"));
    assert!(!has_name(&stores, "kv22"));
    assert!(!has_name(&vec![], "kv1"));
}

#[test]
fn error_messages_name_the_kind_of_resource() {
    let missing = CommandError::NotFound {
        resource_type: ResourceType::Database,
        name: "main".to_string(),
    };
    assert_eq!(missing.message(), "No database found with name \"main\"");
    let exists = CommandError::AlreadyExists {
        resource_type: ResourceType::Database,
        name: "main".to_string(),
    };
    assert_eq!(exists.message(), "Database \"main\" already exists");
    let remote = CommandError::Remote {
        context: "Error listing key value stores".to_string(),
        cause: "connection refused".to_string(),
    };
    assert_eq!(remote.message(), "Error listing key value stores: connection refused");
    assert_eq!(
        CommandError::Configuration(ConfigurationProblem::GroupingWithJson).message(),
        "Grouping is not supported with JSON format output"
    );
    assert_eq!(
        CommandError::Configuration(ConfigurationProblem::TargetSelectors).message(),
        "Specify either a store name, or both a label and an app; none of them may be empty"
    );
    assert_eq!(
        CommandError::Configuration(ConfigurationProblem::KeyValuePair).message(),
        "Key/Values must be of the form `key=value`"
    );
    assert_eq!(
        CommandError::OutOfTurn.message(),
        "The reply does not answer what the command asked"
    );
}
