use vsa_core::config::SliceType;
use vsa_core::domain::aggregate::{Aggregate, CommandHandler, EventHandler};
use vsa_core::domain::command::Command;
use vsa_core::domain::event::{Event, EventVersion};
use vsa_core::domain::DomainModel;
use vsa_core::manifest::Manifest;

fn names(v: &[&str]) -> Vec<String> {
    v.iter().map(|s| s.to_string()).collect()
}

fn get<'a, V>(v: &'a [(String, V)], k: &str) -> Option<&'a V> {
    v.iter().find(|(n, _)| n == k).map(|(_, x)| x)
}

#[test]
fn manifest_test_detect_slice_type_command() {
    let files = names(&["CreateOrderCommand.ts", "CreateOrderHandler.ts", "OrderCreatedEvent.ts"]);
    assert_eq!(Manifest::detect_slice_type(&files), SliceType::Command);
}

#[test]
fn manifest_test_detect_slice_type_query() {
    let files = names(&["ListOrdersQuery.ts", "OrderListProjection.ts", "ListOrdersHandler.ts"]);
    assert_eq!(Manifest::detect_slice_type(&files), SliceType::Query);
}

#[test]
fn test_detect_slice_type_query_projection_only() {
    let files = names(&["OrderListProjection.py", "handler.py"]);
    assert_eq!(Manifest::detect_slice_type(&files), SliceType::Query);
}

#[test]
fn test_detect_slice_type_saga() {
    let files = names(&["OrderProcessingSaga.ts", "OrderProcessingSagaHandler.ts"]);
    assert_eq!(Manifest::detect_slice_type(&files), SliceType::Saga);
}

#[test]
fn test_detect_slice_type_mixed() {
    let files = names(&["CreateOrderCommand.ts", "GetOrderQuery.ts", "OrderHandler.ts"]);
    assert_eq!(Manifest::detect_slice_type(&files), SliceType::Mixed);
}

#[test]
fn test_detect_slice_type_unknown() {
    let files = names(&["utils.ts", "helpers.ts", "index.ts"]);
    assert_eq!(Manifest::detect_slice_type(&files), SliceType::Unknown);
}

#[test]
fn test_detect_slice_type_ignores_test_files() {
    let files = names(&["CreateOrderCommand.test.ts", "test_create_order.py", "utils.ts"]);
    assert_eq!(Manifest::detect_slice_type(&files), SliceType::Unknown);
}

#[test]
fn test_detect_slice_type_python_files() {
    let files = names(&["CreateOrderCommand.py", "create_order_handler.py"]);
    assert_eq!(Manifest::detect_slice_type(&files), SliceType::Command);
}

#[test]
fn test_detect_slice_type_rust_files() {
    let files = names(&["list_orders_query.rs", "OrderProjection.rs"]);
    assert_eq!(Manifest::detect_slice_type(&files), SliceType::Query);
}

#[test]
fn detect_slice_type_of_no_files_is_unknown() {
    assert_eq!(Manifest::detect_slice_type(&[]), SliceType::Unknown);
}

fn task_model() -> DomainModel {
    let mut model = DomainModel::new("/test".to_string());
    model.aggregates.push(Aggregate {
        name: "TaskAggregate".to_string(),
        context: None,
        file_path: "domain/TaskAggregate.ts".to_string(),
        line_count: 100,
        command_handlers: vec![CommandHandler {
            command_type: "CreateTaskCommand".to_string(),
            method_name: "handle".to_string(),
            line_number: 10,
            emits_events: vec!["TaskCreatedEvent".to_string()],
        }],
        event_handlers: vec![EventHandler {
            event_type: "TaskCreatedEvent".to_string(),
            method_name: "onCreated".to_string(),
            line_number: 20,
        }],
        entities: vec![],
        value_objects: vec![],
        folder_name: None,
    });
    model.commands.push(Command {
        name: "CreateTaskCommand".to_string(),
        context: None,
        file_path: "domain/commands/CreateTaskCommand.ts".to_string(),
        has_aggregate_id: true,
        fields: vec![],
    });
    model.events.push(Event {
        name: "TaskCreatedEvent".to_string(),
        context: None,
        event_type: "TaskCreated".to_string(),
        version: EventVersion::Simple("v1".to_string()),
        file_path: "domain/events/TaskCreatedEvent.ts".to_string(),
        fields: vec![],
        decorator_present: true,
    });
    model
}

#[test]
fn test_manifest_with_domain() {
    let domain_manifest = Manifest::build_domain_manifest(task_model());
    assert_eq!(domain_manifest.aggregates.len(), 1);
    assert_eq!(domain_manifest.aggregates[0].name, "TaskAggregate");
    assert_eq!(domain_manifest.commands.len(), 1);
    assert_eq!(domain_manifest.commands[0].name, "CreateTaskCommand");
    assert_eq!(domain_manifest.events.len(), 1);
    assert_eq!(domain_manifest.events[0].name, "TaskCreatedEvent");
    let rel = &domain_manifest.relationships;
    assert_eq!(get(&rel.command_to_aggregate, "CreateTaskCommand"), Some(&"TaskAggregate".to_string()));
    assert_eq!(get(&rel.aggregate_to_events, "TaskAggregate"), Some(&vec!["TaskCreatedEvent".to_string()]));
    assert_eq!(get(&rel.event_to_handlers, "TaskCreatedEvent"), Some(&vec!["TaskAggregate".to_string()]));
}

#[test]
fn test_build_relationships() {
    let mut model = DomainModel::new("/test".to_string());
    model.aggregates.push(Aggregate {
        name: "CartAggregate".to_string(),
        context: None,
        file_path: "domain/CartAggregate.ts".to_string(),
        line_count: 200,
        command_handlers: vec![
            CommandHandler {
                command_type: "AddItemCommand".to_string(),
                method_name: "addItem".to_string(),
                line_number: 10,
                emits_events: vec!["ItemAddedEvent".to_string(), "CartCreatedEvent".to_string()],
            },
            CommandHandler {
                command_type: "RemoveItemCommand".to_string(),
                method_name: "removeItem".to_string(),
                line_number: 30,
                emits_events: vec!["ItemRemovedEvent".to_string()],
            },
        ],
        event_handlers: vec![
            EventHandler {
                event_type: "ItemAddedEvent".to_string(),
                method_name: "onItemAdded".to_string(),
                line_number: 50,
            },
            EventHandler {
                event_type: "ItemRemovedEvent".to_string(),
                method_name: "onItemRemoved".to_string(),
                line_number: 60,
            },
        ],
        entities: vec![],
        value_objects: vec![],
        folder_name: None,
    });
    let relationships = Manifest::build_relationships(&model);
    assert_eq!(get(&relationships.command_to_aggregate, "AddItemCommand"), Some(&"CartAggregate".to_string()));
    assert_eq!(get(&relationships.command_to_aggregate, "RemoveItemCommand"), Some(&"CartAggregate".to_string()));
    let cart_events = get(&relationships.aggregate_to_events, "CartAggregate").unwrap();
    assert_eq!(cart_events.len(), 3);
    assert!(cart_events.contains(&"ItemAddedEvent".to_string()));
    assert!(cart_events.contains(&"CartCreatedEvent".to_string()));
    assert!(cart_events.contains(&"ItemRemovedEvent".to_string()));
    assert_eq!(get(&relationships.event_to_handlers, "ItemAddedEvent"), Some(&vec!["CartAggregate".to_string()]));
    assert_eq!(get(&relationships.event_to_handlers, "ItemRemovedEvent"), Some(&vec!["CartAggregate".to_string()]));
}
