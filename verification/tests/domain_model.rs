use vsa_core::domain::aggregate::Aggregate;
use vsa_core::domain::command::Command;
use vsa_core::domain::event::{Event, EventVersion};
use vsa_core::domain::projection::Projection;
use vsa_core::domain::query::{Query, QueryField};
use vsa_core::domain::upcaster::Upcaster;
use vsa_core::domain::value_object::{ValueObject, ValueObjectField};
use vsa_core::domain::DomainModel;

fn aggregate(name: &str, context: Option<&str>, path: &str, lines: usize) -> Aggregate {
    Aggregate {
        name: name.to_string(),
        context: context.map(|c| c.to_string()),
        file_path: path.to_string(),
        line_count: lines,
        command_handlers: vec![],
        event_handlers: vec![],
        entities: vec![],
        value_objects: vec![],
        folder_name: None,
    }
}

fn event(name: &str, context: Option<&str>, ty: &str, version: &str, path: &str) -> Event {
    Event {
        name: name.to_string(),
        context: context.map(|c| c.to_string()),
        event_type: ty.to_string(),
        version: EventVersion::Simple(version.to_string()),
        file_path: path.to_string(),
        fields: vec![],
        decorator_present: true,
    }
}

fn command(name: &str, context: &str, path: &str) -> Command {
    Command {
        name: name.to_string(),
        context: Some(context.to_string()),
        file_path: path.to_string(),
        has_aggregate_id: true,
        fields: vec![],
    }
}

#[test]
fn test_domain_model_creation() {
    let model = DomainModel::new("/test".to_string());
    assert_eq!(model.component_count(), 0);
    assert_eq!(model.root_path, "/test".to_string());
}

#[test]
fn test_find_aggregate() {
    let mut model = DomainModel::new("/test".to_string());
    model.aggregates.push(aggregate("TaskAggregate", None, "domain/TaskAggregate.ts", 100));
    assert!(model.find_aggregate("TaskAggregate").is_some());
    assert!(model.find_aggregate("NonExistent").is_none());
}

#[test]
fn test_find_event() {
    let mut model = DomainModel::new("/test".to_string());
    model.events.push(event(
        "TaskCreatedEvent",
        None,
        "TaskCreated",
        "v1",
        "domain/events/TaskCreatedEvent.ts",
    ));
    assert!(model.find_event("TaskCreated", "v1").is_some());
    assert!(model.find_event("TaskCreated", "v2").is_none());
    assert!(model.find_event("NonExistent", "v1").is_none());
}

#[test]
fn test_get_event_versions() {
    let mut model = DomainModel::new("/test".to_string());
    model.events.push(event(
        "TaskCreatedEvent",
        None,
        "TaskCreated",
        "v1",
        "domain/events/_versioned/TaskCreatedEvent.v1.ts",
    ));
    model.events.push(event(
        "TaskCreatedEvent",
        None,
        "TaskCreated",
        "v2",
        "domain/events/TaskCreatedEvent.ts",
    ));
    let versions = model.get_event_versions("TaskCreated");
    assert_eq!(versions, vec!["v1", "v2"]);
}

#[test]
fn test_merge_empty_models() {
    let mut model1 = DomainModel::new("/test".to_string());
    let model2 = DomainModel::new("/test".to_string());
    model1.merge(model2);
    assert_eq!(model1.component_count(), 0);
}

#[test]
fn test_merge_non_overlapping_models() {
    let mut model1 = DomainModel::new("/test".to_string());
    model1.aggregates.push(aggregate(
        "TaskAggregate",
        Some("tasks"),
        "contexts/tasks/domain/TaskAggregate.ts",
        100,
    ));
    let mut model2 = DomainModel::new("/test".to_string());
    model2.aggregates.push(aggregate(
        "OrderAggregate",
        Some("orders"),
        "contexts/orders/domain/OrderAggregate.ts",
        150,
    ));
    model1.merge(model2);
    assert_eq!(model1.aggregates.len(), 2);
    assert!(model1.find_aggregate("TaskAggregate").is_some());
    assert!(model1.find_aggregate("OrderAggregate").is_some());
}

#[test]
fn test_merge_with_duplicate_names_different_contexts() {
    let mut model1 = DomainModel::new("/test".to_string());
    model1.aggregates.push(aggregate(
        "ItemAggregate",
        Some("catalog"),
        "contexts/catalog/domain/ItemAggregate.ts",
        100,
    ));
    let mut model2 = DomainModel::new("/test".to_string());
    model2.aggregates.push(aggregate(
        "ItemAggregate",
        Some("inventory"),
        "contexts/inventory/domain/ItemAggregate.ts",
        120,
    ));
    model1.merge(model2);
    assert_eq!(model1.aggregates.len(), 2);
    let catalog_item = model1.aggregates.iter().find(|a| a.context == Some("catalog".to_string()));
    let inventory_item =
        model1.aggregates.iter().find(|a| a.context == Some("inventory".to_string()));
    assert!(catalog_item.is_some());
    assert!(inventory_item.is_some());
}

#[test]
fn test_merge_preserves_context_info() {
    let mut model1 = DomainModel::new("/test".to_string());
    let mut model2 = DomainModel::new("/test".to_string());
    model2.aggregates.push(aggregate(
        "WorkspaceAggregate",
        Some("workspaces"),
        "contexts/workspaces/domain/WorkspaceAggregate.py",
        200,
    ));
    model2.commands.push(command(
        "CreateWorkspaceCommand",
        "workspaces",
        "contexts/workspaces/domain/commands/CreateWorkspaceCommand.py",
    ));
    model2.events.push(event(
        "WorkspaceCreatedEvent",
        Some("workspaces"),
        "WorkspaceCreated",
        "v1",
        "contexts/workspaces/domain/events/WorkspaceCreatedEvent.py",
    ));
    model1.merge(model2);
    assert_eq!(model1.aggregates.len(), 1);
    assert_eq!(model1.commands.len(), 1);
    assert_eq!(model1.events.len(), 1);
    assert_eq!(model1.aggregates[0].context, Some("workspaces".to_string()));
    assert_eq!(model1.commands[0].context, Some("workspaces".to_string()));
    assert_eq!(model1.events[0].context, Some("workspaces".to_string()));
}

#[test]
fn test_get_contexts() {
    let mut model = DomainModel::new("/test".to_string());
    model.aggregates.push(aggregate(
        "TaskAggregate",
        Some("tasks"),
        "contexts/tasks/domain/TaskAggregate.ts",
        100,
    ));
    model.aggregates.push(aggregate(
        "OrderAggregate",
        Some("orders"),
        "contexts/orders/domain/OrderAggregate.ts",
        150,
    ));
    model.commands.push(command(
        "CreatePaymentCommand",
        "payments",
        "contexts/payments/domain/commands/CreatePaymentCommand.ts",
    ));
    let contexts = model.get_contexts();
    assert_eq!(contexts, vec!["orders", "payments", "tasks"]);
}

#[test]
fn test_get_contexts_with_none() {
    let mut model = DomainModel::new("/test".to_string());
    model.aggregates.push(aggregate("TaskAggregate", Some("tasks"), "domain/TaskAggregate.ts", 100));
    model.aggregates.push(aggregate("LegacyAggregate", None, "domain/LegacyAggregate.ts", 50));
    let contexts = model.get_contexts();
    assert_eq!(contexts, vec!["tasks"]);
}

#[test]
fn merge_appends_in_order_and_counts_components() {
    let mut model1 = DomainModel::new("/a".to_string());
    model1.aggregates.push(aggregate("A", None, "a.ts", 1));
    let mut model2 = DomainModel::new("/b".to_string());
    model2.aggregates.push(aggregate("B", None, "b.ts", 1));
    model2.events.push(event("E", None, "E", "v1", "e.ts"));
    model1.merge(model2);
    assert_eq!(model1.aggregates[0].name, "A");
    assert_eq!(model1.aggregates[1].name, "B");
    assert_eq!(model1.root_path, "/a");
    assert_eq!(model1.component_count(), 3);
}

fn create_list_projection() -> Projection {
    Projection {
        name: "WorkflowListProjection".to_string(),
        file_path: "slices/list_workflows/WorkflowListProjection.py".to_string(),
        subscribed_events: vec![
            "WorkflowCreatedEvent".to_string(),
            "WorkflowCompletedEvent".to_string(),
        ],
        read_model: Some("WorkflowSummary".to_string()),
        line_count: 45,
    }
}

fn create_detail_projection() -> Projection {
    Projection {
        name: "WorkflowDetailProjection".to_string(),
        file_path: "slices/get_workflow_detail/WorkflowDetailProjection.py".to_string(),
        subscribed_events: vec![
            "WorkflowCreatedEvent".to_string(),
            "WorkflowPhaseStartedEvent".to_string(),
        ],
        read_model: Some("WorkflowDetail".to_string()),
        line_count: 60,
    }
}

#[test]
fn test_subscribes_to() {
    let projection = create_list_projection();
    assert!(projection.subscribes_to("WorkflowCreatedEvent"));
    assert!(projection.subscribes_to("WorkflowCompleted"));
    assert!(!projection.subscribes_to("SessionCreatedEvent"));
}

#[test]
fn test_has_subscriptions() {
    let projection = create_list_projection();
    assert!(projection.has_subscriptions());
    let empty_projection = Projection {
        name: "EmptyProjection".to_string(),
        file_path: "slices/empty/EmptyProjection.py".to_string(),
        subscribed_events: vec![],
        read_model: None,
        line_count: 10,
    };
    assert!(!empty_projection.has_subscriptions());
}

#[test]
fn test_infer_slice_name() {
    let projection = create_list_projection();
    assert_eq!(projection.infer_slice_name(), Some("list_workflows".to_string()));
    let detail = create_detail_projection();
    assert_eq!(detail.infer_slice_name(), Some("get_workflow_detail".to_string()));
}

#[test]
fn test_is_list_projection() {
    let list = create_list_projection();
    assert!(list.is_list_projection());
    let detail = create_detail_projection();
    assert!(!detail.is_list_projection());
}

#[test]
fn test_is_detail_projection() {
    let detail = create_detail_projection();
    assert!(detail.is_detail_projection());
    let list = create_list_projection();
    assert!(!list.is_detail_projection());
}

fn create_test_get_by_id_query() -> Query {
    Query {
        name: "GetTaskByIdQuery".to_string(),
        file_path: "domain/queries/GetTaskByIdQuery.ts".to_string(),
        fields: vec![QueryField {
            name: "taskId".to_string(),
            field_type: "string".to_string(),
            required: true,
            line_number: 5,
        }],
    }
}

fn create_test_list_query() -> Query {
    Query {
        name: "ListTasksQuery".to_string(),
        file_path: "domain/queries/ListTasksQuery.ts".to_string(),
        fields: vec![
            QueryField {
                name: "page".to_string(),
                field_type: "number".to_string(),
                required: false,
                line_number: 5,
            },
            QueryField {
                name: "pageSize".to_string(),
                field_type: "number".to_string(),
                required: false,
                line_number: 6,
            },
        ],
    }
}

#[test]
fn query_test_has_field() {
    let query = create_test_get_by_id_query();
    assert!(query.has_field("taskId"));
    assert!(!query.has_field("nonExistent"));
}

#[test]
fn query_test_required_fields() {
    let query = create_test_get_by_id_query();
    let required = query.required_fields();
    assert_eq!(required.len(), 1);
    assert_eq!(required[0].name, "taskId");
}

#[test]
fn query_test_optional_fields() {
    let query = create_test_list_query();
    let optional = query.optional_fields();
    assert_eq!(optional.len(), 2);
    assert!(optional.iter().any(|f| f.name == "page"));
    assert!(optional.iter().any(|f| f.name == "pageSize"));
}

#[test]
fn test_is_list_query() {
    let list_query = create_test_list_query();
    assert!(list_query.is_list_query());
    let get_by_id_query = create_test_get_by_id_query();
    assert!(!get_by_id_query.is_list_query());
}

#[test]
fn test_is_get_by_id_query() {
    let get_by_id_query = create_test_get_by_id_query();
    assert!(get_by_id_query.is_get_by_id_query());
    let list_query = create_test_list_query();
    assert!(!list_query.is_get_by_id_query());
}

fn upcaster(from: &str, to: &str, decorator: bool) -> Upcaster {
    Upcaster {
        event_type: "TaskCreated".to_string(),
        from_version: from.to_string(),
        to_version: to.to_string(),
        file_path: format!("domain/events/_upcasters/TaskCreated_{}_to_{}.ts", from, to),
        decorator_present: decorator,
    }
}

#[test]
fn test_conventional_name() {
    let upcaster_v1 = upcaster("v1", "v2", true);
    assert_eq!(upcaster_v1.conventional_name(), "TaskCreated_v1_to_v2");
    let upcaster_v2_to_v3 = upcaster("v2", "v3", true);
    assert_eq!(upcaster_v2_to_v3.conventional_name(), "TaskCreated_v2_to_v3");
}

#[test]
fn test_transforms_from() {
    let u = upcaster("v1", "v2", true);
    assert!(u.transforms_from("v1"));
    assert!(!u.transforms_from("v2"));
    assert!(!u.transforms_from("v3"));
}

#[test]
fn test_transforms_to() {
    let u = upcaster("v1", "v2", true);
    assert!(!u.transforms_to("v1"));
    assert!(u.transforms_to("v2"));
    assert!(!u.transforms_to("v3"));
}

#[test]
fn test_is_incremental() {
    assert!(upcaster("v1", "v2", true).is_incremental());
    assert!(upcaster("v2", "v3", true).is_incremental());
    assert!(!upcaster("v1", "v3", true).is_incremental());
}

#[test]
fn test_is_incremental_at_the_last_version() {
    assert!(!upcaster("v4294967295", "v0", true).is_incremental());
    assert!(upcaster("v4294967294", "v4294967295", true).is_incremental());
    assert!(upcaster("1.0.0", "2.0.0", true).is_incremental());
}

#[test]
fn upcaster_test_decorator_present() {
    let u = upcaster("v1", "v2", true);
    assert!(u.decorator_present);
    let without = upcaster("v1", "v2", false);
    assert!(!without.decorator_present);
}

#[test]
fn value_object_test_has_field() {
    let vo = ValueObject {
        name: "EmailValueObjects".to_string(),
        file_path: "domain/EmailValueObjects.py".to_string(),
        fields: vec![ValueObjectField {
            name: "email".to_string(),
            field_type: Some("str".to_string()),
            is_optional: false,
        }],
        is_immutable: true,
        line_count: 10,
    };
    assert!(vo.has_field("email"));
    assert!(!vo.has_field("nonexistent"));
    assert_eq!(vo.get_field("email").map(|f| f.name.clone()), Some("email".to_string()));
}

#[test]
fn test_required_optional_fields() {
    let vo = ValueObject {
        name: "PersonValueObjects".to_string(),
        file_path: "domain/PersonValueObjects.py".to_string(),
        fields: vec![
            ValueObjectField {
                name: "name".to_string(),
                field_type: Some("str".to_string()),
                is_optional: false,
            },
            ValueObjectField {
                name: "age".to_string(),
                field_type: Some("int".to_string()),
                is_optional: true,
            },
        ],
        is_immutable: true,
        line_count: 20,
    };
    assert_eq!(vo.required_fields().len(), 1);
    assert_eq!(vo.optional_fields().len(), 1);
}
