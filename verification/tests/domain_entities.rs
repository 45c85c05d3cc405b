use vsa_core::domain::aggregate::{
    Aggregate, AggregateEntity, AggregateValueObject, CommandHandler, EventHandler,
};
use vsa_core::domain::command::{Command, CommandField};
use vsa_core::domain::event::{Event, EventField, EventVersion};

fn create_test_aggregate() -> Aggregate {
    Aggregate {
        name: "TaskAggregate".to_string(),
        context: None,
        file_path: "domain/TaskAggregate.ts".to_string(),
        line_count: 150,
        command_handlers: vec![
            CommandHandler {
                command_type: "CreateTaskCommand".to_string(),
                method_name: "handle".to_string(),
                line_number: 25,
                emits_events: vec!["TaskCreatedEvent".to_string()],
            },
            CommandHandler {
                command_type: "CompleteTaskCommand".to_string(),
                method_name: "handle".to_string(),
                line_number: 45,
                emits_events: vec!["TaskCompletedEvent".to_string()],
            },
        ],
        event_handlers: vec![
            EventHandler {
                event_type: "TaskCreatedEvent".to_string(),
                method_name: "on".to_string(),
                line_number: 70,
            },
            EventHandler {
                event_type: "TaskCompletedEvent".to_string(),
                method_name: "on".to_string(),
                line_number: 85,
            },
        ],
        entities: vec![],
        value_objects: vec![],
        folder_name: None,
    }
}

#[test]
fn test_handles_command() {
    let aggregate = create_test_aggregate();
    assert!(aggregate.handles_command("CreateTaskCommand"));
    assert!(aggregate.handles_command("CompleteTaskCommand"));
    assert!(!aggregate.handles_command("DeleteTaskCommand"));
}

#[test]
fn test_handles_event() {
    let aggregate = create_test_aggregate();
    assert!(aggregate.handles_event("TaskCreatedEvent"));
    assert!(aggregate.handles_event("TaskCompletedEvent"));
    assert!(!aggregate.handles_event("TaskDeletedEvent"));
}

#[test]
fn test_handler_count() {
    let aggregate = create_test_aggregate();
    assert_eq!(aggregate.handler_count(), 4);
}

#[test]
fn test_empty_aggregate() {
    let aggregate = Aggregate {
        name: "EmptyAggregate".to_string(),
        context: None,
        file_path: "domain/EmptyAggregate.ts".to_string(),
        line_count: 10,
        command_handlers: vec![],
        event_handlers: vec![],
        entities: vec![],
        value_objects: vec![],
        folder_name: None,
    };
    assert_eq!(aggregate.handler_count(), 0);
    assert!(!aggregate.handles_command("AnyCommand"));
    assert!(!aggregate.handles_event("AnyEvent"));
}

#[test]
fn test_aggregate_with_entities_and_value_objects() {
    let aggregate = Aggregate {
        name: "WorkspaceAggregate".to_string(),
        context: Some("orchestration".to_string()),
        file_path: "domain/aggregate_workspace/WorkspaceAggregate.py".to_string(),
        line_count: 200,
        command_handlers: vec![],
        event_handlers: vec![],
        entities: vec![AggregateEntity {
            name: "IsolationHandle".to_string(),
            identity_field: Some("isolation_id".to_string()),
            file_path: "domain/aggregate_workspace/IsolationHandle.py".to_string(),
            line_count: 50,
        }],
        value_objects: vec![
            AggregateValueObject {
                name: "SecurityPolicy".to_string(),
                file_path: "domain/aggregate_workspace/SecurityPolicy.py".to_string(),
                is_immutable: true,
                line_count: 30,
            },
            AggregateValueObject {
                name: "ExecutionResult".to_string(),
                file_path: "domain/aggregate_workspace/ExecutionResult.py".to_string(),
                is_immutable: true,
                line_count: 25,
            },
        ],
        folder_name: Some("aggregate_workspace".to_string()),
    };
    assert_eq!(aggregate.entities.len(), 1);
    assert_eq!(aggregate.value_objects.len(), 2);
    assert_eq!(aggregate.folder_name, Some("aggregate_workspace".to_string()));
    assert_eq!(aggregate.entities[0].identity_field, Some("isolation_id".to_string()));
}

fn create_test_command() -> Command {
    Command {
        name: "CreateTaskCommand".to_string(),
        context: None,
        file_path: "domain/commands/CreateTaskCommand.ts".to_string(),
        has_aggregate_id: true,
        fields: vec![
            CommandField {
                name: "aggregateId".to_string(),
                field_type: "string".to_string(),
                required: true,
                line_number: 5,
            },
            CommandField {
                name: "title".to_string(),
                field_type: "string".to_string(),
                required: true,
                line_number: 6,
            },
            CommandField {
                name: "description".to_string(),
                field_type: "string".to_string(),
                required: false,
                line_number: 7,
            },
        ],
    }
}

#[test]
fn command_test_has_field() {
    let command = create_test_command();
    assert!(command.has_field("aggregateId"));
    assert!(command.has_field("title"));
    assert!(command.has_field("description"));
    assert!(!command.has_field("nonExistent"));
}

#[test]
fn command_test_required_fields() {
    let command = create_test_command();
    let required = command.required_fields();
    assert_eq!(required.len(), 2);
    assert!(required.iter().any(|f| f.name == "aggregateId"));
    assert!(required.iter().any(|f| f.name == "title"));
}

#[test]
fn command_test_optional_fields() {
    let command = create_test_command();
    let optional = command.optional_fields();
    assert_eq!(optional.len(), 1);
    assert_eq!(optional[0].name, "description");
}

#[test]
fn test_has_aggregate_id() {
    let command = create_test_command();
    assert!(command.has_aggregate_id);
    let command_without_id = Command {
        name: "SomeCommand".to_string(),
        context: None,
        file_path: "domain/commands/SomeCommand.ts".to_string(),
        has_aggregate_id: false,
        fields: vec![],
    };
    assert!(!command_without_id.has_aggregate_id);
}

fn event_field(name: &str, line: usize) -> EventField {
    EventField {
        name: name.to_string(),
        field_type: "string".to_string(),
        required: true,
        line_number: line,
    }
}

fn create_test_event_v1() -> Event {
    Event {
        name: "TaskCreatedEvent".to_string(),
        context: None,
        event_type: "TaskCreated".to_string(),
        version: EventVersion::Simple("v1".to_string()),
        file_path: "domain/events/TaskCreatedEvent.ts".to_string(),
        fields: vec![event_field("aggregateId", 5), event_field("title", 6)],
        decorator_present: true,
    }
}

fn create_test_event_v2() -> Event {
    Event {
        name: "TaskCreatedEvent".to_string(),
        context: None,
        event_type: "TaskCreated".to_string(),
        version: EventVersion::Simple("v2".to_string()),
        file_path: "domain/events/_versioned/TaskCreatedEvent.v2.ts".to_string(),
        fields: vec![
            event_field("aggregateId", 5),
            event_field("title", 6),
            event_field("createdBy", 7),
        ],
        decorator_present: true,
    }
}

#[test]
fn event_test_has_field() {
    let event = create_test_event_v1();
    assert!(event.has_field("aggregateId"));
    assert!(event.has_field("title"));
    assert!(!event.has_field("nonExistent"));
}

#[test]
fn test_is_versioned() {
    let v1 = create_test_event_v1();
    assert!(!v1.is_versioned());
    let v2 = create_test_event_v2();
    assert!(v2.is_versioned());
}

#[test]
fn test_is_latest() {
    let v1 = create_test_event_v1();
    assert!(v1.is_latest());
    let v2 = create_test_event_v2();
    assert!(!v2.is_latest());
}

#[test]
fn test_version_string() {
    let v1 = create_test_event_v1();
    assert_eq!(v1.version_string(), "v1");
    let v2 = create_test_event_v2();
    assert_eq!(v2.version_string(), "v2");
    let semver_event = Event {
        name: "TaskCreatedEvent".to_string(),
        context: None,
        event_type: "TaskCreated".to_string(),
        version: EventVersion::Semver(2, 1, 0),
        file_path: "domain/events/TaskCreatedEvent.ts".to_string(),
        fields: vec![],
        decorator_present: true,
    };
    assert_eq!(semver_event.version_string(), "2.1.0");
}

#[test]
fn test_event_version_parse() {
    let v1 = EventVersion::parse("v1").unwrap();
    assert_eq!(v1, EventVersion::Simple("v1".to_string()));
    let v2 = EventVersion::parse("v2").unwrap();
    assert_eq!(v2, EventVersion::Simple("v2".to_string()));
    let semver = EventVersion::parse("2.1.0").unwrap();
    assert_eq!(semver, EventVersion::Semver(2, 1, 0));
    assert!(EventVersion::parse("invalid").is_none());
    assert!(EventVersion::parse("1.2").is_none());
}

#[test]
fn event_test_decorator_present() {
    let event = create_test_event_v1();
    assert!(event.decorator_present);
    let event_without_decorator = Event {
        name: "TaskCreatedEvent".to_string(),
        context: None,
        event_type: "TaskCreated".to_string(),
        version: EventVersion::Simple("v1".to_string()),
        file_path: "domain/events/TaskCreatedEvent.ts".to_string(),
        fields: vec![],
        decorator_present: false,
    };
    assert!(!event_without_decorator.decorator_present);
}

#[test]
fn version_text_roundtrips_through_parse() {
    for v in [EventVersion::Semver(0, 0, 0), EventVersion::Semver(10, 2, 33), EventVersion::Simple("v7".to_string())] {
        assert_eq!(EventVersion::parse(&v.to_text()), Some(v.clone()));
    }
    assert_eq!(EventVersion::Semver(1, 2, 3).as_str(), "semver");
    assert!(EventVersion::parse("1.2.x").is_none());
    assert!(EventVersion::parse("1.2.3.4").is_none());
}
