use vsa_core::config::{
    AggregateConfig, CommandConfig, DomainConfig, EventConfig, EventVersioningConfig, QueryConfig,
    QuerySliceConfig, SliceType, SlicesConfig, VersionFormat,
};
use vsa_core::domain::event::EventVersion;
use vsa_core::scanners::aggregate_scanner::AggregateScanner;
use vsa_core::scanners::command_scanner::CommandScanner;
use vsa_core::scanners::domain_scanner::DomainScanner;
use vsa_core::scanners::event_scanner::EventScanner;
use vsa_core::scanners::projection_scanner::{subscribed_events_from, ProjectionScanner};
use vsa_core::scanners::query_scanner::QueryScanner;
use vsa_core::scanners::slice_scanner::{
    classify_file, Slice, SliceFile, SliceFileType, SliceManifest, SliceScanner,
};
use vsa_core::tree::{FsEntry, ProjectTree};

const ROOT: &str = "/tmp/project";

/// The entries of a project at `root`: the root, then each listed path
/// (a trailing `/` marks a directory) after its missing parent directories.
fn entries(root: &str, items: &[(&str, &str)]) -> Vec<FsEntry> {
    let mut es = vec![FsEntry { path: root.to_string(), is_dir: true, content: None }];
    for (rel, content) in items {
        let is_dir = rel.ends_with('/');
        let rel = rel.trim_end_matches('/');
        let parts: Vec<&str> = rel.split('/').collect();
        let mut cur = root.to_string();
        for (i, p) in parts.iter().enumerate() {
            cur = format!("{}/{}", cur, p);
            let last = i + 1 == parts.len();
            if !es.iter().any(|e| e.path == cur) {
                if last && !is_dir {
                    es.push(FsEntry { path: cur.clone(), is_dir: false, content: Some(content.to_string()) });
                } else {
                    es.push(FsEntry { path: cur.clone(), is_dir: true, content: None });
                }
            }
        }
    }
    es
}

fn tree(items: &[(&str, &str)]) -> ProjectTree {
    ProjectTree::new(entries(ROOT, items))
}

fn exts() -> Vec<String> {
    vec!["ts".to_string(), "py".to_string(), "rs".to_string()]
}

fn aggregate_config() -> AggregateConfig {
    AggregateConfig {
        path: ".".to_string(),
        pattern: "**/*Aggregate.*".to_string(),
        require_suffix: true,
        extensions: exts(),
    }
}

#[test]
fn aggregate_scanner_test_scan_empty_directory() {
    let config = aggregate_config();
    let scanner = AggregateScanner::new(&config, ROOT);
    let aggregates = scanner.scan(&tree(&[])).unwrap();
    assert_eq!(aggregates.len(), 0);
}

#[test]
fn test_scan_with_loose_aggregates() {
    let config = aggregate_config();
    let scanner = AggregateScanner::new(&config, ROOT);
    let t = tree(&[
        ("TaskAggregate.ts", "// TaskAggregate\nclass TaskAggregate {}"),
        ("CartAggregate.ts", "// CartAggregate\nclass CartAggregate {}"),
        ("SomeOtherFile.ts", "// Just a file"),
    ]);
    let aggregates = scanner.scan(&t).unwrap();
    assert_eq!(aggregates.len(), 2);
    let names: Vec<String> = aggregates.iter().map(|a| a.name.clone()).collect();
    assert!(names.contains(&"TaskAggregate".to_string()));
    assert!(names.contains(&"CartAggregate".to_string()));
    for agg in &aggregates {
        assert!(agg.folder_name.is_none());
        assert!(agg.entities.is_empty());
        assert!(agg.value_objects.is_empty());
    }
}

#[test]
fn test_scan_aggregate_folder() {
    let config = aggregate_config();
    let scanner = AggregateScanner::new(&config, ROOT);
    let t = tree(&[
        ("aggregate_workspace/WorkspaceAggregate.py", "class WorkspaceAggregate:\n    pass"),
        (
            "aggregate_workspace/IsolationHandle.py",
            "@dataclass\nclass IsolationHandle:\n    isolation_id: str\n    status: str",
        ),
        (
            "aggregate_workspace/SecurityPolicy.py",
            "@dataclass(frozen=True)\nclass SecurityPolicy:\n    level: str",
        ),
    ]);
    let aggregates = scanner.scan(&t).unwrap();
    assert_eq!(aggregates.len(), 1);
    let agg = &aggregates[0];
    assert_eq!(agg.name, "WorkspaceAggregate");
    assert_eq!(agg.folder_name, Some("aggregate_workspace".to_string()));
    assert_eq!(agg.entities.len(), 1);
    assert_eq!(agg.value_objects.len(), 1);
    let entity = &agg.entities[0];
    assert_eq!(entity.name, "IsolationHandle");
    assert_eq!(entity.identity_field, Some("isolation_id".to_string()));
    let vo = &agg.value_objects[0];
    assert_eq!(vo.name, "SecurityPolicy");
    assert!(vo.is_immutable);
}

#[test]
fn test_scan_multiple_aggregate_folders() {
    let config = aggregate_config();
    let scanner = AggregateScanner::new(&config, ROOT);
    let t = tree(&[
        ("aggregate_workspace/WorkspaceAggregate.py", "class WorkspaceAggregate:\n    pass"),
        ("aggregate_workflow/WorkflowAggregate.py", "class WorkflowAggregate:\n    pass"),
    ]);
    let aggregates = scanner.scan(&t).unwrap();
    assert_eq!(aggregates.len(), 2);
    let names: Vec<String> = aggregates.iter().map(|a| a.name.clone()).collect();
    assert!(names.contains(&"WorkspaceAggregate".to_string()));
    assert!(names.contains(&"WorkflowAggregate".to_string()));
}

#[test]
fn aggregate_scanner_test_scan_nested_directories() {
    let config = aggregate_config();
    let scanner = AggregateScanner::new(&config, ROOT);
    let t = tree(&[
        ("domain/aggregate_task/TaskAggregate.ts", "class TaskAggregate {}"),
        ("domain/aggregate_cart/CartAggregate.ts", "class CartAggregate {}"),
    ]);
    let aggregates = scanner.scan(&t).unwrap();
    assert_eq!(aggregates.len(), 2);
    for agg in &aggregates {
        assert!(agg.folder_name.is_some());
    }
}

#[test]
fn test_extract_aggregate_name() {
    let config = aggregate_config();
    let scanner = AggregateScanner::new(&config, ROOT);
    assert_eq!(scanner.extract_aggregate_name("TaskAggregate.ts").unwrap(), "TaskAggregate");
    assert_eq!(scanner.extract_aggregate_name("CartAggregate.py").unwrap(), "CartAggregate");
    assert_eq!(scanner.extract_aggregate_name("OrderAggregate.rs").unwrap(), "OrderAggregate");
}

#[test]
fn test_is_entity() {
    let config = aggregate_config();
    let scanner = AggregateScanner::new(&config, ROOT);
    assert!(scanner.is_entity("class Foo:\n    foo_id: str"));
    assert!(scanner.is_entity("@dataclass\nclass Bar:\n    bar_id = 'test'"));
    assert!(!scanner.is_entity("@dataclass(frozen=True)\nclass Money:\n    amount: int"));
}

#[test]
fn test_is_value_object() {
    let config = aggregate_config();
    let scanner = AggregateScanner::new(&config, ROOT);
    assert!(scanner.is_value_object("@dataclass(frozen=True)\nclass Money:\n    amount: int"));
    assert!(scanner.is_value_object("class SecurityPolicy:\n    level: str"));
    assert!(scanner.is_value_object("class ExecutionStatus:\n    status: str"));
    assert!(scanner.is_value_object("class ExecutionResult:\n    code: int"));
    assert!(scanner.is_value_object("@dataclass\nclass Config:\n    setting: str"));
}

#[test]
fn test_detect_identity_field() {
    let config = aggregate_config();
    let scanner = AggregateScanner::new(&config, ROOT);
    assert_eq!(
        scanner.detect_identity_field("class Foo:\n    isolation_id: str\n    other: int"),
        Some("isolation_id".to_string())
    );
    assert_eq!(
        scanner.detect_identity_field("class Foo {\n  readonly phaseId: string;\n}"),
        Some("phaseId".to_string())
    );
    assert_eq!(scanner.detect_identity_field("class Foo:\n    name: str\n    value: int"), None);
}

#[test]
fn test_aggregate_folder_without_root() {
    let config = aggregate_config();
    let scanner = AggregateScanner::new(&config, ROOT);
    let t = tree(&[(
        "aggregate_orphan/SomeEntity.py",
        "@dataclass\nclass SomeEntity:\n    entity_id: str",
    )]);
    let aggregates = scanner.scan(&t).unwrap();
    assert_eq!(aggregates.len(), 0);
}

#[test]
fn test_skips_test_files() {
    let config = aggregate_config();
    let scanner = AggregateScanner::new(&config, ROOT);
    let t = tree(&[
        ("aggregate_task/TaskAggregate.py", "class TaskAggregate:\n    pass"),
        ("aggregate_task/test_task.py", "def test_task(): pass"),
        ("aggregate_task/TaskAggregate.test.ts", "test('task', () => {})"),
    ]);
    let aggregates = scanner.scan(&t).unwrap();
    assert_eq!(aggregates.len(), 1);
    assert!(aggregates[0].entities.is_empty());
    assert!(aggregates[0].value_objects.is_empty());
}

#[test]
fn aggregate_scan_fails_on_unreadable_aggregate_file() {
    let config = aggregate_config();
    let scanner = AggregateScanner::new(&config, ROOT);
    let mut es = entries(ROOT, &[]);
    es.push(FsEntry { path: format!("{}/TaskAggregate.ts", ROOT), is_dir: false, content: None });
    assert!(scanner.scan(&ProjectTree::new(es)).is_err());
}

fn command_config() -> CommandConfig {
    CommandConfig {
        path: "commands".to_string(),
        pattern: "**/*Command.*".to_string(),
        require_suffix: true,
        require_aggregate_id: true,
        extensions: exts(),
        organize_by_feature: false,
    }
}

#[test]
fn command_scanner_test_scan_empty_directory() {
    let config = command_config();
    let scanner = CommandScanner::new(&config, ROOT);
    let commands = scanner.scan(&tree(&[])).unwrap();
    assert_eq!(commands.len(), 0);
}

#[test]
fn test_scan_with_commands() {
    let config = command_config();
    let scanner = CommandScanner::new(&config, ROOT);
    let t = tree(&[
        ("CreateTaskCommand.ts", "export class CreateTaskCommand { aggregateId: string; }"),
        ("CompleteTaskCommand.ts", "export class CompleteTaskCommand { aggregateId: string; }"),
    ]);
    let commands = scanner.scan(&t).unwrap();
    assert_eq!(commands.len(), 2);
    let names: Vec<String> = commands.iter().map(|c| c.name.clone()).collect();
    assert!(names.contains(&"CreateTaskCommand".to_string()));
    assert!(names.contains(&"CompleteTaskCommand".to_string()));
}

#[test]
fn command_scanner_test_scan_nested_directories() {
    let config = command_config();
    let scanner = CommandScanner::new(&config, ROOT);
    let t = tree(&[
        ("create-task/CreateTaskCommand.ts", "export class CreateTaskCommand { aggregateId: string; }"),
        (
            "complete-task/CompleteTaskCommand.ts",
            "export class CompleteTaskCommand { aggregateId: string; }",
        ),
    ]);
    let commands = scanner.scan(&t).unwrap();
    assert_eq!(commands.len(), 2);
}

#[test]
fn test_extract_command_name() {
    let config = command_config();
    let scanner = CommandScanner::new(&config, ROOT);
    assert_eq!(scanner.extract_command_name("CreateTaskCommand.ts").unwrap(), "CreateTaskCommand");
    assert_eq!(scanner.extract_command_name("CompleteTaskCommand.py").unwrap(), "CompleteTaskCommand");
}

#[test]
fn test_parse_command_with_aggregate_id() {
    let config = command_config();
    let scanner = CommandScanner::new(&config, ROOT);
    let path = format!("{}/CreateTaskCommand.ts", ROOT);
    let command = scanner
        .parse_command(
            &path,
            "CreateTaskCommand.ts",
            "export class CreateTaskCommand { aggregateId: string; title: string; }",
        )
        .unwrap()
        .unwrap();
    assert_eq!(command.name, "CreateTaskCommand");
    assert!(command.has_aggregate_id);
}

#[test]
fn test_parse_command_without_aggregate_id() {
    let config = command_config();
    let scanner = CommandScanner::new(&config, ROOT);
    let path = format!("{}/SomeCommand.ts", ROOT);
    let command = scanner
        .parse_command(&path, "SomeCommand.ts", "export class SomeCommand { title: string; }")
        .unwrap()
        .unwrap();
    assert_eq!(command.name, "SomeCommand");
    assert!(!command.has_aggregate_id);
}

fn query_config() -> QueryConfig {
    QueryConfig {
        path: "queries".to_string(),
        pattern: "**/*Query.*".to_string(),
        require_suffix: true,
        extensions: exts(),
        organize_by_feature: false,
    }
}

#[test]
fn query_scanner_test_scan_empty_directory() {
    let config = query_config();
    let scanner = QueryScanner::new(&config, ROOT);
    assert_eq!(scanner.scan(&tree(&[])).unwrap().len(), 0);
}

#[test]
fn test_scan_with_queries() {
    let config = query_config();
    let scanner = QueryScanner::new(&config, ROOT);
    let t = tree(&[
        ("GetTaskByIdQuery.ts", "export class GetTaskByIdQuery { taskId: string; }"),
        ("ListTasksQuery.ts", "export class ListTasksQuery { }"),
    ]);
    let queries = scanner.scan(&t).unwrap();
    assert_eq!(queries.len(), 2);
    let names: Vec<String> = queries.iter().map(|q| q.name.clone()).collect();
    assert!(names.contains(&"GetTaskByIdQuery".to_string()));
    assert!(names.contains(&"ListTasksQuery".to_string()));
}

#[test]
fn query_scanner_test_scan_nested_directories() {
    let config = query_config();
    let scanner = QueryScanner::new(&config, ROOT);
    let t = tree(&[
        ("tasks/GetTaskByIdQuery.ts", "export class GetTaskByIdQuery { taskId: string; }"),
        ("cart/GetCartQuery.ts", "export class GetCartQuery { cartId: string; }"),
    ]);
    assert_eq!(scanner.scan(&t).unwrap().len(), 2);
}

#[test]
fn test_extract_query_name() {
    let config = query_config();
    let scanner = QueryScanner::new(&config, ROOT);
    assert_eq!(scanner.extract_query_name("GetTaskByIdQuery.ts").unwrap(), "GetTaskByIdQuery");
    assert_eq!(scanner.extract_query_name("ListTasksQuery.py").unwrap(), "ListTasksQuery");
}

#[test]
fn test_parse_query() {
    let config = query_config();
    let scanner = QueryScanner::new(&config, ROOT);
    let path = format!("{}/GetTaskByIdQuery.ts", ROOT);
    let query = scanner.parse_query(&path, "GetTaskByIdQuery.ts").unwrap().unwrap();
    assert_eq!(query.name, "GetTaskByIdQuery");
    assert!(query.is_get_by_id_query());
}

fn event_config() -> EventConfig {
    EventConfig {
        path: "events".to_string(),
        pattern: "**/*Event.*".to_string(),
        require_suffix: true,
        extensions: exts(),
        versioning: EventVersioningConfig {
            enabled: true,
            format: VersionFormat::Simple,
            require_decorator: true,
            require_upcasters: true,
            versioned_path: "_versioned".to_string(),
            upcasters_path: "_upcasters".to_string(),
            upcaster_pattern: "*_v*_to_v*.ts".to_string(),
        },
    }
}

#[test]
fn event_scanner_test_scan_empty_directory() {
    let config = event_config();
    let scanner = EventScanner::new(&config, ROOT);
    assert_eq!(scanner.scan(&tree(&[])).unwrap().len(), 0);
}

#[test]
fn test_scan_with_events() {
    let config = event_config();
    let scanner = EventScanner::new(&config, ROOT);
    let t = tree(&[
        ("TaskCreatedEvent.ts", "export class TaskCreatedEvent { }"),
        ("TaskCompletedEvent.ts", "export class TaskCompletedEvent { }"),
    ]);
    let events = scanner.scan(&t).unwrap();
    assert_eq!(events.len(), 2);
    let names: Vec<String> = events.iter().map(|e| e.name.clone()).collect();
    assert!(names.contains(&"TaskCreatedEvent".to_string()));
    assert!(names.contains(&"TaskCompletedEvent".to_string()));
}

#[test]
fn test_scan_with_versioned_events() {
    let config = event_config();
    let scanner = EventScanner::new(&config, ROOT);
    let t = tree(&[
        ("TaskCreatedEvent.ts", "export class TaskCreatedEvent { }"),
        ("_versioned/TaskCreatedEvent.v1.ts", "export class TaskCreatedEvent { }"),
    ]);
    assert_eq!(scanner.scan(&t).unwrap().len(), 2);
}

#[test]
fn test_scan_semver_named_event() {
    let config = event_config();
    let scanner = EventScanner::new(&config, ROOT);
    let t = tree(&[("TaskCreatedEvent.2.1.0.ts", "export class TaskCreatedEvent { }")]);
    let events = scanner.scan(&t).unwrap();
    assert_eq!(events.len(), 1);
    assert_eq!(events[0].name, "TaskCreatedEvent");
    assert_eq!(events[0].event_type, "TaskCreated");
    assert_eq!(events[0].version, EventVersion::Semver(2, 1, 0));
}

#[test]
fn test_event_matches_pattern_versions() {
    let config = event_config();
    let scanner = EventScanner::new(&config, ROOT);
    assert!(scanner.matches_pattern("TaskCreatedEvent.ts"));
    assert!(scanner.matches_pattern("TaskCreatedEvent.v2.ts"));
    assert!(scanner.matches_pattern("TaskCreatedEvent.2.1.0.py"));
    assert!(!scanner.matches_pattern("TaskCreatedEvent.2.1.rs"));
    assert!(!scanner.matches_pattern("TaskCreated.ts"));
}

#[test]
fn test_extract_event_info_simple() {
    let config = event_config();
    let scanner = EventScanner::new(&config, ROOT);
    let (name, event_type, version) = scanner.extract_event_info("TaskCreatedEvent.ts", false).unwrap();
    assert_eq!(name, "TaskCreatedEvent");
    assert_eq!(event_type, "TaskCreated");
    assert_eq!(version, EventVersion::Simple("v1".to_string()));
}

#[test]
fn test_extract_event_info_with_version() {
    let config = event_config();
    let scanner = EventScanner::new(&config, ROOT);
    let (name, event_type, version) =
        scanner.extract_event_info("TaskCreatedEvent.v2.ts", false).unwrap();
    assert_eq!(name, "TaskCreatedEvent");
    assert_eq!(event_type, "TaskCreated");
    assert_eq!(version, EventVersion::Simple("v2".to_string()));
}

#[test]
fn test_extract_event_info_semver() {
    let config = event_config();
    let scanner = EventScanner::new(&config, ROOT);
    let (name, event_type, version) =
        scanner.extract_event_info("TaskCreatedEvent.2.1.0.ts", false).unwrap();
    assert_eq!(name, "TaskCreatedEvent");
    assert_eq!(event_type, "TaskCreated");
    assert_eq!(version, EventVersion::Semver(2, 1, 0));
}

#[test]
fn test_parse_event() {
    let config = event_config();
    let scanner = EventScanner::new(&config, ROOT);
    let path = format!("{}/TaskCreatedEvent.ts", ROOT);
    let event = scanner.parse_event(&path, "TaskCreatedEvent.ts", false).unwrap().unwrap();
    assert_eq!(event.name, "TaskCreatedEvent");
    assert_eq!(event.event_type, "TaskCreated");
    assert_eq!(event.version, EventVersion::Simple("v1".to_string()));
}

#[test]
fn test_scan_skips_upcasters_folder() {
    let config = event_config();
    let scanner = EventScanner::new(&config, ROOT);
    let t = tree(&[
        ("TaskCreatedEvent.ts", "export class TaskCreatedEvent { }"),
        ("_upcasters/TaskCreated_v1_to_v2.ts", "export class TaskCreated_v1_to_v2 { }"),
    ]);
    let events = scanner.scan(&t).unwrap();
    assert_eq!(events.len(), 1);
    assert_eq!(events[0].name, "TaskCreatedEvent");
}

fn domain_config() -> DomainConfig {
    DomainConfig {
        path: "domain".to_string(),
        aggregates: aggregate_config(),
        commands: command_config(),
        queries: query_config(),
        events: event_config(),
    }
}

#[test]
fn test_scan_empty_domain() {
    let scanner = DomainScanner::new(domain_config(), ROOT.to_string());
    let model = scanner.scan(&tree(&[])).unwrap();
    assert_eq!(model.component_count(), 0);
}

#[test]
fn test_scan_nonexistent_domain() {
    let scanner = DomainScanner::new(domain_config(), ROOT.to_string());
    let model = scanner.scan(&tree(&[("other/readme.md", "x")])).unwrap();
    assert_eq!(model.component_count(), 0);
}

#[test]
fn test_matches_upcaster_pattern() {
    let scanner = DomainScanner::new(domain_config(), ROOT.to_string());
    assert!(scanner.matches_upcaster_pattern("TaskCreated_v1_to_v2.ts", "*_v*_to_v*.ts"));
    assert!(scanner.matches_upcaster_pattern("TaskCreated_Upcaster_v1_v2.ts", "*_Upcaster_*.ts"));
    assert!(!scanner.matches_upcaster_pattern("TaskCreatedEvent.ts", "*_v*_to_v*.ts"));
}

#[test]
fn test_parse_upcaster_standard_format() {
    let scanner = DomainScanner::new(domain_config(), ROOT.to_string());
    let path = format!("{}/TaskCreated_v1_to_v2.ts", ROOT);
    let upcaster = scanner.parse_upcaster(&path, "TaskCreated_v1_to_v2.ts").unwrap().unwrap();
    assert_eq!(upcaster.event_type, "TaskCreated");
    assert_eq!(upcaster.from_version, "v1");
    assert_eq!(upcaster.to_version, "v2");
}

#[test]
fn test_parse_upcaster_class_format() {
    let scanner = DomainScanner::new(domain_config(), ROOT.to_string());
    let path = format!("{}/TaskCreated_Upcaster_v1_v2.ts", ROOT);
    let upcaster = scanner.parse_upcaster(&path, "TaskCreated_Upcaster_v1_v2.ts").unwrap().unwrap();
    assert_eq!(upcaster.event_type, "TaskCreated");
    assert_eq!(upcaster.from_version, "v1");
    assert_eq!(upcaster.to_version, "v2");
}

#[test]
fn test_scan_with_domain_structure() {
    let scanner = DomainScanner::new(domain_config(), ROOT.to_string());
    let t = tree(&[
        ("domain/TaskAggregate.ts", "// TaskAggregate"),
        ("domain/commands/CreateTaskCommand.ts", "// CreateTaskCommand"),
        ("domain/queries/GetTaskQuery.ts", "// GetTaskQuery"),
        ("domain/events/TaskCreatedEvent.ts", "// TaskCreatedEvent"),
        ("domain/events/_upcasters/TaskCreated_v1_to_v2.ts", "// Upcaster"),
    ]);
    let model = scanner.scan(&t).unwrap();
    assert!(
        model.aggregates.len() > 0
            || model.commands.len() > 0
            || model.queries.len() > 0
            || model.events.len() > 0
            || model.upcasters.len() > 0
    );
    assert_eq!(model.aggregates.len(), 1);
    assert_eq!(model.commands.len(), 1);
    assert_eq!(model.queries.len(), 1);
    assert_eq!(model.events.len(), 1);
    assert_eq!(model.upcasters.len(), 1);
}

#[test]
fn domain_scan_of_a_file_is_an_error() {
    let scanner = DomainScanner::new(domain_config(), ROOT.to_string());
    assert!(scanner.scan(&tree(&[("domain", "not a directory")])).is_err());
}

fn query_slice_config() -> QuerySliceConfig {
    QuerySliceConfig {
        pattern: "*".to_string(),
        require_projection: true,
        must_use: "QueryBus".to_string(),
        max_lines: Some(100),
        require_tests: true,
        adapters: vec!["rest".to_string()],
    }
}

#[test]
fn projection_scanner_test_scan_empty_directory() {
    let config = query_slice_config();
    let scanner = ProjectionScanner::new(Some(&config), ROOT);
    assert_eq!(scanner.scan(&tree(&[])).unwrap().len(), 0);
}

#[test]
fn test_scan_with_projections() {
    let config = query_slice_config();
    let scanner = ProjectionScanner::new(Some(&config), ROOT);
    let t = tree(&[(
        "WorkflowListProjection.py",
        "\nfrom event_sourcing import Projection\n\nclass WorkflowListProjection(Projection):\n    async def on_WorkflowCreated(self, event):\n        pass\n\n    async def on_WorkflowCompleted(self, event):\n        pass\n",
    )]);
    let projections = scanner.scan(&t).unwrap();
    assert_eq!(projections.len(), 1);
    assert_eq!(projections[0].name, "WorkflowListProjection");
    assert!(projections[0].subscribed_events.contains(&"WorkflowCreatedEvent".to_string()));
    assert!(projections[0].subscribed_events.contains(&"WorkflowCompletedEvent".to_string()));
}

#[test]
fn test_scan_typescript_projection() {
    let config = query_slice_config();
    let scanner = ProjectionScanner::new(Some(&config), ROOT);
    let t = tree(&[(
        "CartItemsProjection.ts",
        "\nimport { Projection } from '@event-sourcing/core';\nimport { ItemAddedEvent, ItemRemovedEvent } from '../domain/events';\n\nexport class CartItemsProjection extends Projection<CartItemsReadModel> {\n    @Handles(ItemAddedEvent)\n    onItemAdded(event: ItemAddedEvent): void {\n        // handle event\n    }\n\n    @Handles(ItemRemovedEvent)\n    onItemRemoved(event: ItemRemovedEvent): void {\n        // handle event\n    }\n}\n",
    )]);
    let projections = scanner.scan(&t).unwrap();
    assert_eq!(projections.len(), 1);
    assert_eq!(projections[0].name, "CartItemsProjection");
    assert!(projections[0].subscribed_events.contains(&"ItemAddedEvent".to_string()));
    assert!(projections[0].subscribed_events.contains(&"ItemRemovedEvent".to_string()));
    assert_eq!(projections[0].read_model, Some("CartItemsReadModel".to_string()));
}

#[test]
fn projection_scanner_test_scan_nested_directories() {
    let config = query_slice_config();
    let scanner = ProjectionScanner::new(Some(&config), ROOT);
    let t = tree(&[
        (
            "slices/list_workflows/WorkflowListProjection.py",
            "\nclass WorkflowListProjection:\n    subscribed_events = [\"WorkflowCreatedEvent\"]\n",
        ),
        (
            "slices/get_workflow_detail/WorkflowDetailProjection.py",
            "\nclass WorkflowDetailProjection:\n    def on_WorkflowCreated(self, event): pass\n    def on_PhaseStarted(self, event): pass\n",
        ),
    ]);
    let projections = scanner.scan(&t).unwrap();
    assert_eq!(projections.len(), 2);
    let names: Vec<&str> = projections.iter().map(|p| p.name.as_str()).collect();
    assert!(names.contains(&"WorkflowListProjection"));
    assert!(names.contains(&"WorkflowDetailProjection"));
}

#[test]
fn test_extract_projection_name() {
    let config = query_slice_config();
    let scanner = ProjectionScanner::new(Some(&config), ROOT);
    assert_eq!(
        scanner.extract_projection_name_from_content("", "WorkflowListProjection.py").unwrap(),
        "WorkflowListProjection"
    );
    assert_eq!(
        scanner.extract_projection_name_from_content("", "CartItemsProjection.ts").unwrap(),
        "CartItemsProjection"
    );
    let py_content = "class WorkflowDetailProjection:\n    pass";
    assert_eq!(
        scanner.extract_projection_name_from_content(py_content, "projection.py").unwrap(),
        "WorkflowDetailProjection"
    );
    let ts_content = "export class OrderListProjection {\n}";
    assert_eq!(
        scanner.extract_projection_name_from_content(ts_content, "projection.ts").unwrap(),
        "OrderListProjection"
    );
}

#[test]
fn test_matches_pattern() {
    let config = query_slice_config();
    let scanner = ProjectionScanner::new(Some(&config), ROOT);
    assert!(scanner.matches_pattern("WorkflowListProjection.py"));
    assert!(scanner.matches_pattern("CartItemsProjection.ts"));
    assert!(scanner.matches_pattern("OrderProjection.rs"));
    assert!(scanner.matches_pattern("projection.py"));
    assert!(scanner.matches_pattern("projection.ts"));
    assert!(scanner.matches_pattern("projection.rs"));
    assert!(!scanner.matches_pattern("WorkflowHandler.py"));
    assert!(!scanner.matches_pattern("WorkflowQuery.ts"));
}

fn subscribed(content: &str) -> Vec<String> {
    let config = query_slice_config();
    let scanner = ProjectionScanner::new(Some(&config), ROOT);
    scanner.extract_subscribed_events(content)
}

#[test]
fn test_extract_subscribed_events_python() {
    let events = subscribed("\nclass TestProjection:\n    async def on_WorkflowCreated(self, event):\n        pass\n\n    async def on_WorkflowCompleted(self, event):\n        pass\n");
    assert!(events.contains(&"WorkflowCreatedEvent".to_string()));
    assert!(events.contains(&"WorkflowCompletedEvent".to_string()));
}

#[test]
fn test_extract_subscribed_events_list() {
    let events = subscribed("\nclass TestProjection:\n    subscribed_events = [\"WorkflowCreatedEvent\", \"SessionStartedEvent\"]\n");
    assert!(events.contains(&"WorkflowCreatedEvent".to_string()));
    assert!(events.contains(&"SessionStartedEvent".to_string()));
}

#[test]
fn test_extract_read_model() {
    let config = query_slice_config();
    let scanner = ProjectionScanner::new(Some(&config), ROOT);
    let ts_content = "\nexport class WorkflowProjection extends Projection<WorkflowSummary> {\n}\n";
    assert_eq!(scanner.extract_read_model(ts_content), Some("WorkflowSummary".to_string()));
    let py_content = "\nclass WorkflowReadModel:\n    pass\n";
    assert_eq!(scanner.extract_read_model(py_content), Some("WorkflowReadModel".to_string()));
}

#[test]
fn test_no_false_positive_from_mid_word_on_pattern() {
    let events = subscribed("\nclass ArtifactListProjection:\n    async def on_artifact_created(self, event_data: dict) -> None:\n        pass\n\n    async def get_by_execution_and_phase(\n        self,\n        execution_id: str,\n        phase_id: str,\n    ) -> list:\n        pass\n");
    assert!(events.contains(&"artifact_created".to_string()));
    assert!(!events.contains(&"and_phase".to_string()));
    assert!(!events.contains(&"and_phaseEvent".to_string()));
}

#[test]
fn test_snake_case_events_with_common_words_allowed() {
    let events = subscribed("\nclass ErrorHandlingProjection:\n    async def on_error_occurred(self, event_data: dict) -> None:\n        pass\n\n    async def on_data_received(self, event_data: dict) -> None:\n        pass\n\n    async def on_status_changed(self, event_data: dict) -> None:\n        pass\n");
    assert!(events.contains(&"error_occurred".to_string()));
    assert!(events.contains(&"data_received".to_string()));
    assert!(events.contains(&"status_changed".to_string()));
}

#[test]
fn test_method_verb_prefixes_excluded() {
    let events = subscribed("\nclass DataProjection:\n    async def on_get_by_id(self, id: str) -> None:\n        pass\n\n    async def on_set_value(self, value: str) -> None:\n        pass\n\n    async def on_load_data(self, data: dict) -> None:\n        pass\n\n    async def on_save_changes(self) -> None:\n        pass\n\n    async def on_create_item(self, item: dict) -> None:\n        pass\n\n    async def on_session_started(self, event_data: dict) -> None:\n        pass\n");
    assert!(!events.contains(&"get_by_id".to_string()));
    assert!(!events.contains(&"set_value".to_string()));
    assert!(!events.contains(&"load_data".to_string()));
    assert!(!events.contains(&"save_changes".to_string()));
    assert!(!events.contains(&"create_item".to_string()));
    assert!(events.contains(&"session_started".to_string()));
}

#[test]
fn test_pattern2_handle_snake_case_events() {
    let events = subscribed("\nclass GitHubProjection:\n    def handle_session_started(self, event_data: dict) -> None:\n        pass\n\n    def handle_WorkflowCreatedEvent(self, event: WorkflowCreatedEvent) -> None:\n        pass\n\n    def handle_OrderPlaced(self, event: OrderPlacedEvent) -> None:\n        pass\n");
    assert!(events.contains(&"session_started".to_string()));
    assert!(events.contains(&"WorkflowCreatedEvent".to_string()));
    assert!(events.contains(&"OrderPlacedEvent".to_string()));
}

#[test]
fn test_pattern5_subscribed_events_list_snake_case() {
    let events = subscribed("\nclass SessionListProjection:\n    subscribed_events = [\"session_started\", \"session_completed\", \"WorkflowCreatedEvent\"]\n");
    assert!(events.contains(&"session_started".to_string()));
    assert!(events.contains(&"session_completed".to_string()));
    assert!(events.contains(&"WorkflowCreatedEvent".to_string()));
}

#[test]
fn test_subscribed_events_list_ignores_non_events() {
    let events = subscribed("\nclass TestProjection:\n    subscribed_events = [\"session_started\", \"id\", \"ms\", \"WorkflowCreatedEvent\"]\n");
    assert!(events.contains(&"session_started".to_string()));
    assert!(events.contains(&"WorkflowCreatedEvent".to_string()));
    assert!(!events.contains(&"id".to_string()));
    assert!(!events.contains(&"ms".to_string()));
    assert!(!events.contains(&"idEvent".to_string()));
    assert!(!events.contains(&"msEvent".to_string()));
}

#[test]
fn subscribed_events_come_out_sorted_without_repeats() {
    let events = subscribed("def on_Zeta(self, e): pass\ndef on_Alpha(self, e): pass\ndef on_Alpha(self, e): pass\n");
    assert_eq!(events, vec!["AlphaEvent".to_string(), "ZetaEvent".to_string()]);
}

fn slices_config() -> SlicesConfig {
    SlicesConfig {
        path: "slices".to_string(),
        types: vec![SliceType::Command, SliceType::Query, SliceType::Saga],
        metadata_file: "slice.yaml".to_string(),
        command: None,
        query: None,
        saga: None,
    }
}

#[test]
fn slice_scanner_test_scan_empty_directory() {
    let config = slices_config();
    let scanner = SliceScanner::new(Some(&config), ROOT);
    assert_eq!(scanner.scan(&tree(&[("slices/", "")])).unwrap().len(), 0);
}

#[test]
fn test_scan_command_slice() {
    let config = slices_config();
    let scanner = SliceScanner::new(Some(&config), ROOT);
    let t = tree(&[
        ("slices/create_order/CreateOrderCommand.ts", "export class CreateOrderCommand {}"),
        ("slices/create_order/CreateOrderHandler.ts", "export class CreateOrderHandler {}"),
        ("slices/create_order/OrderCreatedEvent.ts", "export class OrderCreatedEvent {}"),
        ("slices/create_order/CreateOrderController.ts", "export class CreateOrderController {}"),
    ]);
    let slices = scanner.scan(&t).unwrap();
    assert_eq!(slices.len(), 1);
    let slice = &slices[0];
    assert_eq!(slice.name, "create_order");
    assert_eq!(slice.slice_type, SliceType::Command);
    assert!(!slice.type_explicit);
    assert!(slice.has_handler());
    assert!(slice.has_controller());
    assert!(!slice.has_projection());
}

#[test]
fn test_scan_query_slice() {
    let config = slices_config();
    let scanner = SliceScanner::new(Some(&config), ROOT);
    let t = tree(&[
        ("slices/list_orders/ListOrdersQuery.py", "class ListOrdersQuery: pass"),
        ("slices/list_orders/OrderListProjection.py", "class OrderListProjection: pass"),
        ("slices/list_orders/ListOrdersHandler.py", "class ListOrdersHandler: pass"),
    ]);
    let slices = scanner.scan(&t).unwrap();
    assert_eq!(slices.len(), 1);
    let slice = &slices[0];
    assert_eq!(slice.name, "list_orders");
    assert_eq!(slice.slice_type, SliceType::Query);
    assert!(!slice.type_explicit);
    assert!(slice.has_handler());
    assert!(slice.has_projection());
}

#[test]
fn test_scan_slice_with_manifest() {
    let config = slices_config();
    let scanner = SliceScanner::new(Some(&config), ROOT);
    let yaml = "\nname: get_order_details\ntype: query\nprojection: OrderDetailProjection\nsubscribes_to:\n  - OrderCreatedEvent\n  - OrderUpdatedEvent\nreturns: OrderDetail\n";
    let es = entries(
        ROOT,
        &[
            ("slices/get_order_details/OrderDetailProjection.ts", "export class OrderDetailProjection {}"),
            ("slices/get_order_details/GetOrderDetailsHandler.ts", "export class GetOrderDetailsHandler {}"),
            ("slices/get_order_details/slice.yaml", yaml),
        ],
    );
    let manifest = SliceManifest {
        name: "get_order_details".to_string(),
        slice_type: "query".to_string(),
        projection: Some("OrderDetailProjection".to_string()),
        subscribes_to: vec!["OrderCreatedEvent".to_string(), "OrderUpdatedEvent".to_string()],
        returns: Some("OrderDetail".to_string()),
        description: None,
    };
    let t = ProjectTree::with_slice_manifests(
        es,
        vec![(format!("{}/slices/get_order_details/slice.yaml", ROOT), Ok(manifest))],
    );
    let slices = scanner.scan(&t).unwrap();
    assert_eq!(slices.len(), 1);
    let slice = &slices[0];
    assert_eq!(slice.name, "get_order_details");
    assert_eq!(slice.slice_type, SliceType::Query);
    assert!(slice.type_explicit);
    let manifest = slice.metadata.as_ref().unwrap();
    assert_eq!(manifest.projection, Some("OrderDetailProjection".to_string()));
    assert_eq!(manifest.subscribes_to.len(), 2);
    assert_eq!(manifest.returns, Some("OrderDetail".to_string()));
}

#[test]
fn slice_scan_fails_on_unparsed_manifest() {
    let config = slices_config();
    let scanner = SliceScanner::new(Some(&config), ROOT);
    let es = entries(ROOT, &[("slices/a/slice.yaml", "::")]);
    let t = ProjectTree::with_slice_manifests(
        es,
        vec![(
            format!("{}/slices/a/slice.yaml", ROOT),
            Err(vsa_core::error::VsaError::YamlError("bad".to_string())),
        )],
    );
    assert!(scanner.scan(&t).is_err());
}

#[test]
fn test_classify_file() {
    assert_eq!(classify_file("CreateOrderCommand.ts"), SliceFileType::Command);
    assert_eq!(classify_file("ListOrdersQuery.py"), SliceFileType::Query);
    assert_eq!(classify_file("OrderCreatedEvent.ts"), SliceFileType::Event);
    assert_eq!(classify_file("CreateOrderHandler.py"), SliceFileType::Handler);
    assert_eq!(classify_file("OrderListProjection.ts"), SliceFileType::Projection);
    assert_eq!(classify_file("CreateOrderController.py"), SliceFileType::Controller);
    assert_eq!(classify_file("OrderProcessingSaga.ts"), SliceFileType::Saga);
    assert_eq!(classify_file("CreateOrder.test.ts"), SliceFileType::Test);
    assert_eq!(classify_file("test_create_order.py"), SliceFileType::Test);
    assert_eq!(classify_file("slice.yaml"), SliceFileType::Manifest);
    assert_eq!(classify_file("utils.ts"), SliceFileType::Other);
}

fn slice_file(name: &str, t: SliceFileType) -> SliceFile {
    SliceFile { name: name.to_string(), path: name.to_string(), file_type: t }
}

#[test]
fn slice_scanner_test_detect_slice_type_command() {
    let config = slices_config();
    let scanner = SliceScanner::new(Some(&config), ROOT);
    let files = vec![
        slice_file("CreateOrderCommand.ts", SliceFileType::Command),
        slice_file("CreateOrderHandler.ts", SliceFileType::Handler),
    ];
    let (slice_type, explicit) = scanner.detect_slice_type(&files, &None);
    assert_eq!(slice_type, SliceType::Command);
    assert!(!explicit);
}

#[test]
fn slice_scanner_test_detect_slice_type_query() {
    let config = slices_config();
    let scanner = SliceScanner::new(Some(&config), ROOT);
    let files = vec![
        slice_file("ListOrdersQuery.ts", SliceFileType::Query),
        slice_file("OrderListProjection.ts", SliceFileType::Projection),
    ];
    let (slice_type, explicit) = scanner.detect_slice_type(&files, &None);
    assert_eq!(slice_type, SliceType::Query);
    assert!(!explicit);
}

#[test]
fn test_detect_slice_type_explicit() {
    let config = slices_config();
    let scanner = SliceScanner::new(Some(&config), ROOT);
    let files = vec![];
    let manifest = Some(SliceManifest {
        name: "test_slice".to_string(),
        slice_type: "saga".to_string(),
        projection: None,
        subscribes_to: vec![],
        returns: None,
        description: None,
    });
    let (slice_type, explicit) = scanner.detect_slice_type(&files, &manifest);
    assert_eq!(slice_type, SliceType::Saga);
    assert!(explicit);
}

#[test]
fn test_slice_has_methods() {
    let slice = Slice {
        name: "test_slice".to_string(),
        path: "slices/test_slice".to_string(),
        slice_type: SliceType::Query,
        type_explicit: false,
        files: vec![
            slice_file("TestQuery.ts", SliceFileType::Query),
            slice_file("TestProjection.ts", SliceFileType::Projection),
            slice_file("TestHandler.ts", SliceFileType::Handler),
            slice_file("test_slice.test.ts", SliceFileType::Test),
        ],
        metadata: None,
    };
    assert!(slice.has_handler());
    assert!(slice.has_projection());
    assert!(slice.has_tests());
    assert!(!slice.has_controller());
    assert_eq!(slice.source_file_count(), 3);
}

fn strings(v: &[&str]) -> Vec<String> {
    v.iter().map(|s| s.to_string()).collect()
}

#[test]
fn test_subscribed_events_from_names() {
    let r = subscribed_events_from(
        strings(&["WorkflowCreated", "workflow_created", "lowercase"]),
        strings(&["OrderPlacedEvent", "OrderShipped"]),
        strings(&["PaymentMadeEvent"]),
        strings(&["OrderPlacedEvent"]),
        strings(&["ItemAddedEvent", "item_added", "Nope"]),
    );
    assert_eq!(
        r,
        strings(&[
            "ItemAddedEvent",
            "OrderPlacedEvent",
            "OrderShippedEvent",
            "PaymentMadeEvent",
            "WorkflowCreatedEvent",
            "item_added",
            "workflow_created",
        ])
    );
}

#[test]
fn test_subscribed_events_from_empty() {
    let r = subscribed_events_from(vec![], vec![], vec![], vec![], vec![]);
    assert!(r.is_empty());
}

#[test]
fn test_extract_subscribed_events_shape() {
    let events = subscribed(
        "class P:\n    def on_OrderShipped(self, e): pass\n    def on_get_value(self, e): pass\n    def on_order_paid(self, e): pass\n    def handle_OrderPlacedEvent(self, e): pass\n    def on_OrderShipped(self, e): pass\n    def on_init(self): pass\n",
    );
    assert_eq!(events, strings(&["OrderPlacedEvent", "OrderShippedEvent", "order_paid"]));
    for w in events.windows(2) {
        assert!(w[0] < w[1]);
    }
}
