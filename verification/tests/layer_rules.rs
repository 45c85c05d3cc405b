use vsa_core::config::{
    ArchitectureType, DomainConfig, InfrastructureConfig, PatternsConfig, SliceType, SlicesConfig,
    ValidationConfig, VsaConfig,
};
use vsa_core::tree::{FsEntry, ProjectTree};
use vsa_core::validation::dependency_rules::{
    ApplicationIsolationRule, DomainPurityRule, EventsIsolationRule, PortIsolationRule,
    SliceIsolationRule,
};
use vsa_core::validation::isolation_rules::{
    count_code_lines, detect_cross_slice_imports, extract_python_imports,
    extract_typescript_imports, NoCrossSliceImportsRule, ThinAdapterRule,
};
use vsa_core::validation::query_slice_rules::{
    to_pascal_case, ProjectionEventSubscriptionRule, RequireHandlerForQueryRule,
    RequireProjectionForQueryRule,
};
use vsa_core::validation::slice_location_rules::RequireSliceLocationRule;
use vsa_core::validation::suggestions::SuggestionAction;
use vsa_core::validation::{is_test_or_conftest, EnhancedValidationReport, ValidationContext, ValidationRule};
use vsa_core::validator::Validator;

const ROOT: &str = "/tmp/project";

fn entries(root: &str, items: &[(&str, &str)]) -> Vec<FsEntry> {
    let mut es = vec![FsEntry { path: root.to_string(), is_dir: true, content: None }];
    for (rel, content) in items {
        let is_dir = rel.ends_with('/');
        let rel = rel.trim_end_matches('/');
        let parts: Vec<&str> = rel.split('/').collect();
        let mut cur = root.to_string();
        for (i, p) in parts.iter().enumerate() {
            cur = format!("{}/{}", cur, p);
            let last = i + 1 == parts.len();
            if !es.iter().any(|e| e.path == cur) {
                if last && !is_dir {
                    es.push(FsEntry { path: cur.clone(), is_dir: false, content: Some(content.to_string()) });
                } else {
                    es.push(FsEntry { path: cur.clone(), is_dir: true, content: None });
                }
            }
        }
    }
    es
}

fn base_config(version: u32, arch: ArchitectureType, language: &str) -> VsaConfig {
    VsaConfig {
        version,
        architecture: arch,
        root: ROOT.to_string(),
        language: language.to_string(),
        domain: None,
        slices: None,
        infrastructure: None,
        framework: None,
        contexts: vec![],
        validation: ValidationConfig::default(),
        patterns: PatternsConfig::default(),
        projection_allowed_prefixes: None,
        cross_context_scan_paths: vec![],
        exceptions: vec![],
    }
}

fn slices_only_config(language: &str) -> VsaConfig {
    let mut c = base_config(2, ArchitectureType::HexagonalEventSourcedVsa, language);
    c.slices = Some(SlicesConfig {
        path: "slices".to_string(),
        types: vec![SliceType::Command, SliceType::Query, SliceType::Saga],
        metadata_file: "slice.yaml".to_string(),
        command: None,
        query: None,
        saga: None,
    });
    c
}

fn hexagonal_config() -> VsaConfig {
    let mut c = base_config(2, ArchitectureType::HexagonalEventSourcedVsa, "python");
    c.domain = Some(DomainConfig::default());
    c.slices = Some(SlicesConfig::default());
    c.infrastructure = Some(InfrastructureConfig::default());
    c
}

fn run(rule: &dyn ValidationRule, config: VsaConfig, es: Vec<FsEntry>) -> EnhancedValidationReport {
    let ctx = ValidationContext::new(config, ROOT.to_string(), ProjectTree::new(es));
    let mut report = EnhancedValidationReport::default();
    rule.validate(&ctx, &mut report).unwrap();
    report
}

#[test]
fn test_extract_typescript_imports() {
    let content = "\nimport { CreateOrderCommand } from '../domain/commands/CreateOrderCommand';\nimport { OrderRepository } from '../infrastructure/OrderRepository';\nimport { Handler } from '@event-sourcing/core';\nconst utils = require('../utils/helpers');\n";
    let imports = extract_typescript_imports(content);
    assert_eq!(imports.len(), 4);
    assert!(imports.contains(&"../domain/commands/CreateOrderCommand".to_string()));
    assert!(imports.contains(&"../infrastructure/OrderRepository".to_string()));
    assert!(imports.contains(&"@event-sourcing/core".to_string()));
    assert!(imports.contains(&"../utils/helpers".to_string()));
}

#[test]
fn test_extract_python_imports() {
    let content = "\nfrom domain.commands import CreateOrderCommand\nfrom infrastructure.repositories import OrderRepository\nimport os\nfrom slices.other_slice.handler import OtherHandler\n";
    let imports = extract_python_imports(content);
    assert!(imports.contains(&"domain.commands".to_string()));
    assert!(imports.contains(&"infrastructure.repositories".to_string()));
    assert!(imports.contains(&"slices.other_slice.handler".to_string()));
}

#[test]
fn test_detect_cross_slice_imports() {
    let content = "\nimport { Something } from '../list_orders/OrderListProjection';\nimport { Handler } from '@event-sourcing/core';\n";
    let all_slices = vec!["create_order", "list_orders", "get_order_detail"];
    let violations = detect_cross_slice_imports(content, "create_order", &all_slices, "typescript");
    assert_eq!(violations.len(), 1);
    assert_eq!(violations[0].imported_slice, "list_orders");
}

#[test]
fn test_no_cross_slice_import_from_domain() {
    let content = "\nimport { CreateOrderCommand } from '../domain/commands/CreateOrderCommand';\nimport { OrderCreatedEvent } from '../domain/events/OrderCreatedEvent';\n";
    let all_slices = vec!["create_order", "list_orders"];
    let violations = detect_cross_slice_imports(content, "create_order", &all_slices, "typescript");
    assert_eq!(violations.len(), 0);
}

#[test]
fn test_count_code_lines_typescript() {
    let content = "\n// This is a comment\nimport { Handler } from '@event-sourcing/core';\n\n/*\n * Block comment\n * Multiple lines\n */\nexport class CreateOrderController {\n    // Another comment\n    async handle(request: Request) {\n        return response;\n    }\n}\n";
    assert_eq!(count_code_lines(content, "typescript"), 6);
}

#[test]
fn test_count_code_lines_python() {
    let content = "\n# This is a comment\nfrom domain import Command\n\n\"\"\"\nDocstring\nMultiple lines\n\"\"\"\nclass CreateOrderController:\n    # Another comment\n    def handle(self, request):\n        return response\n";
    assert_eq!(count_code_lines(content, "python"), 4);
}

#[test]
fn test_vsa010_cross_slice_import() {
    let es = entries(
        ROOT,
        &[
            (
                "slices/create_order/CreateOrderController.ts",
                "\nimport { OrderListProjection } from '../list_orders/OrderListProjection';\n\nexport class CreateOrderController {}\n",
            ),
            ("slices/create_order/CreateOrderCommand.ts", "export class CreateOrderCommand {}"),
            ("slices/list_orders/ListOrdersQuery.ts", "export class ListOrdersQuery {}"),
            ("slices/list_orders/OrderListProjection.ts", "export class OrderListProjection {}"),
        ],
    );
    let report = run(&NoCrossSliceImportsRule, slices_only_config("typescript"), es);
    assert_eq!(report.errors.len(), 1);
    assert_eq!(report.errors[0].code, "VSA010");
    assert!(report.errors[0].message.contains("Cross-slice import"));
}

#[test]
fn test_vsa011_thin_adapter() {
    let mut content = String::from("export class CreateOrderController {\n");
    for i in 0..58 {
        content.push_str(&format!("    line{i}: string;\n"));
    }
    content.push_str("}\n");
    let es = entries(
        ROOT,
        &[
            ("slices/create_order/CreateOrderController.ts", content.as_str()),
            ("slices/create_order/CreateOrderCommand.ts", "export class CreateOrderCommand {}"),
        ],
    );
    let report = run(&ThinAdapterRule, slices_only_config("typescript"), es);
    assert_eq!(report.warnings.len(), 1);
    assert_eq!(report.warnings[0].code, "VSA011");
    assert!(report.warnings[0].message.contains("exceeding"));
}

#[test]
fn test_vsa011_thin_adapter_ok() {
    let es = entries(
        ROOT,
        &[
            (
                "slices/create_order/CreateOrderController.ts",
                "\nimport { CommandBus } from '../infrastructure/CommandBus';\nimport { CreateOrderCommand } from './CreateOrderCommand';\n\nexport class CreateOrderController {\n    constructor(private commandBus: CommandBus) {}\n\n    async handle(request: Request): Promise<Response> {\n        const command = new CreateOrderCommand(request.body);\n        await this.commandBus.execute(command);\n        return new Response({ status: 'ok' });\n    }\n}\n",
            ),
            ("slices/create_order/CreateOrderCommand.ts", "export class CreateOrderCommand {}"),
        ],
    );
    let report = run(&ThinAdapterRule, slices_only_config("typescript"), es);
    assert_eq!(report.warnings.len(), 0);
}

fn workflows(extra: &[(&str, &str)]) -> Vec<FsEntry> {
    let mut items: Vec<(&str, &str)> = vec![
        ("workflows/domain/", ""),
        ("workflows/events/", ""),
        ("workflows/ports/", ""),
        ("workflows/application/", ""),
        ("workflows/infrastructure/", ""),
        ("workflows/slices/slice1/", ""),
        ("workflows/slices/slice2/", ""),
    ];
    items.extend_from_slice(extra);
    entries(ROOT, &items)
}

#[test]
fn test_vsa027_domain_imports_from_ports() {
    let es = workflows(&[(
        "workflows/domain/WorkflowAggregate.py",
        "from ports.WorkflowRepositoryPort import WorkflowRepositoryPort\n",
    )]);
    let report = run(&DomainPurityRule, hexagonal_config(), es);
    assert_eq!(report.errors.len(), 1);
    assert_eq!(report.errors[0].code, "VSA027");
    assert!(report.errors[0].message.contains("Domain file"));
    assert!(report.errors[0].message.contains("forbidden layer"));
}

#[test]
fn test_vsa027_domain_imports_from_infrastructure() {
    let es = workflows(&[(
        "workflows/domain/WorkflowAggregate.py",
        "from infrastructure.PostgresWorkflowRepository import PostgresWorkflowRepository\n",
    )]);
    let report = run(&DomainPurityRule, hexagonal_config(), es);
    assert_eq!(report.errors.len(), 1);
    assert_eq!(report.errors[0].code, "VSA027");
}

#[test]
fn test_vsa027_domain_pure_allowed() {
    let es = workflows(&[(
        "workflows/domain/WorkflowAggregate.py",
        "from typing import Optional\nfrom dataclasses import dataclass\n",
    )]);
    let report = run(&DomainPurityRule, hexagonal_config(), es);
    assert_eq!(report.errors.len(), 0);
}

#[test]
fn test_vsa028_events_import_value_objects_allowed() {
    let es = workflows(&[(
        "workflows/domain/events/WorkflowCreatedEvent.py",
        "from aef_domain.contexts.workflows._shared.value_objects.WorkflowId import WorkflowId\nfrom aef_domain.contexts.workflows._shared.value_objects.WorkflowStatus import WorkflowStatus\n",
    )]);
    let report = run(&EventsIsolationRule, hexagonal_config(), es);
    assert_eq!(report.errors.len(), 0);
}

#[test]
fn test_vsa028_events_stdlib_allowed() {
    let es = workflows(&[(
        "workflows/domain/events/WorkflowCreatedEvent.py",
        "from typing import Optional\nfrom dataclasses import dataclass\nfrom datetime import datetime\n",
    )]);
    let report = run(&EventsIsolationRule, hexagonal_config(), es);
    assert_eq!(report.errors.len(), 0);
}

#[test]
fn test_vsa029_ports_import_infrastructure() {
    let es = workflows(&[(
        "workflows/ports/WorkflowRepositoryPort.py",
        "from infrastructure.PostgresWorkflowRepository import PostgresWorkflowRepository\n",
    )]);
    let report = run(&PortIsolationRule, hexagonal_config(), es);
    assert_eq!(report.errors.len(), 1);
    assert_eq!(report.errors[0].code, "VSA029");
}

#[test]
fn test_vsa029_ports_import_domain_allowed() {
    let es = workflows(&[(
        "workflows/ports/WorkflowRepositoryPort.py",
        "from domain.WorkflowAggregate import WorkflowAggregate\nfrom events.WorkflowCreatedEvent import WorkflowCreatedEvent\n",
    )]);
    let report = run(&PortIsolationRule, hexagonal_config(), es);
    assert_eq!(report.errors.len(), 0);
}

#[test]
fn test_vsa030_application_imports_infrastructure() {
    let es = workflows(&[(
        "workflows/application/WorkflowOrchestrator.py",
        "from infrastructure.PostgresWorkflowRepository import PostgresWorkflowRepository\n",
    )]);
    let report = run(&ApplicationIsolationRule, hexagonal_config(), es);
    assert_eq!(report.errors.len(), 1);
    assert_eq!(report.errors[0].code, "VSA030");
}

#[test]
fn test_vsa030_application_imports_ports_allowed() {
    let es = workflows(&[(
        "workflows/application/WorkflowOrchestrator.py",
        "from ports.WorkflowRepositoryPort import WorkflowRepositoryPort\nfrom domain.WorkflowAggregate import WorkflowAggregate\n",
    )]);
    let report = run(&ApplicationIsolationRule, hexagonal_config(), es);
    assert_eq!(report.errors.len(), 0);
}

#[test]
fn test_vsa031_slice_imports_other_slice() {
    let es = workflows(&[("workflows/slices/slice1/handler.py", "from slices.slice2.handler import Slice2Handler\n")]);
    let report = run(&SliceIsolationRule, hexagonal_config(), es);
    assert_eq!(report.errors.len(), 1);
    assert_eq!(report.errors[0].code, "VSA031");
    assert!(report.errors[0].message.contains("Cross-slice imports are forbidden"));
}

#[test]
fn test_vsa031_slice_imports_domain_allowed() {
    let es = workflows(&[(
        "workflows/slices/slice1/handler.py",
        "from domain.WorkflowAggregate import WorkflowAggregate\nfrom events.WorkflowCreatedEvent import WorkflowCreatedEvent\n",
    )]);
    let report = run(&SliceIsolationRule, hexagonal_config(), es);
    assert_eq!(report.errors.len(), 0);
}

#[test]
fn test_vsa031_test_files_skipped_in_cross_slice_check() {
    let es = workflows(&[(
        "workflows/slices/slice1/test_integration.py",
        "from slices.slice2.handler import Slice2Handler\n",
    )]);
    let report = run(&SliceIsolationRule, hexagonal_config(), es);
    assert_eq!(report.errors.len(), 0);
}

#[test]
fn test_vsa031_conftest_skipped_in_cross_slice_check() {
    let es = workflows(&[("workflows/slices/slice1/conftest.py", "from slices.slice2.handler import Slice2Handler\n")]);
    let report = run(&SliceIsolationRule, hexagonal_config(), es);
    assert_eq!(report.errors.len(), 0);
}

#[test]
fn test_vsa031_conftest_as_target_not_flagged() {
    let es = workflows(&[("workflows/slices/slice1/handler.py", "from slices.conftest import some_fixture\n")]);
    let report = run(&SliceIsolationRule, hexagonal_config(), es);
    assert_eq!(report.errors.len(), 0);
}

#[test]
fn test_vsa031_excluded_slices_not_flagged() {
    let mut config = hexagonal_config();
    config.validation.exclude_from_isolation = vec!["list_repos".to_string()];
    let es = entries(
        ROOT,
        &[
            ("org/domain/", ""),
            ("org/slices/get_repo_detail/handler.py", "from slices.list_repos.projection import RepoListProjection\n"),
            ("org/slices/list_repos/", ""),
        ],
    );
    let report = run(&SliceIsolationRule, config, es);
    assert_eq!(report.errors.len(), 0);
}

#[test]
fn test_vsa031_real_cross_slice_still_caught() {
    let mut config = hexagonal_config();
    config.validation.exclude_from_isolation = vec!["list_repos".to_string()];
    let es = entries(
        ROOT,
        &[
            ("org/domain/", ""),
            ("org/slices/slice_a/handler.py", "from slices.slice_b.handler import SliceBHandler\n"),
            ("org/slices/slice_b/", ""),
        ],
    );
    let report = run(&SliceIsolationRule, config, es);
    assert_eq!(report.errors.len(), 1);
    assert_eq!(report.errors[0].code, "VSA031");
}

#[test]
fn test_is_test_or_conftest() {
    assert!(is_test_or_conftest("test_something.py"));
    assert!(is_test_or_conftest("dir/test_integration.py"));
    assert!(is_test_or_conftest("something_test.py"));
    assert!(is_test_or_conftest("something_test.rs"));
    assert!(is_test_or_conftest("Component.test.ts"));
    assert!(is_test_or_conftest("Component.test.tsx"));
    assert!(is_test_or_conftest("Component.spec.ts"));
    assert!(is_test_or_conftest("Component.spec.tsx"));
    assert!(is_test_or_conftest("conftest.py"));
    assert!(!is_test_or_conftest("handler.py"));
    assert!(!is_test_or_conftest("projection.py"));
    assert!(!is_test_or_conftest("utils.py"));
    assert!(is_test_or_conftest("test_utils.py"));
}

#[test]
fn test_extract_slice_name_conftest() {
    let result = SliceIsolationRule::extract_slice_name("slices.conftest");
    assert_eq!(result, Some("conftest".to_string()));
}

#[test]
fn layer_import_predicates() {
    assert!(DomainPurityRule::is_forbidden_import("infrastructure.db"));
    assert!(!DomainPurityRule::is_forbidden_import("typing"));
    assert!(EventsIsolationRule::is_stdlib_import("datetime"));
    assert!(PortIsolationRule::is_allowed_import("domain.X"));
    assert!(ApplicationIsolationRule::is_forbidden_import("slices.x"));
    assert_eq!(SliceIsolationRule::extract_slice_name("domain.x"), None);
}

#[test]
fn test_to_pascal_case() {
    assert_eq!(to_pascal_case("list_workflows"), "ListWorkflows");
    assert_eq!(to_pascal_case("get-workflow-detail"), "GetWorkflowDetail");
    assert_eq!(to_pascal_case("create_order"), "CreateOrder");
    assert_eq!(to_pascal_case("simple"), "Simple");
    assert_eq!(to_pascal_case(""), "");
}

#[test]
fn test_vsa007_query_without_projection() {
    let es = entries(
        ROOT,
        &[
            ("slices/list_orders/ListOrdersQuery.ts", "export class ListOrdersQuery {}"),
            ("slices/list_orders/ListOrdersHandler.ts", "export class ListOrdersHandler {}"),
        ],
    );
    let report = run(&RequireProjectionForQueryRule, slices_only_config("typescript"), es);
    assert_eq!(report.errors.len(), 1);
    assert_eq!(report.errors[0].code, "VSA007");
    assert!(report.errors[0].message.contains("missing a projection"));
}

#[test]
fn test_vsa007_query_with_projection() {
    let es = entries(
        ROOT,
        &[
            ("slices/list_orders/ListOrdersQuery.ts", "export class ListOrdersQuery {}"),
            ("slices/list_orders/OrderListProjection.ts", "export class OrderListProjection {}"),
            ("slices/list_orders/ListOrdersHandler.ts", "export class ListOrdersHandler {}"),
        ],
    );
    let report = run(&RequireProjectionForQueryRule, slices_only_config("typescript"), es);
    assert_eq!(report.errors.len(), 0);
}

#[test]
fn test_vsa008_query_without_handler() {
    let es = entries(
        ROOT,
        &[
            ("slices/list_orders/ListOrdersQuery.ts", "export class ListOrdersQuery {}"),
            ("slices/list_orders/OrderListProjection.ts", "export class OrderListProjection {}"),
        ],
    );
    let report = run(&RequireHandlerForQueryRule, slices_only_config("typescript"), es);
    assert_eq!(report.errors.len(), 1);
    assert_eq!(report.errors[0].code, "VSA008");
    assert!(report.errors[0].message.contains("missing a handler"));
}

#[test]
fn test_vsa009_projection_without_events() {
    let es = entries(ROOT, &[("EmptyProjection.ts", "\nexport class EmptyProjection {\n    // No event handlers\n}\n")]);
    let report = run(&ProjectionEventSubscriptionRule, slices_only_config("typescript"), es);
    assert_eq!(report.warnings.len(), 1);
    assert_eq!(report.warnings[0].code, "VSA009");
    assert!(report.warnings[0].message.contains("no event subscriptions"));
}

#[test]
fn test_vsa009_projection_with_events() {
    let es = entries(
        ROOT,
        &[(
            "WorkflowListProjection.ts",
            "\nexport class WorkflowListProjection {\n    @Handles(WorkflowCreatedEvent)\n    onWorkflowCreated(event: WorkflowCreatedEvent) {}\n}\n",
        )],
    );
    let report = run(&ProjectionEventSubscriptionRule, slices_only_config("typescript"), es);
    assert_eq!(report.warnings.len(), 0);
}

#[test]
fn test_command_slice_not_affected() {
    let es = entries(
        ROOT,
        &[
            ("slices/create_order/CreateOrderCommand.ts", "export class CreateOrderCommand {}"),
            ("slices/create_order/CreateOrderHandler.ts", "export class CreateOrderHandler {}"),
        ],
    );
    let report = run(&RequireProjectionForQueryRule, slices_only_config("typescript"), es);
    assert_eq!(report.errors.len(), 0);
}

#[test]
fn test_rule_metadata() {
    let rule = RequireSliceLocationRule;
    assert_eq!(rule.name(), "require-slice-location");
    assert_eq!(rule.code(), "VSA015");
}

#[test]
fn test_vsa015_slice_at_root_level() {
    let es = entries(
        ROOT,
        &[
            ("orders/create_order/CreateOrderCommand.ts", "export class CreateOrderCommand {}"),
            ("orders/create_order/CreateOrderHandler.ts", "export class CreateOrderHandler {}"),
            ("orders/create_order/OrderCreatedEvent.ts", "export class OrderCreatedEvent {}"),
        ],
    );
    let report = run(&RequireSliceLocationRule, slices_only_config("typescript"), es);
    assert_eq!(report.errors.len(), 1, "Expected 1 error, got: {:?}", report.errors);
    assert_eq!(report.errors[0].code, "VSA015");
    assert!(report.errors[0].message.contains("create_order"));
    assert!(report.errors[0].message.contains("slices/"));
    match &report.errors[0].suggestions[0].action {
        SuggestionAction::Manual { instructions } => {
            assert!(instructions.contains("git mv"), "Expected 'git mv' in instructions, got: {instructions}");
        }
        _ => panic!("Expected Manual suggestion action"),
    }
}

#[test]
fn test_vsa015_slice_in_slices_directory() {
    let es = entries(
        ROOT,
        &[
            ("orders/slices/create_order/CreateOrderCommand.ts", "export class CreateOrderCommand {}"),
            ("orders/slices/create_order/CreateOrderHandler.ts", "export class CreateOrderHandler {}"),
        ],
    );
    let report = run(&RequireSliceLocationRule, slices_only_config("typescript"), es);
    assert_eq!(report.errors.len(), 0, "{:?}", report.errors);
}

#[test]
fn test_vsa015_reserved_directories_ignored() {
    let mut items: Vec<(String, &str)> = vec![];
    for d in ["_shared", "domain", "ports", "tests", "fixtures", "__pycache__"] {
        items.push((format!("orders/{}/SomeCommand.ts", d), "export class SomeCommand {}"));
        items.push((format!("orders/{}/SomeHandler.ts", d), "export class SomeHandler {}"));
    }
    let refs: Vec<(&str, &str)> = items.iter().map(|(a, b)| (a.as_str(), *b)).collect();
    let report = run(&RequireSliceLocationRule, slices_only_config("typescript"), entries(ROOT, &refs));
    assert_eq!(report.errors.len(), 0, "{:?}", report.errors);
}

#[test]
fn test_validate_empty_structure() {
    let config = base_config(1, ArchitectureType::default(), "typescript");
    let validator = Validator::new(config, ROOT.to_string());
    let report = validator.validate(&ProjectTree::new(entries(ROOT, &[]))).unwrap();
    assert!(report.is_valid());
}
