use vsa_core::config::{
    ArchitectureType, DomainConfig, PatternsConfig, SliceType, SlicesConfig, ValidationConfig,
    VsaConfig,
};
use vsa_core::manifest::Manifest;
use vsa_core::scanner::Scanner;
use vsa_core::tree::{FsEntry, ProjectTree};
use vsa_core::validation::bounded_context_rules::NoCircularDependenciesRule;
use vsa_core::validation::rules::ValidationRuleSet;
use vsa_core::validation::slice_location_rules::RequireSliceLocationRule;
use vsa_core::validation::structure_rules::{
    RequireAggregateFolderConventionRule, RequireAggregatesInDomainRootRule,
    RequireBusesInInfrastructureRule, RequireCommandsInDomainRule, RequireEventsInDomainRule,
    RequirePortSuffixRule, RequirePortsInPortsFolderRule, RequireValueObjectsNamingRule,
};
use vsa_core::error::VsaError;
use vsa_core::validation::consumer_pattern_rules::{ProcessManagerStructureRule, ProjectionPurityRule};
use vsa_core::validation::cross_context_rules::CrossContextPublicApiRule;
use vsa_core::validation::dependency_rules::SliceIsolationRule;
use vsa_core::validation::{
    EnhancedValidationReport, Severity, ValidationContext, ValidationIssue, ValidationRule,
};

const ROOT: &str = "/tmp/project";

fn entries(root: &str, items: &[(&str, &str)]) -> Vec<FsEntry> {
    let mut es = vec![FsEntry { path: root.to_string(), is_dir: true, content: None }];
    for (rel, content) in items {
        let is_dir = rel.ends_with('/');
        let rel = rel.trim_end_matches('/');
        let parts: Vec<&str> = rel.split('/').collect();
        let mut cur = root.to_string();
        for (i, p) in parts.iter().enumerate() {
            cur = format!("{}/{}", cur, p);
            let last = i + 1 == parts.len();
            if !es.iter().any(|e| e.path == cur) {
                if last && !is_dir {
                    es.push(FsEntry { path: cur.clone(), is_dir: false, content: Some(content.to_string()) });
                } else {
                    es.push(FsEntry { path: cur.clone(), is_dir: true, content: None });
                }
            }
        }
    }
    es
}

fn config(version: u32, arch: ArchitectureType, language: &str) -> VsaConfig {
    VsaConfig {
        version,
        architecture: arch,
        root: ROOT.to_string(),
        language: language.to_string(),
        domain: None,
        slices: None,
        infrastructure: None,
        framework: None,
        contexts: vec![],
        validation: ValidationConfig::default(),
        patterns: PatternsConfig::default(),
        projection_allowed_prefixes: None,
        cross_context_scan_paths: vec![],
        exceptions: vec![],
    }
}

fn hex(language: &str) -> VsaConfig {
    config(2, ArchitectureType::HexagonalEventSourcedVsa, language)
}

fn run_on(rule: &dyn ValidationRule, c: VsaConfig, es: Vec<FsEntry>, report: &mut EnhancedValidationReport) {
    let ctx = ValidationContext::new(c, ROOT.to_string(), ProjectTree::new(es));
    rule.validate(&ctx, report).unwrap();
}

fn run(rule: &dyn ValidationRule, c: VsaConfig, es: Vec<FsEntry>) -> EnhancedValidationReport {
    let mut report = EnhancedValidationReport::default();
    run_on(rule, c, es, &mut report);
    report
}

#[test]
fn test_vsa020_command_in_slice() {
    let es = entries(ROOT, &[("workflows/slices/create_workflow/CreateWorkflowCommand.py", "class CreateWorkflowCommand: pass")]);
    let report = run(&RequireCommandsInDomainRule, hex("python"), es);
    assert_eq!(report.errors.len(), 1);
    assert_eq!(report.errors[0].code, "VSA020");
    assert!(report.errors[0].message.contains("domain/commands/"));
}

#[test]
fn test_vsa021_events_in_domain_events_correct() {
    let es = entries(
        ROOT,
        &[
            ("workflows/vsa.yaml", "events_path: \"domain/events\"\n"),
            ("workflows/domain/events/WorkflowCreatedEvent.py", "class WorkflowCreatedEvent: pass"),
        ],
    );
    let report = run(&RequireEventsInDomainRule, hex("python"), es);
    assert_eq!(report.errors.len(), 0, "{:?}", report.errors);
}

#[test]
fn test_vsa022_aggregate_in_shared() {
    let es = entries(ROOT, &[("workflows/_shared/WorkflowAggregate.py", "class WorkflowAggregate: pass")]);
    let report = run(&RequireAggregatesInDomainRootRule, hex("python"), es);
    assert_eq!(report.errors.len(), 1);
    assert_eq!(report.errors[0].code, "VSA022");
    assert!(report.errors[0].message.contains("domain/aggregate_*/"));
}

#[test]
fn test_vsa025_port_without_suffix() {
    let es = entries(ROOT, &[("workflows/ports/WorkflowRepository.py", "class WorkflowRepository: pass")]);
    let report = run(&RequirePortSuffixRule, hex("python"), es);
    assert_eq!(report.errors.len(), 1);
    assert_eq!(report.errors[0].code, "VSA025");
    assert!(report.errors[0].message.contains("Port"));
}

#[test]
fn test_vsa023_port_outside_ports_folder() {
    let es = entries(ROOT, &[("workflows/domain/WorkflowRepositoryPort.py", "class WorkflowRepositoryPort: pass")]);
    let report = run(&RequirePortsInPortsFolderRule, hex("python"), es);
    assert_eq!(report.errors.len(), 1);
    assert_eq!(report.errors[0].code, "VSA023");
    assert!(report.errors[0].message.contains("ports/ folder"));
}

#[test]
fn test_vsa024_bus_in_application() {
    let es = entries(ROOT, &[("workflows/application/CommandBus.py", "class CommandBus: pass")]);
    let report = run(&RequireBusesInInfrastructureRule, hex("python"), es);
    assert_eq!(report.errors.len(), 1);
    assert_eq!(report.errors[0].code, "VSA024");
    assert!(report.errors[0].message.contains("infrastructure/buses/"));
}

#[test]
fn test_vsa026_value_objects_naming() {
    let es = entries(ROOT, &[("workflows/domain/WorkflowValues.py", "class WorkflowId: pass")]);
    let report = run(&RequireValueObjectsNamingRule, hex("python"), es);
    assert_eq!(report.warnings.len(), 1);
    assert_eq!(report.warnings[0].code, "VSA026");
    assert!(report.warnings[0].message.contains("ValueObjects"));
}

fn valid_entries() -> Vec<FsEntry> {
    entries(
        ROOT,
        &[
            ("workflows/domain/commands/CreateWorkflowCommand.py", "class CreateWorkflowCommand: pass"),
            ("workflows/domain/events/WorkflowCreatedEvent.py", "class WorkflowCreatedEvent: pass"),
            ("workflows/domain/aggregate_workflow/WorkflowAggregate.py", "class WorkflowAggregate: pass"),
            ("workflows/ports/WorkflowRepositoryPort.py", "class WorkflowRepositoryPort: pass"),
            ("workflows/infrastructure/buses/InMemoryCommandBus.py", "class InMemoryCommandBus: pass"),
        ],
    )
}

#[test]
fn test_valid_structure() {
    let mut report = EnhancedValidationReport::default();
    let rules: Vec<&dyn ValidationRule> = vec![
        &RequireCommandsInDomainRule,
        &RequireEventsInDomainRule,
        &RequireAggregatesInDomainRootRule,
        &RequirePortsInPortsFolderRule,
        &RequirePortSuffixRule,
        &RequireBusesInInfrastructureRule,
        &RequireValueObjectsNamingRule,
    ];
    for rule in rules {
        run_on(rule, hex("python"), valid_entries(), &mut report);
    }
    assert_eq!(report.errors.len(), 0, "{:?}", report.errors);
    assert_eq!(report.warnings.len(), 0, "{:?}", report.warnings);
}

#[test]
fn test_vsa027_aggregate_not_in_folder_deferred_to_vsa022() {
    let es = entries(ROOT, &[("workflows/domain/WorkflowAggregate.py", "class WorkflowAggregate: pass")]);
    let report = run(&RequireAggregateFolderConventionRule, hex("python"), es);
    assert_eq!(report.warnings.len(), 0);
    assert_eq!(report.errors.len(), 0);
}

#[test]
fn test_vsa027_multiple_aggregates_in_folder() {
    let es = entries(
        ROOT,
        &[
            ("workflows/domain/aggregate_workspace/WorkspaceAggregate.py", "class WorkspaceAggregate: pass"),
            ("workflows/domain/aggregate_workspace/OtherAggregate.py", "class OtherAggregate: pass"),
        ],
    );
    let report = run(&RequireAggregateFolderConventionRule, hex("python"), es);
    assert_eq!(report.errors.len(), 1);
    assert_eq!(report.errors[0].code, "VSA027");
    assert!(report.errors[0].message.contains("2 aggregate files"));
}

#[test]
fn test_vsa027_valid_aggregate_folder() {
    let es = entries(
        ROOT,
        &[
            ("workflows/domain/aggregate_workspace/WorkspaceAggregate.py", "class WorkspaceAggregate: pass"),
            ("workflows/domain/aggregate_workspace/IsolationHandle.py", "class IsolationHandle: pass"),
            ("workflows/domain/aggregate_workspace/SecurityPolicy.py", "class SecurityPolicy: pass"),
        ],
    );
    let report = run(&RequireAggregateFolderConventionRule, hex("python"), es);
    assert_eq!(report.errors.len(), 0);
    assert_eq!(report.warnings.len(), 0);
}

#[test]
fn test_vsa027_empty_aggregate_folder() {
    let es = entries(ROOT, &[("workflows/domain/aggregate_workspace/IsolationHandle.py", "class IsolationHandle: pass")]);
    let report = run(&RequireAggregateFolderConventionRule, hex("python"), es);
    assert_eq!(report.warnings.len(), 1);
    assert_eq!(report.warnings[0].code, "VSA027");
    assert!(report.warnings[0].message.contains("no *Aggregate file"));
}

fn slices_config(language: &str) -> VsaConfig {
    let mut c = hex(language);
    c.slices = Some(SlicesConfig {
        path: "slices".to_string(),
        types: vec![SliceType::Command, SliceType::Query, SliceType::Saga],
        metadata_file: "slice.yaml".to_string(),
        command: None,
        query: None,
        saga: None,
    });
    c
}

#[test]
fn test_vsa015_non_slice_directory_ignored() {
    let es = entries(
        ROOT,
        &[
            ("orders/utils/helpers.ts", "export function helper() {}"),
            ("orders/utils/constants.ts", "export const MAX = 100;"),
            ("orders/config/settings.ts", "export const settings = {};"),
        ],
    );
    let report = run(&RequireSliceLocationRule, slices_config("typescript"), es);
    assert_eq!(report.errors.len(), 0);
}

#[test]
fn test_vsa015_multiple_file_extensions() {
    for (lang, ctx, file, text) in [
        ("typescript", "typescript_ctx", "CreateItemCommand.ts", "export class CreateItemCommand {}"),
        ("python", "python_ctx", "CreateItemCommand.py", "class CreateItemCommand: pass"),
        ("rust", "rust_ctx", "CreateItemCommand.rs", "pub struct CreateItemCommand {}"),
    ] {
        let path = format!("{}/create_item/{}", ctx, file);
        let es = entries(ROOT, &[(path.as_str(), text)]);
        let report = run(&RequireSliceLocationRule, slices_config(lang), es);
        assert_eq!(report.errors.len(), 1);
        assert_eq!(report.errors[0].code, "VSA015");
    }
}

fn scanner_config() -> VsaConfig {
    config(1, ArchitectureType::default(), "typescript")
}

#[test]
fn test_scan_contexts() {
    let es = entries(ROOT, &[("warehouse/", ""), ("sales/", ""), ("_shared/", "")]);
    let scanner = Scanner::new(scanner_config(), ROOT.to_string());
    let contexts = scanner.scan_contexts(&ProjectTree::new(es)).unwrap();
    assert_eq!(contexts.len(), 2);
    assert!(contexts.iter().any(|c| c.name == "warehouse"));
    assert!(contexts.iter().any(|c| c.name == "sales"));
    assert!(!contexts.iter().any(|c| c.name == "_shared"));
}

#[test]
fn test_scan_features_excludes_domain_directory() {
    let es = entries(
        ROOT,
        &[
            ("domain/commands/", ""),
            ("domain/events/", ""),
            ("domain/aggregate_order/", ""),
            ("slices/place_order/", ""),
            ("slices/list_orders/", ""),
            ("_shared/", ""),
        ],
    );
    let mut c = scanner_config();
    c.domain = Some(DomainConfig::default());
    let scanner = Scanner::new(c, ROOT.to_string());
    let features = scanner.scan_features(&ProjectTree::new(es), ROOT).unwrap();
    let names: Vec<&str> = features.iter().map(|f| f.name.as_str()).collect();
    assert!(!names.contains(&"domain"));
    assert!(!names.contains(&"commands"));
    assert!(!names.contains(&"events"));
    assert!(!names.contains(&"aggregate_order"));
    assert!(names.contains(&"slices"));
    assert!(names.contains(&"place_order"));
    assert!(names.contains(&"list_orders"));
    assert!(!names.contains(&"_shared"));
}

#[test]
fn test_scan_features_without_domain_config_includes_all() {
    let es = entries(ROOT, &[("domain/commands/", ""), ("slices/place_order/", "")]);
    let c = scanner_config();
    assert!(c.domain.is_none());
    let scanner = Scanner::new(c, ROOT.to_string());
    let features = scanner.scan_features(&ProjectTree::new(es), ROOT).unwrap();
    let names: Vec<&str> = features.iter().map(|f| f.name.as_str()).collect();
    assert!(names.contains(&"domain"));
    assert!(names.contains(&"commands"));
}

fn two_publishing_contexts() -> Vec<FsEntry> {
    entries(
        ROOT,
        &[
            ("sales/_shared/integration-events/OrderPlacedIntegrationEvent.ts", "export class OrderPlacedIntegrationEvent {}"),
            ("warehouse/_shared/integration-events/StockReservedIntegrationEvent.ts", "export class StockReservedIntegrationEvent {}"),
        ],
    )
}

#[test]
fn circular_dependencies_are_reported_once_per_context() {
    let report = run(&NoCircularDependenciesRule, scanner_config(), two_publishing_contexts());
    assert_eq!(report.errors.len(), 2);
    assert_eq!(report.errors[0].message, "Circular dependency detected: sales -> warehouse -> sales");
    assert_eq!(report.errors[1].message, "Circular dependency detected: warehouse -> sales -> warehouse");
}

#[test]
fn one_publisher_makes_no_cycle() {
    let es = entries(
        ROOT,
        &[
            ("sales/_shared/integration-events/OrderPlacedIntegrationEvent.ts", "x"),
            ("warehouse/domain/", ""),
        ],
    );
    let report = run(&NoCircularDependenciesRule, scanner_config(), es);
    assert_eq!(report.errors.len(), 0);
}

#[test]
fn default_rule_set_runs_every_builtin_rule() {
    let rules = ValidationRuleSet::default_rules();
    let ctx = ValidationContext::new(scanner_config(), ROOT.to_string(), ProjectTree::new(two_publishing_contexts()));
    let mut report = EnhancedValidationReport::default();
    rules.validate_all(&ctx, &mut report).unwrap();
    assert_eq!(report.errors.iter().filter(|e| e.code == "VSA200").count(), 2);
    assert!(!report.is_valid());
}

#[test]
fn manifest_lists_contexts_and_their_domain() {
    let mut c = hex("typescript");
    c.domain = Some(DomainConfig::default());
    let es = entries(
        ROOT,
        &[
            ("orders/domain/aggregate_order/OrderAggregate.ts", "class OrderAggregate {}"),
            ("orders/slices/place_order/PlaceOrderCommand.ts", "export class PlaceOrderCommand {}"),
            ("orders/infrastructure/", ""),
        ],
    );
    let tree = ProjectTree::new(es);
    let m = Manifest::generate_at(&c, &tree, ROOT, true, "2025-11-05T00:00:00Z".to_string()).unwrap();
    assert_eq!(m.generated_at, "2025-11-05T00:00:00Z");
    assert_eq!(m.bounded_contexts.len(), 1);
    let ctx = &m.bounded_contexts[0];
    assert_eq!(ctx.name, "orders");
    assert_eq!(ctx.aggregate_count, 1);
    assert_eq!(ctx.infrastructure_folders, vec!["infrastructure".to_string()]);
    let domain = m.domain.unwrap();
    assert_eq!(domain.aggregates.len(), 1);
    assert_eq!(domain.aggregates[0].context, Some("orders".to_string()));
    let without = Manifest::generate_at(&c, &tree, ROOT, false, String::new()).unwrap();
    assert!(without.domain.is_none());
}

#[test]
fn rules_that_need_the_extension_refuse_an_unknown_language() {
    let es = entries(ROOT, &[("orders/slices/place/PlaceOrderCommand.ts", "x")]);
    let ctx = ValidationContext::new(hex("java"), ROOT.to_string(), ProjectTree::new(es));
    let mut report = EnhancedValidationReport::default();
    let r = RequireCommandsInDomainRule.validate(&ctx, &mut report);
    assert_eq!(r, Err(VsaError::UnsupportedLanguage("java".to_string())));
    assert!(report.errors.is_empty() && report.warnings.is_empty());
}

#[test]
fn language_free_rules_run_on_any_language() {
    let es = entries(ROOT, &[("orders/domain/", ""), ("orders/slices/place/handler.py", "x")]);
    let ctx = ValidationContext::new(hex("java"), ROOT.to_string(), ProjectTree::new(es));
    let mut report = EnhancedValidationReport::default();
    assert!(CrossContextPublicApiRule.validate(&ctx, &mut report).is_ok());
    assert!(SliceIsolationRule.validate(&ctx, &mut report).is_ok());
    assert!(ProjectionPurityRule.validate(&ctx, &mut report).is_ok());
    assert!(ProcessManagerStructureRule.validate(&ctx, &mut report).is_ok());
}

#[test]
fn default_rule_set_refuses_an_unknown_language() {
    let rules = ValidationRuleSet::default_rules();
    let ctx = ValidationContext::new(config(1, ArchitectureType::default(), "java"), ROOT.to_string(), ProjectTree::new(two_publishing_contexts()));
    let mut report = EnhancedValidationReport::default();
    assert_eq!(rules.validate_all(&ctx, &mut report), Err(VsaError::UnsupportedLanguage("java".to_string())));
    assert!(report.errors.is_empty() && report.warnings.is_empty());
}

struct Marker(&'static str, bool);

impl ValidationRule for Marker {
    fn name(&self) -> &str {
        "marker"
    }

    fn code(&self) -> &str {
        self.0
    }

    fn validate(&self, _ctx: &ValidationContext, report: &mut EnhancedValidationReport) -> Result<(), VsaError> {
        report.warnings.push(ValidationIssue {
            path: String::new(),
            message: self.0.to_string(),
            code: self.0.to_string(),
            severity: Severity::Warning,
            suggestions: vec![],
        });
        if self.1 {
            Ok(())
        } else {
            Err(VsaError::ValidationError(self.0.to_string()))
        }
    }
}

#[test]
fn added_rules_run_in_order_and_stop_at_the_first_error() {
    let mut rules = ValidationRuleSet::new();
    rules.add_rule(Box::new(Marker("A", true)));
    rules.add_rule(Box::new(Marker("B", false)));
    rules.add_rule(Box::new(Marker("C", true)));
    let ctx = ValidationContext::new(hex("java"), ROOT.to_string(), ProjectTree::new(entries(ROOT, &[])));
    let mut report = EnhancedValidationReport::default();
    assert_eq!(rules.validate_all(&ctx, &mut report), Err(VsaError::ValidationError("B".to_string())));
    let codes: Vec<&str> = report.warnings.iter().map(|w| w.code.as_str()).collect();
    assert_eq!(codes, vec!["A", "B"]);
    let empty = ValidationRuleSet::new();
    let mut r2 = EnhancedValidationReport::default();
    assert_eq!(empty.validate_all(&ctx, &mut r2), Ok(()));
    assert!(r2.warnings.is_empty());
}

#[test]
fn generated_manifest_carries_a_utc_timestamp() {
    let tree = ProjectTree::new(entries(ROOT, &[("orders/domain/", "")]));
    let m = Manifest::generate(&hex("typescript"), &tree, ROOT).unwrap();
    assert!(m.generated_at.ends_with("+00:00"));
    assert_eq!(m.bounded_contexts.len(), 1);
}
