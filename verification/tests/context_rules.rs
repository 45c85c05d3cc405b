use vsa_core::config::{
    ArchitectureType, ExceptionBudget, PatternsConfig, ValidationConfig, VsaConfig,
};
use vsa_core::tree::{FsEntry, ProjectTree};
use vsa_core::validation::bounded_context_rules::NoCircularDependenciesRule;
use vsa_core::validation::consumer_pattern_rules::{
    default_projection_allowed_prefixes, is_allowed_import, ProcessManagerStructureRule,
    ProjectionPurityRule,
};
use vsa_core::validation::cross_context_rules::{
    is_deep_cross_context_import, ContextPublicApiExistsRule, CrossContextPublicApiRule,
};
use vsa_core::validation::integration_event_rules::NoDuplicateIntegrationEventsRule;
use vsa_core::validation::{EnhancedValidationReport, ValidationContext, ValidationRule};

const ROOT: &str = "/tmp/project";

fn entries(root: &str, items: &[(&str, &str)]) -> Vec<FsEntry> {
    let mut es = vec![FsEntry { path: root.to_string(), is_dir: true, content: None }];
    for (rel, content) in items {
        let is_dir = rel.ends_with('/');
        let rel = rel.trim_end_matches('/');
        let parts: Vec<&str> = rel.split('/').collect();
        let mut cur = root.to_string();
        for (i, p) in parts.iter().enumerate() {
            cur = format!("{}/{}", cur, p);
            let last = i + 1 == parts.len();
            if !es.iter().any(|e| e.path == cur) {
                if last && !is_dir {
                    es.push(FsEntry { path: cur.clone(), is_dir: false, content: Some(content.to_string()) });
                } else {
                    es.push(FsEntry { path: cur.clone(), is_dir: true, content: None });
                }
            }
        }
    }
    es
}

fn config(root: &str, language: &str) -> VsaConfig {
    VsaConfig {
        version: 1,
        architecture: ArchitectureType::default(),
        root: root.to_string(),
        language: language.to_string(),
        domain: None,
        slices: None,
        infrastructure: None,
        framework: None,
        contexts: vec![],
        validation: ValidationConfig::default(),
        patterns: PatternsConfig::default(),
        projection_allowed_prefixes: None,
        cross_context_scan_paths: vec![],
        exceptions: vec![],
    }
}

fn two_contexts(extra: &[(&str, &str)]) -> Vec<FsEntry> {
    let mut items: Vec<(&str, &str)> = vec![
        ("github/domain/", ""),
        ("github/slices/", ""),
        ("github/ports/", ""),
        ("orchestration/domain/", ""),
        ("orchestration/slices/", ""),
        ("orchestration/ports/", ""),
    ];
    items.extend_from_slice(extra);
    entries(ROOT, &items)
}

fn run(rule: &dyn ValidationRule, config: VsaConfig, root: &str, es: Vec<FsEntry>) -> EnhancedValidationReport {
    let ctx = ValidationContext::new(config, root.to_string(), ProjectTree::new(es));
    let mut report = EnhancedValidationReport::default();
    rule.validate(&ctx, &mut report).unwrap();
    report
}

#[test]
fn test_vsa205_missing_init_py() {
    let report = run(&ContextPublicApiExistsRule, config(ROOT, "python"), ROOT, two_contexts(&[]));
    assert_eq!(report.errors.len(), 2);
    assert!(report.errors.iter().all(|e| e.code == "VSA205"));
}

#[test]
fn test_vsa205_empty_init_py() {
    let es = two_contexts(&[("github/__init__.py", ""), ("orchestration/__init__.py", "# just a comment\n")]);
    let report = run(&ContextPublicApiExistsRule, config(ROOT, "python"), ROOT, es);
    assert_eq!(report.errors.len(), 2);
    assert!(report.errors.iter().all(|e| e.message.contains("no exports")));
}

#[test]
fn test_vsa205_valid_init_with_from_import() {
    let es = two_contexts(&[
        ("github/__init__.py", "from .domain import InstallationAggregate\n"),
        ("orchestration/__init__.py", "__all__ = ['WorkspaceService']\n"),
    ]);
    let report = run(&ContextPublicApiExistsRule, config(ROOT, "python"), ROOT, es);
    assert_eq!(report.errors.len(), 0);
}

const DEEP: &str = "from contexts.github.domain.InstallationAggregate import InstallationAggregate\n";

#[test]
fn test_vsa204_deep_import_detected() {
    let es = two_contexts(&[("orchestration/service.py", DEEP)]);
    let report = run(&CrossContextPublicApiRule, config(ROOT, "python"), ROOT, es);
    assert_eq!(report.errors.len(), 1);
    assert!(report.errors[0].code == "VSA204");
}

#[test]
fn test_vsa204_public_api_import_allowed() {
    let es = two_contexts(&[("orchestration/service.py", "from contexts.github import InstallationAggregate\n")]);
    let report = run(&CrossContextPublicApiRule, config(ROOT, "python"), ROOT, es);
    assert_eq!(report.errors.len(), 0);
}

#[test]
fn test_vsa204_ports_import_allowed() {
    let es = two_contexts(&[("orchestration/service.py", "from contexts.github.ports import GitHubPort\n")]);
    let report = run(&CrossContextPublicApiRule, config(ROOT, "python"), ROOT, es);
    assert_eq!(report.errors.len(), 0);
}

#[test]
fn test_vsa204_test_files_exempt() {
    let es = two_contexts(&[("orchestration/test_service.py", DEEP)]);
    let report = run(&CrossContextPublicApiRule, config(ROOT, "python"), ROOT, es);
    assert_eq!(report.errors.len(), 0);
}

#[test]
fn test_vsa204_shared_dir_exempt() {
    let es = two_contexts(&[("orchestration/_shared/helpers.py", DEEP)]);
    let report = run(&CrossContextPublicApiRule, config(ROOT, "python"), ROOT, es);
    assert_eq!(report.errors.len(), 0);
}

#[test]
fn test_vsa204_init_py_exempt() {
    let es = two_contexts(&[("orchestration/__init__.py", DEEP)]);
    let report = run(&CrossContextPublicApiRule, config(ROOT, "python"), ROOT, es);
    assert_eq!(report.errors.len(), 0);
}

#[test]
fn test_vsa204_exception_budget_respected() {
    let es = two_contexts(&[(
        "orchestration/service.py",
        "from contexts.github.domain.InstallationAggregate import InstallationAggregate\nfrom contexts.github.slices.foo import bar\n",
    )]);
    let mut c = config(ROOT, "python");
    c.exceptions = vec![ExceptionBudget {
        file: "orchestration/service.py".to_string(),
        rule: "VSA204".to_string(),
        budget: 2,
        issue: Some("#123".to_string()),
    }];
    let report = run(&CrossContextPublicApiRule, c, ROOT, es);
    assert_eq!(report.errors.len(), 0);
}

#[test]
fn test_vsa204_exception_budget_partial() {
    let es = two_contexts(&[(
        "orchestration/service.py",
        "from contexts.github.domain.Agg import Agg\nfrom contexts.github.slices.foo import bar\nfrom contexts.github.domain.Other import Other\n",
    )]);
    let mut c = config(ROOT, "python");
    c.exceptions = vec![ExceptionBudget {
        file: "orchestration/service.py".to_string(),
        rule: "VSA204".to_string(),
        budget: 1,
        issue: None,
    }];
    let report = run(&CrossContextPublicApiRule, c, ROOT, es);
    assert_eq!(report.errors.len(), 1);
    assert!(report.errors[0].message.contains("2 cross-context"));
}

#[test]
fn test_vsa204_projection_heuristic_exemption() {
    let es = two_contexts(&[(
        "orchestration/service.py",
        "from contexts.github.slices.some_projection.internal.GitHubProjection import GitHubProjection\n",
    )]);
    let report = run(&CrossContextPublicApiRule, config(ROOT, "python"), ROOT, es);
    assert_eq!(report.errors.len(), 0);
}

#[test]
fn test_vsa204_cross_context_scan_paths() {
    let contexts_root = format!("{}/contexts", ROOT);
    let es = entries(
        ROOT,
        &[
            ("contexts/github/domain/", ""),
            ("contexts/orchestration/domain/", ""),
            ("apps/api/handler.py", "from contexts.github.domain.Agg import Agg\n"),
        ],
    );
    let mut c = config(&contexts_root, "python");
    c.cross_context_scan_paths = vec![format!("{}/apps/api", ROOT)];
    let report = run(&CrossContextPublicApiRule, c, &contexts_root, es);
    assert_eq!(report.errors.len(), 1);
    assert!(report.errors[0].code == "VSA204");
}

fn names(v: &[&str]) -> Vec<String> {
    v.iter().map(|s| s.to_string()).collect()
}

#[test]
fn test_is_deep_cross_context_import_deep() {
    assert!(is_deep_cross_context_import(
        "contexts.github.domain.Agg",
        "from contexts.github.domain.Agg import Agg",
        Some("orchestration"),
        &names(&["github", "orchestration"]),
    ));
}

#[test]
fn test_is_deep_cross_context_import_root_allowed() {
    assert!(!is_deep_cross_context_import(
        "contexts.github",
        "from contexts.github import Agg",
        Some("orchestration"),
        &names(&["github"]),
    ));
}

#[test]
fn test_is_deep_cross_context_import_ports_allowed() {
    assert!(!is_deep_cross_context_import(
        "contexts.github.ports",
        "from contexts.github.ports import GitHubPort",
        Some("orchestration"),
        &names(&["github"]),
    ));
}

#[test]
fn test_is_deep_cross_context_import_own_context_ignored() {
    assert!(!is_deep_cross_context_import(
        "contexts.github.domain.Agg",
        "from contexts.github.domain.Agg import Agg",
        Some("github"),
        &names(&["github"]),
    ));
}

#[test]
fn test_is_deep_cross_context_import_projection_exempt() {
    assert!(!is_deep_cross_context_import(
        "contexts.github.slices.some_proj.internal.GitHubProjection",
        "from contexts.github.slices.some_proj.internal.GitHubProjection import GitHubProjection",
        Some("orchestration"),
        &names(&["github"]),
    ));
}

#[test]
fn test_no_circular_dependencies_rule() {
    let rule = NoCircularDependenciesRule;
    assert_eq!(rule.name(), "no-circular-dependencies");
    assert_eq!(rule.code(), "VSA200");
}

fn graph(edges: &[(&str, &[&str])]) -> Vec<(String, Vec<String>)> {
    edges.iter().map(|(a, bs)| (a.to_string(), names(bs))).collect()
}

#[test]
fn test_find_cycle_simple() {
    let rule = NoCircularDependenciesRule;
    let dependencies = graph(&[("A", &["B"]), ("B", &["A"])]);
    let cycle = rule.find_cycle("A", &dependencies);
    assert!(cycle.is_some());
    assert_eq!(cycle.unwrap(), names(&["A", "B", "A"]));
}

#[test]
fn test_find_cycle_none() {
    let rule = NoCircularDependenciesRule;
    let dependencies = graph(&[("A", &["B"]), ("B", &[])]);
    assert!(rule.find_cycle("A", &dependencies).is_none());
}

#[test]
fn find_cycle_follows_longer_cycles_and_ignores_unreachable_ones() {
    let rule = NoCircularDependenciesRule;
    let g = graph(&[("A", &["B"]), ("B", &["C"]), ("C", &["A"]), ("D", &["D"])]);
    assert_eq!(rule.find_cycle("A", &g).unwrap(), names(&["A", "B", "C", "A"]));
    let g = graph(&[("A", &["B"]), ("B", &["C"]), ("C", &["B"])]);
    assert!(rule.find_cycle("A", &g).is_none());
}

#[test]
fn test_is_allowed_import() {
    let allowed = default_projection_allowed_prefixes();
    assert!(is_allowed_import("typing", &allowed));
    assert!(is_allowed_import("typing.Optional", &allowed));
    assert!(is_allowed_import("logging", &allowed));
    assert!(is_allowed_import("event_sourcing", &allowed));
    assert!(is_allowed_import("event_sourcing.core.checkpoint", &allowed));
    assert!(is_allowed_import("datetime", &allowed));
    assert!(is_allowed_import("uuid", &allowed));
    assert!(is_allowed_import(".relative_import", &allowed));
    assert!(!is_allowed_import("httpx", &allowed));
    assert!(!is_allowed_import("requests", &allowed));
    assert!(!is_allowed_import("docker", &allowed));
    assert!(!is_allowed_import("boto3", &allowed));
    assert!(!is_allowed_import("subprocess", &allowed));
    assert!(!is_allowed_import("aiohttp", &allowed));
    assert!(!is_allowed_import("typingx", &allowed));
}

#[test]
fn test_is_projection_file() {
    assert!(ProjectionPurityRule::is_projection_file("slices/orders/projection.py"));
    assert!(ProjectionPurityRule::is_projection_file("slices/orders/OrderSummaryProjection.py"));
    assert!(ProjectionPurityRule::is_projection_file("slices/orders/order_projection.py"));
    assert!(ProjectionPurityRule::is_projection_file("slices/orders/projection/handler.py"));
    assert!(!ProjectionPurityRule::is_projection_file("slices/orders/handler.py"));
    assert!(!ProjectionPurityRule::is_projection_file("slices/orders/aggregate.py"));
}

#[test]
fn test_is_process_manager_file() {
    assert!(ProcessManagerStructureRule::is_process_manager_file(
        "class WorkflowDispatchManager(ProcessManager):"
    ));
    assert!(ProcessManagerStructureRule::is_process_manager_file(
        "class MyManager(ProcessManager, SomeMixin):"
    ));
    assert!(!ProcessManagerStructureRule::is_process_manager_file(
        "class OrderProjection(CheckpointedProjection):"
    ));
    assert!(!ProcessManagerStructureRule::is_process_manager_file(
        "# This should use ProcessManager instead"
    ));
}

#[test]
fn projection_purity_flags_side_effecting_imports() {
    let es = two_contexts(&[(
        "orchestration/slices/list/projection.py",
        "import typing\nimport httpx\nfrom .local import x\n",
    )]);
    let report = run(&ProjectionPurityRule, config(ROOT, "python"), ROOT, es);
    assert_eq!(report.errors.len(), 1);
    assert_eq!(report.errors[0].code, "VSA032");
    assert!(report.errors[0].message.contains("'httpx' (line 2)"));
}

#[test]
fn process_manager_missing_methods_are_reported() {
    let es = two_contexts(&[(
        "orchestration/slices/dispatch/manager.py",
        "class Dispatch(ProcessManager):\n    def process_pending(self):\n        pass\n",
    )]);
    let report = run(&ProcessManagerStructureRule, config(ROOT, "python"), ROOT, es);
    assert_eq!(report.errors.len(), 1);
    assert_eq!(report.errors[0].code, "VSA033");
    assert!(report.errors[0].message.contains("get_idempotency_key"));
}

#[test]
fn test_no_duplicate_integration_events_rule() {
    let rule = NoDuplicateIntegrationEventsRule;
    assert_eq!(rule.name(), "no-duplicate-integration-events");
    assert_eq!(rule.code(), "VSA100");
}

#[test]
fn duplicate_integration_events_are_reported_once_per_name() {
    let es = entries(
        ROOT,
        &[
            ("sales/_shared/integration-events/OrderPlacedIntegrationEvent.ts", "x"),
            ("warehouse/_shared/integration-events/OrderPlacedIntegrationEvent.ts", "x"),
        ],
    );
    let report = run(&NoDuplicateIntegrationEventsRule, config(ROOT, "typescript"), ROOT, es);
    assert_eq!(report.errors.len(), 1);
    assert_eq!(report.errors[0].code, "VSA100");
    assert!(report.errors[0].message.contains("OrderPlacedIntegrationEvent"));
}
