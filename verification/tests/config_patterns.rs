use vsa_core::bounded_contexts::BoundedContextAnalyzer;
use vsa_core::config::{
    ArchitectureType, BaseTypeConfig, DomainConfig, EventConfig, FrameworkConfig,
    InfrastructureConfig, PatternsConfig, SliceType, SlicesConfig, ValidationConfig, VersionFormat,
    VsaConfig,
};
use vsa_core::error::VsaError;
use vsa_core::framework::FrameworkIntegration;
use vsa_core::integration_events::{IntegrationEvent, IntegrationEventRegistry};
use vsa_core::patterns::{FileType, PatternMatcher};

fn config(version: u32, architecture: ArchitectureType, root: &str, language: &str) -> VsaConfig {
    VsaConfig {
        version,
        architecture,
        root: root.to_string(),
        language: language.to_string(),
        domain: None,
        slices: None,
        infrastructure: None,
        framework: None,
        contexts: vec![],
        validation: ValidationConfig::default(),
        patterns: PatternsConfig::default(),
        projection_allowed_prefixes: None,
        cross_context_scan_paths: vec![],
        exceptions: vec![],
    }
}

#[test]
fn test_default_config_v1() {
    let config = config(1, ArchitectureType::default(), "./src/contexts", "typescript");
    assert!(config.validate().is_ok());
    assert_eq!(config.file_extension(), "ts");
}

#[test]
fn test_default_config_v2() {
    let mut config = config(2, ArchitectureType::HexagonalEventSourcedVsa, ".", "typescript");
    config.domain = Some(DomainConfig::default());
    config.slices = Some(SlicesConfig::default());
    config.infrastructure = Some(InfrastructureConfig::default());
    assert!(config.validate().is_ok());
    assert_eq!(config.file_extension(), "ts");
    assert_eq!(config.architecture, ArchitectureType::HexagonalEventSourcedVsa);
}

#[test]
fn test_v2_requires_domain_config() {
    let mut config = config(2, ArchitectureType::HexagonalEventSourcedVsa, ".", "typescript");
    config.slices = Some(SlicesConfig::default());
    assert!(config.validate().is_err());
}

#[test]
fn test_invalid_version() {
    let config = config(999, ArchitectureType::default(), "./src", "typescript");
    assert!(config.validate().is_err());
}

#[test]
fn test_unsupported_language() {
    let config = config(1, ArchitectureType::default(), "./src", "java");
    assert!(config.validate().is_err());
}

#[test]
fn test_event_versioning_config() {
    let event_config = EventConfig::default();
    assert!(event_config.versioning.enabled);
    assert_eq!(event_config.versioning.format, VersionFormat::Simple);
    assert!(event_config.versioning.require_decorator);
    assert!(event_config.versioning.require_upcasters);
}

#[test]
fn test_slice_types() {
    let slices_config = SlicesConfig::default();
    assert_eq!(slices_config.types.len(), 3);
    assert!(slices_config.types.contains(&SliceType::Command));
    assert!(slices_config.types.contains(&SliceType::Query));
    assert!(slices_config.types.contains(&SliceType::Saga));
}

#[test]
fn validate_reports_each_error_variant() {
    let c = config(999, ArchitectureType::default(), "./src", "typescript");
    assert_eq!(
        c.validate(),
        Err(VsaError::InvalidConfig("Unsupported version: 999. Expected: 1 or 2".to_string()))
    );
    let c = config(1, ArchitectureType::default(), "./src", "java");
    assert_eq!(c.validate(), Err(VsaError::UnsupportedLanguage("java".to_string())));
    let c = config(1, ArchitectureType::default(), "./src", "python");
    assert_eq!(c.file_extension(), "py");
    let c = config(1, ArchitectureType::default(), "./src", "rust");
    assert_eq!(c.file_extension(), "rs");
}

#[test]
fn resolve_root_joins_relative_roots() {
    let c = config(1, ArchitectureType::default(), "src/contexts", "typescript");
    assert_eq!(c.resolve_root("/project"), "/project/src/contexts");
    let c = config(1, ArchitectureType::default(), "/abs/root", "typescript");
    assert_eq!(c.resolve_root("/project"), "/abs/root");
}

fn create_matcher() -> PatternMatcher {
    let config = PatternsConfig {
        command: "*Command".to_string(),
        event: "*Event".to_string(),
        handler: "*Handler".to_string(),
        query: "*Query".to_string(),
        integration_event: "*IntegrationEvent".to_string(),
        test: "*.test".to_string(),
    };
    PatternMatcher::new(config, "ts".to_string())
}

#[test]
fn test_command_pattern() {
    let matcher = create_matcher();
    assert!(matcher.is_command("CreateProductCommand.ts"));
    assert!(matcher.is_command("UpdateInventoryCommand.ts"));
    assert!(!matcher.is_command("ProductCreatedEvent.ts"));
}

#[test]
fn test_event_pattern() {
    let matcher = create_matcher();
    assert!(matcher.is_event("ProductCreatedEvent.ts"));
    assert!(matcher.is_event("StockAdjustedEvent.ts"));
    assert!(!matcher.is_event("CreateProductCommand.ts"));
}

#[test]
fn test_integration_event_pattern() {
    let matcher = create_matcher();
    assert!(matcher.is_integration_event("OrderPlacedIntegrationEvent.ts"));
    assert!(!matcher.is_integration_event("OrderPlacedEvent.ts"));
}

#[test]
fn test_get_file_type() {
    let matcher = create_matcher();
    assert_eq!(matcher.get_file_type("CreateProductCommand.ts"), Some(FileType::Command));
    assert_eq!(matcher.get_file_type("ProductCreatedEvent.ts"), Some(FileType::Event));
    assert_eq!(matcher.get_file_type("CreateProductHandler.ts"), Some(FileType::Handler));
    assert_eq!(matcher.get_file_type("random-file.ts"), None);
}

#[test]
fn test_v2_config_defaults() {
    let domain_config = DomainConfig::default();
    assert_eq!(domain_config.path, "domain");
    assert_eq!(domain_config.aggregates.pattern, "*Aggregate.*");
    assert_eq!(domain_config.commands.pattern, "**/*Command.*");
    assert_eq!(domain_config.events.pattern, "**/*Event.*");
    let slices_config = SlicesConfig::default();
    assert_eq!(slices_config.path, "slices");
    assert_eq!(slices_config.types.len(), 3);
}

#[test]
fn glob_patterns_escape_dots_and_anchor() {
    let matcher = create_matcher();
    assert!(matcher.is_test("Product.test.ts"));
    assert!(!matcher.is_test("Producttest.ts"));
    assert_eq!(matcher.get_file_type("OrderPlacedIntegrationEvent.ts"), Some(FileType::IntegrationEvent));
    assert_eq!(matcher.get_file_type("ListProductsQuery.ts"), Some(FileType::Query));
    assert_eq!(FileType::Handler.name(), "Handler");
}

#[test]
fn test_no_framework() {
    let integration = FrameworkIntegration::new(None);
    assert!(!integration.is_enabled());
    assert!(integration.get_base_type_import("domain_event").is_none());
}

#[test]
fn framework_base_types_are_looked_up_by_name() {
    let integration = FrameworkIntegration::new(Some(FrameworkConfig {
        name: "nest".to_string(),
        base_types: vec![(
            "domain_event".to_string(),
            BaseTypeConfig { import: "@lib/events".to_string(), class: "DomainEvent".to_string() },
        )],
    }));
    assert!(integration.is_enabled());
    assert_eq!(integration.get_base_type_import("domain_event"), Some("@lib/events".to_string()));
    assert_eq!(integration.get_base_type_class("domain_event"), Some("DomainEvent".to_string()));
    assert_eq!(integration.get_base_type_class("command"), None);
}

#[test]
fn test_registry_creation() {
    let registry = IntegrationEventRegistry::new();
    assert!(registry.all_events().is_empty());
}

#[test]
fn test_register_event() {
    let mut registry = IntegrationEventRegistry::new();
    registry.register(IntegrationEvent {
        name: "OrderPlaced".to_string(),
        path: "/test/OrderPlacedIntegrationEvent.ts".to_string(),
        publisher: "sales".to_string(),
    });
    assert!(registry.has_event("OrderPlaced"));
    assert_eq!(registry.all_events().len(), 1);
}

#[test]
fn test_find_duplicates() {
    let mut registry = IntegrationEventRegistry::new();
    registry.register(IntegrationEvent {
        name: "OrderPlaced".to_string(),
        path: "/contexts/sales/OrderPlacedIntegrationEvent.ts".to_string(),
        publisher: "sales".to_string(),
    });
    registry.register(IntegrationEvent {
        name: "OrderPlaced".to_string(),
        path: "/contexts/warehouse/OrderPlacedIntegrationEvent.ts".to_string(),
        publisher: "warehouse".to_string(),
    });
    let duplicates = registry.find_duplicates();
    assert_eq!(duplicates.len(), 1);
    assert_eq!(duplicates[0].0, "OrderPlaced");
    assert_eq!(duplicates[0].1.len(), 2);
}

#[test]
fn registry_keeps_earlier_names_and_reports_publishers_in_order() {
    let mut registry = IntegrationEventRegistry::default();
    for (name, publisher) in [("A", "x"), ("B", "y"), ("A", "z"), ("C", "x")] {
        registry.register(IntegrationEvent {
            name: name.to_string(),
            path: format!("/{}/{}.ts", publisher, name),
            publisher: publisher.to_string(),
        });
    }
    assert!(registry.has_event("A") && registry.has_event("B") && registry.has_event("C"));
    assert!(!registry.has_event("D"));
    let duplicates = registry.find_duplicates();
    assert_eq!(duplicates, vec![("A".to_string(), vec!["x".to_string(), "z".to_string()])]);
    let by_x: Vec<String> = registry.get_published_by("x").iter().map(|e| e.name.clone()).collect();
    assert_eq!(by_x, vec!["A", "C"]);
}

#[test]
fn test_analyze_integration_events() {
    let contexts = vec!["warehouse".to_string(), "sales".to_string()];
    let result = BoundedContextAnalyzer::analyze_integration_events(&contexts);
    assert!(result.is_ok());
    assert!(BoundedContextAnalyzer::check_circular_dependencies(&contexts).unwrap().is_empty());
}

#[test]
fn test_glob_matches_whole_stem() {
    let matcher = create_matcher();
    assert!(!matcher.is_command("CommandBus.ts"));
    assert!(!matcher.is_event("EventStore.ts"));
    assert!(matcher.is_test("orders.test.ts"));
    assert!(!matcher.is_test("orders.test.helpers.ts"));
    assert_eq!(vsa_core::patterns::glob_to_regex("*Command"), "^.*Command$");
    assert_eq!(vsa_core::patterns::glob_to_regex("a?.b"), "^a.\\.b$");
}
