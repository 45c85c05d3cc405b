//! Configuration of a VSA project (`vsa.yaml`) and its validation.

use vstd::prelude::*;
use crate::error::VsaError;
use crate::path::{join_path, push_path};
use crate::text::{decimal, decimal_string, ends_with, owned, starts_with, str_ends_with, str_eq, str_in, str_starts_with};

verus! {

/// VSA configuration.
#[derive(Debug, Clone)]
pub struct VsaConfig {
    /// Configuration version (1 or 2).
    pub version: u32,
    /// Architecture type.
    pub architecture: ArchitectureType,
    /// Root directory for contexts (relative to the config file).
    pub root: String,
    /// Primary language.
    pub language: String,
    /// Domain layer configuration.
    pub domain: Option<DomainConfig>,
    /// Slices layer configuration.
    pub slices: Option<SlicesConfig>,
    /// Infrastructure layer configuration.
    pub infrastructure: Option<InfrastructureConfig>,
    /// Optional framework integration.
    pub framework: Option<FrameworkConfig>,
    /// Context-specific configuration, by context name.
    pub contexts: Vec<(String, ContextConfig)>,
    /// Validation rules.
    pub validation: ValidationConfig,
    /// Pattern definitions.
    pub patterns: PatternsConfig,
    /// Extra module prefixes that projections may import.
    pub projection_allowed_prefixes: Option<Vec<String>>,
    /// Extra paths (outside the contexts) scanned for cross-context imports.
    pub cross_context_scan_paths: Vec<String>,
    /// Violation budgets granted to particular files.
    pub exceptions: Vec<ExceptionBudget>,
}

/// A number of tolerated violations of one rule in one file.
#[derive(Debug, Clone, PartialEq)]
pub struct ExceptionBudget {
    /// Rule code (e.g. "VSA204").
    pub rule: String,
    /// File path suffix the budget applies to.
    pub file: String,
    /// Number of violations tolerated.
    pub budget: usize,
    /// The issue that tracks the exception, if any.
    pub issue: Option<String>,
}

/// Architecture type.
#[derive(Debug, Clone, Copy, PartialEq, Eq, Structural)]
pub enum ArchitectureType {
    /// Basic vertical slice architecture (legacy).
    VerticalSlice,
    /// Hexagonal architecture.
    Hexagonal,
    /// Hexagonal event-sourced VSA (recommended).
    HexagonalEventSourcedVsa,
}

impl Default for ArchitectureType {
    fn default() -> (r: Self)
        ensures
            r == ArchitectureType::VerticalSlice,
    {
        ArchitectureType::VerticalSlice
    }
}

/// Domain layer configuration.
#[derive(Debug, Clone)]
pub struct DomainConfig {
    /// Path to the domain folder (relative to root).
    pub path: String,
    pub aggregates: AggregateConfig,
    pub commands: CommandConfig,
    pub queries: QueryConfig,
    pub events: EventConfig,
}

impl Default for DomainConfig {
    fn default() -> (r: Self)
        ensures
            r.path@ == "domain"@,
            r.aggregates.pattern@ == "*Aggregate.*"@,
            r.commands.pattern@ == "**/*Command.*"@,
            r.queries.pattern@ == "**/*Query.*"@,
            r.events.pattern@ == "**/*Event.*"@,
            r.events.versioning.enabled,
    {
        DomainConfig {
            path: owned("domain"),
            aggregates: AggregateConfig::default(),
            commands: CommandConfig::default(),
            queries: QueryConfig::default(),
            events: EventConfig::default(),
        }
    }
}

/// The default file extensions scanned.
pub fn default_extensions() -> (r: Vec<String>)
    ensures
        r@.len() == 2,
        r@[0]@ == ".ts"@,
        r@[1]@ == ".tsx"@,
{
    let mut v: Vec<String> = Vec::new();
    v.push(owned(".ts"));
    v.push(owned(".tsx"));
    v
}

/// Aggregate configuration.
#[derive(Debug, Clone)]
pub struct AggregateConfig {
    pub path: String,
    pub pattern: String,
    pub require_suffix: bool,
    pub extensions: Vec<String>,
}

impl Default for AggregateConfig {
    fn default() -> (r: Self)
        ensures
            r.path@ == "."@,
            r.pattern@ == "*Aggregate.*"@,
            r.require_suffix,
            r.extensions@.len() == 2,
    {
        AggregateConfig {
            path: owned("."),
            pattern: owned("*Aggregate.*"),
            require_suffix: true,
            extensions: default_extensions(),
        }
    }
}

/// Command configuration.
#[derive(Debug, Clone)]
pub struct CommandConfig {
    pub path: String,
    pub pattern: String,
    pub require_suffix: bool,
    pub require_aggregate_id: bool,
    pub organize_by_feature: bool,
    pub extensions: Vec<String>,
}

impl Default for CommandConfig {
    fn default() -> (r: Self)
        ensures
            r.path@ == "commands"@,
            r.pattern@ == "**/*Command.*"@,
            r.require_suffix && r.require_aggregate_id && r.organize_by_feature,
            r.extensions@.len() == 2,
    {
        CommandConfig {
            path: owned("commands"),
            pattern: owned("**/*Command.*"),
            require_suffix: true,
            require_aggregate_id: true,
            organize_by_feature: true,
            extensions: default_extensions(),
        }
    }
}

/// Query configuration.
#[derive(Debug, Clone)]
pub struct QueryConfig {
    pub path: String,
    pub pattern: String,
    pub require_suffix: bool,
    pub organize_by_feature: bool,
    pub extensions: Vec<String>,
}

impl Default for QueryConfig {
    fn default() -> (r: Self)
        ensures
            r.path@ == "queries"@,
            r.pattern@ == "**/*Query.*"@,
            r.require_suffix && r.organize_by_feature,
            r.extensions@.len() == 2,
    {
        QueryConfig {
            path: owned("queries"),
            pattern: owned("**/*Query.*"),
            require_suffix: true,
            organize_by_feature: true,
            extensions: default_extensions(),
        }
    }
}

/// Event configuration.
#[derive(Debug, Clone)]
pub struct EventConfig {
    pub path: String,
    pub pattern: String,
    pub require_suffix: bool,
    pub extensions: Vec<String>,
    pub versioning: EventVersioningConfig,
}

impl Default for EventConfig {
    fn default() -> (r: Self)
        ensures
            r.path@ == "events"@,
            r.pattern@ == "**/*Event.*"@,
            r.require_suffix,
            r.extensions@.len() == 2,
            r.versioning.enabled,
            r.versioning.format == VersionFormat::Simple,
            r.versioning.require_decorator,
            r.versioning.require_upcasters,
    {
        EventConfig {
            path: owned("events"),
            pattern: owned("**/*Event.*"),
            require_suffix: true,
            extensions: default_extensions(),
            versioning: EventVersioningConfig::default(),
        }
    }
}

/// Event versioning configuration.
#[derive(Debug, Clone)]
pub struct EventVersioningConfig {
    pub enabled: bool,
    pub format: VersionFormat,
    pub require_decorator: bool,
    pub require_upcasters: bool,
    pub versioned_path: String,
    pub upcasters_path: String,
    pub upcaster_pattern: String,
}

impl Default for EventVersioningConfig {
    fn default() -> (r: Self)
        ensures
            r.enabled,
            r.format == VersionFormat::Simple,
            r.require_decorator,
            r.require_upcasters,
            r.versioned_path@ == "_versioned"@,
            r.upcasters_path@ == "_upcasters"@,
            r.upcaster_pattern@ == "*_Upcaster_*.*"@,
    {
        EventVersioningConfig {
            enabled: true,
            format: VersionFormat::Simple,
            require_decorator: true,
            require_upcasters: true,
            versioned_path: owned("_versioned"),
            upcasters_path: owned("_upcasters"),
            upcaster_pattern: owned("*_Upcaster_*.*"),
        }
    }
}

/// Version format.
#[derive(Debug, Clone, Copy, PartialEq, Eq, Structural)]
pub enum VersionFormat {
    /// Simple string-based versions ('v1', 'v2').
    Simple,
    /// Semantic versioning ('1.0.0').
    Semver,
}

impl Default for VersionFormat {
    fn default() -> (r: Self)
        ensures
            r == VersionFormat::Simple,
    {
        VersionFormat::Simple
    }
}

/// Slices layer configuration.
#[derive(Debug, Clone)]
pub struct SlicesConfig {
    pub path: String,
    pub types: Vec<SliceType>,
    pub metadata_file: String,
    pub command: Option<CommandSliceConfig>,
    pub query: Option<QuerySliceConfig>,
    pub saga: Option<SagaSliceConfig>,
}

impl Default for SlicesConfig {
    fn default() -> (r: Self)
        ensures
            r.path@ == "slices"@,
            r.types@ == seq![SliceType::Command, SliceType::Query, SliceType::Saga],
            r.metadata_file@ == "slice.yaml"@,
            r.command is Some,
            r.query matches Some(q) && q.require_projection,
            r.saga is Some,
    {
        let mut types: Vec<SliceType> = Vec::new();
        types.push(SliceType::Command);
        types.push(SliceType::Query);
        types.push(SliceType::Saga);
        SlicesConfig {
            path: owned("slices"),
            types,
            metadata_file: owned("slice.yaml"),
            command: Some(CommandSliceConfig::default()),
            query: Some(QuerySliceConfig::default()),
            saga: Some(SagaSliceConfig::default()),
        }
    }
}

/// Slice type.
#[derive(Debug, Clone, Copy, PartialEq, Eq, Structural)]
pub enum SliceType {
    /// Command slice (write operations).
    Command,
    /// Query slice (read operations).
    Query,
    /// Saga slice (process managers).
    Saga,
    /// Both command and query indicators.
    Mixed,
    /// No indicator found.
    Unknown,
}

impl Default for SliceType {
    fn default() -> (r: Self)
        ensures
            r == SliceType::Unknown,
    {
        SliceType::Unknown
    }
}

/// Kind of a top-level directory: a bounded context has aggregates.
#[derive(Debug, Clone, Copy, PartialEq, Eq, Structural)]
pub enum ContextType {
    /// A context with at least one aggregate.
    BoundedContext,
    /// A directory without aggregates.
    InvalidModule,
}

impl Default for ContextType {
    fn default() -> (r: Self)
        ensures
            r == ContextType::BoundedContext,
    {
        ContextType::BoundedContext
    }
}

/// The default adapter types allowed in slices.
pub fn default_adapter_types() -> (r: Vec<String>)
    ensures
        r@.len() == 4,
        r@[0]@ == "rest"@,
        r@[1]@ == "cli"@,
        r@[2]@ == "grpc"@,
        r@[3]@ == "graphql"@,
{
    let mut v: Vec<String> = Vec::new();
    v.push(owned("rest"));
    v.push(owned("cli"));
    v.push(owned("grpc"));
    v.push(owned("graphql"));
    v
}

/// Command slice configuration.
#[derive(Debug, Clone)]
pub struct CommandSliceConfig {
    pub pattern: String,
    pub must_use: String,
    pub max_lines: Option<usize>,
    pub require_tests: bool,
    pub no_business_logic: bool,
    pub adapters: Vec<String>,
}

impl Default for CommandSliceConfig {
    fn default() -> (r: Self)
        ensures
            r.pattern@ == "*"@,
            r.must_use@ == "CommandBus"@,
            r.max_lines == Some(50usize),
            r.require_tests && r.no_business_logic,
            r.adapters@.len() == 4,
    {
        CommandSliceConfig {
            pattern: owned("*"),
            must_use: owned("CommandBus"),
            max_lines: Some(50),
            require_tests: true,
            no_business_logic: true,
            adapters: default_adapter_types(),
        }
    }
}

/// Query slice configuration.
#[derive(Debug, Clone)]
pub struct QuerySliceConfig {
    pub pattern: String,
    pub require_projection: bool,
    pub must_use: String,
    pub max_lines: Option<usize>,
    pub require_tests: bool,
    pub adapters: Vec<String>,
}

impl Default for QuerySliceConfig {
    fn default() -> (r: Self)
        ensures
            r.pattern@ == "*"@,
            r.require_projection,
            r.must_use@ == "QueryBus"@,
            r.max_lines == Some(100usize),
            r.require_tests,
            r.adapters@.len() == 4,
    {
        QuerySliceConfig {
            pattern: owned("*"),
            require_projection: true,
            must_use: owned("QueryBus"),
            max_lines: Some(100),
            require_tests: true,
            adapters: default_adapter_types(),
        }
    }
}

/// Saga slice configuration.
#[derive(Debug, Clone)]
pub struct SagaSliceConfig {
    pub pattern: String,
    pub must_use: String,
    pub can_send_commands: bool,
    pub require_error_handling: bool,
    pub require_tests: bool,
}

impl Default for SagaSliceConfig {
    fn default() -> (r: Self)
        ensures
            r.pattern@ == "*-saga"@,
            r.must_use@ == "EventBus"@,
            r.can_send_commands && r.require_error_handling && r.require_tests,
    {
        SagaSliceConfig {
            pattern: owned("*-saga"),
            must_use: owned("EventBus"),
            can_send_commands: true,
            require_error_handling: true,
            require_tests: true,
        }
    }
}

/// Infrastructure layer configuration.
#[derive(Debug, Clone)]
pub struct InfrastructureConfig {
    pub path: String,
    pub allowed: Vec<String>,
}

impl Default for InfrastructureConfig {
    fn default() -> (r: Self)
        ensures
            r.path@ == "infrastructure"@,
            r.allowed@.len() == 6,
            r.allowed@[0]@ == "CommandBus"@,
            r.allowed@[1]@ == "QueryBus"@,
            r.allowed@[2]@ == "EventBus"@,
            r.allowed@[3]@ == "*Repository"@,
            r.allowed@[4]@ == "*Gateway"@,
            r.allowed@[5]@ == "*Service"@,
    {
        let mut allowed: Vec<String> = Vec::new();
        allowed.push(owned("CommandBus"));
        allowed.push(owned("QueryBus"));
        allowed.push(owned("EventBus"));
        allowed.push(owned("*Repository"));
        allowed.push(owned("*Gateway"));
        allowed.push(owned("*Service"));
        InfrastructureConfig { path: owned("infrastructure"), allowed }
    }
}

/// Framework integration configuration.
#[derive(Debug, Clone)]
pub struct FrameworkConfig {
    /// Framework name.
    pub name: String,
    /// Base types, by type name.
    pub base_types: Vec<(String, BaseTypeConfig)>,
}

/// Base type configuration.
#[derive(Debug, Clone)]
pub struct BaseTypeConfig {
    /// Import path.
    pub import: String,
    /// Class/type name.
    pub class: String,
}

/// Context-specific configuration.
#[derive(Debug, Clone)]
pub struct ContextConfig {
    pub description: Option<String>,
    pub optional_features: Vec<String>,
    pub patterns: Option<PatternsConfig>,
}

impl Default for ContextConfig {
    fn default() -> (r: Self)
        ensures
            r.description is None,
            r.optional_features@.len() == 0,
            r.patterns is None,
    {
        ContextConfig { description: None, optional_features: Vec::new(), patterns: None }
    }
}

/// Validation configuration.
#[derive(Debug, Clone)]
pub struct ValidationConfig {
    pub architecture: Option<ArchitectureValidation>,
    pub cqrs: Option<CqrsValidation>,
    pub event_sourcing: Option<EventSourcingValidation>,
    pub decorators: Option<DecoratorValidation>,
    pub domain: Option<DomainValidation>,
    pub slices: Option<SliceValidation>,
    /// Require tests for all operations.
    pub require_tests: bool,
    /// Require handler for each command/query/event.
    pub require_handler: bool,
    /// Allow unknown files in project.
    pub allow_unknown_files: bool,
    /// Enforce bounded context boundaries.
    pub enforce_boundaries: bool,
    /// Require integration events in _shared.
    pub require_integration_events_in_shared: bool,
    /// Maximum nesting depth for features.
    pub max_nesting_depth: usize,
    /// Allow nested features.
    pub allow_nested_features: bool,
    /// Maximum warnings before failing validation.
    pub max_warnings: Option<usize>,
    /// Fail on errors.
    pub fail_on_errors: bool,
    /// Slices exempt from the slice isolation check (shared read models).
    pub exclude_from_isolation: Vec<String>,
}

impl Default for ValidationConfig {
    fn default() -> (r: Self)
        ensures
            r.architecture is None && r.cqrs is None && r.event_sourcing is None,
            r.decorators is None && r.domain is None && r.slices is None,
            r.require_tests && r.require_handler && r.allow_unknown_files && r.enforce_boundaries,
            r.require_integration_events_in_shared,
            r.max_nesting_depth == 3,
            r.allow_nested_features,
            r.max_warnings == Some(10usize),
            r.fail_on_errors,
            r.exclude_from_isolation@.len() == 0,
    {
        ValidationConfig {
            architecture: None,
            cqrs: None,
            event_sourcing: None,
            decorators: None,
            domain: None,
            slices: None,
            require_tests: true,
            require_handler: true,
            allow_unknown_files: true,
            enforce_boundaries: true,
            require_integration_events_in_shared: true,
            max_nesting_depth: 3,
            allow_nested_features: true,
            max_warnings: Some(10),
            fail_on_errors: true,
            exclude_from_isolation: Vec::new(),
        }
    }
}

/// Architecture validation rules.
#[derive(Debug, Clone)]
pub struct ArchitectureValidation {
    pub enforce_hexagonal: bool,
    pub domain_isolated: bool,
    pub no_business_logic_in_slices: bool,
    pub slices_isolated: bool,
    pub domain_read_only_from_slices: bool,
    pub enforce_dependency_direction: bool,
}

impl Default for ArchitectureValidation {
    fn default() -> (r: Self)
        ensures
            r.enforce_hexagonal && r.domain_isolated && r.no_business_logic_in_slices
                && r.slices_isolated && r.domain_read_only_from_slices
                && r.enforce_dependency_direction,
    {
        ArchitectureValidation {
            enforce_hexagonal: true,
            domain_isolated: true,
            no_business_logic_in_slices: true,
            slices_isolated: true,
            domain_read_only_from_slices: true,
            enforce_dependency_direction: true,
        }
    }
}

/// CQRS validation rules.
#[derive(Debug, Clone)]
pub struct CqrsValidation {
    pub enforce_separation: bool,
    pub commands_use_command_bus: bool,
    pub queries_use_query_bus: bool,
    pub commands_return_void: bool,
    pub queries_read_only: bool,
}

impl Default for CqrsValidation {
    fn default() -> (r: Self)
        ensures
            r.enforce_separation && r.commands_use_command_bus && r.queries_use_query_bus,
            !r.commands_return_void && !r.queries_read_only,
    {
        CqrsValidation {
            enforce_separation: true,
            commands_use_command_bus: true,
            queries_use_query_bus: true,
            commands_return_void: false,
            queries_read_only: false,
        }
    }
}

/// Event sourcing validation rules.
#[derive(Debug, Clone)]
pub struct EventSourcingValidation {
    pub require_event_versioning: bool,
    pub require_upcasters_for_changes: bool,
    pub warn_missing_deprecated: bool,
    pub validate_upcaster_versions: bool,
}

impl Default for EventSourcingValidation {
    fn default() -> (r: Self)
        ensures
            r.require_event_versioning && r.require_upcasters_for_changes
                && r.warn_missing_deprecated && r.validate_upcaster_versions,
    {
        EventSourcingValidation {
            require_event_versioning: true,
            require_upcasters_for_changes: true,
            warn_missing_deprecated: true,
            validate_upcaster_versions: true,
        }
    }
}

/// Decorator validation rules.
#[derive(Debug, Clone)]
pub struct DecoratorValidation {
    pub require_event_decorator: bool,
    pub require_version_parameter: bool,
    pub require_upcaster_decorator: bool,
    pub require_controller_decorators: bool,
    pub require_routing_decorators: bool,
}

impl Default for DecoratorValidation {
    fn default() -> (r: Self)
        ensures
            r.require_event_decorator && r.require_version_parameter
                && r.require_upcaster_decorator,
            !r.require_controller_decorators && !r.require_routing_decorators,
    {
        DecoratorValidation {
            require_event_decorator: true,
            require_version_parameter: true,
            require_upcaster_decorator: true,
            require_controller_decorators: false,
            require_routing_decorators: false,
        }
    }
}

/// Domain organization validation rules.
#[derive(Debug, Clone)]
pub struct DomainValidation {
    pub aggregates_in_domain: bool,
    pub commands_in_domain_commands: bool,
    pub queries_in_domain_queries: bool,
    pub events_in_domain_events: bool,
    pub enforce_naming_conventions: bool,
    pub require_command_handlers: bool,
}

impl Default for DomainValidation {
    fn default() -> (r: Self)
        ensures
            r.aggregates_in_domain && r.commands_in_domain_commands && r.queries_in_domain_queries
                && r.events_in_domain_events && r.enforce_naming_conventions
                && r.require_command_handlers,
    {
        DomainValidation {
            aggregates_in_domain: true,
            commands_in_domain_commands: true,
            queries_in_domain_queries: true,
            events_in_domain_events: true,
            enforce_naming_conventions: true,
            require_command_handlers: true,
        }
    }
}

/// Slice validation rules.
#[derive(Debug, Clone)]
pub struct SliceValidation {
    pub enforce_thin_adapters: bool,
    pub detect_business_logic: bool,
    pub require_type_consistency: bool,
    pub require_tests: bool,
    pub require_metadata: bool,
}

impl Default for SliceValidation {
    fn default() -> (r: Self)
        ensures
            r.enforce_thin_adapters && r.detect_business_logic && r.require_type_consistency
                && r.require_tests,
            !r.require_metadata,
    {
        SliceValidation {
            enforce_thin_adapters: true,
            detect_business_logic: true,
            require_type_consistency: true,
            require_tests: true,
            require_metadata: false,
        }
    }
}

/// File-name patterns of the VSA file types.
#[derive(Debug, Clone)]
pub struct PatternsConfig {
    /// Command pattern (e.g. "*Command").
    pub command: String,
    /// Event pattern.
    pub event: String,
    /// Handler pattern.
    pub handler: String,
    /// Query pattern.
    pub query: String,
    /// Integration event pattern.
    pub integration_event: String,
    /// Test pattern.
    pub test: String,
}

impl Default for PatternsConfig {
    fn default() -> (r: Self)
        ensures
            r.command@ == "**/*Command.*"@,
            r.event@ == "**/*Event.*"@,
            r.handler@ == "*Handler"@,
            r.query@ == "**/*Query.*"@,
            r.integration_event@ == "*IntegrationEvent"@,
            r.test@ == "*.test"@,
    {
        PatternsConfig {
            command: owned("**/*Command.*"),
            event: owned("**/*Event.*"),
            handler: owned("*Handler"),
            query: owned("**/*Query.*"),
            integration_event: owned("*IntegrationEvent"),
            test: owned("*.test"),
        }
    }
}

/// Language-specific configuration.
#[derive(Debug, Clone)]
pub struct LanguageConfig {
    /// File extension.
    pub extension: String,
    /// Pattern overrides.
    pub patterns: Option<PatternsConfig>,
}

/// The languages a configuration may name.
pub open spec fn supported_language(l: Seq<char>) -> bool {
    l == "typescript"@ || l == "python"@ || l == "rust"@
}

/// The file extension of a supported language.
pub open spec fn language_extension(l: Seq<char>) -> Seq<char> {
    if l == "typescript"@ {
        "ts"@
    } else if l == "python"@ {
        "py"@
    } else {
        "rs"@
    }
}

/// A path is absolute when it starts with `/`.
pub open spec fn is_absolute(p: Seq<char>) -> bool {
    p.len() > 0 && p[0] == '/'
}

/// `e` is the error for the unsupported language `lang`.
pub open spec fn is_unsupported_language(e: VsaError, lang: Seq<char>) -> bool {
    e matches VsaError::UnsupportedLanguage(l) && l@ == lang
}

/// `dir` joined with `rel` (`Path::join` for a relative `rel`).
pub open spec fn join_dir(dir: Seq<char>, rel: Seq<char>) -> Seq<char> {
    if ends_with(dir, "/"@) {
        dir + rel
    } else {
        join_path(dir, rel)
    }
}

impl VsaConfig {
    /// The architecture requires the v2 layer configuration.
    pub open spec fn is_hexagonal(&self) -> bool {
        self.architecture == ArchitectureType::Hexagonal || self.architecture
            == ArchitectureType::HexagonalEventSourcedVsa
    }

    /// Validate the configuration.
    pub fn validate(&self) -> (r: Result<(), VsaError>)
        ensures
            (self.version != 1 && self.version != 2) ==> (r matches Err(VsaError::InvalidConfig(m))
                && m@ == "Unsupported version: "@ + decimal(self.version as nat)
                + ". Expected: 1 or 2"@),
            (self.version == 1 || self.version == 2) && !supported_language(self.language@) ==> (
            r matches Err(VsaError::UnsupportedLanguage(l)) && l@ == self.language@),
            (self.version == 1 || self.version == 2) && supported_language(self.language@) ==> (
            if self.version == 2 && self.is_hexagonal() && self.domain is None {
                r matches Err(VsaError::InvalidConfig(m)) && m@
                    == "Hexagonal architecture requires domain configuration"@
            } else if self.version == 2 && self.is_hexagonal() && self.slices is None {
                r matches Err(VsaError::InvalidConfig(m)) && m@
                    == "Hexagonal architecture requires slices configuration"@
            } else {
                r is Ok
            }),
    {
        if self.version != 1 && self.version != 2 {
            let mut m = owned("Unsupported version: ");
            m.append(decimal_string(self.version).as_str());
            m.append(". Expected: 1 or 2");
            return Err(VsaError::InvalidConfig(m));
        }
        let langs = ["typescript", "python", "rust"];
        if !str_in(self.language.as_str(), &langs) {
            proof {
                assert(langs@[0]@ == "typescript"@ && langs@[1]@ == "python"@ && langs@[2]@
                    == "rust"@);
            }
            return Err(VsaError::UnsupportedLanguage(self.language.clone()));
        }
        proof {
            assert(langs@[0]@ == "typescript"@ && langs@[1]@ == "python"@ && langs@[2]@
                == "rust"@);
        }
        if self.version == 2 {
            let hex = match self.architecture {
                ArchitectureType::Hexagonal => true,
                ArchitectureType::HexagonalEventSourcedVsa => true,
                ArchitectureType::VerticalSlice => false,
            };
            if hex {
                if self.domain.is_none() {
                    return Err(
                        VsaError::InvalidConfig(
                            owned("Hexagonal architecture requires domain configuration"),
                        ),
                    );
                }
                if self.slices.is_none() {
                    return Err(
                        VsaError::InvalidConfig(
                            owned("Hexagonal architecture requires slices configuration"),
                        ),
                    );
                }
            }
        }
        Ok(())
    }

    /// The root path resolved against the directory of the config file:
    /// an absolute root as it is, a relative one joined to the directory
    /// (`Path::join`, which is `push_path` for a relative path).
    pub fn resolve_root(&self, config_dir: &str) -> (r: String)
        ensures
            r@ == if is_absolute(self.root@) {
                self.root@
            } else {
                join_dir(config_dir@, self.root@)
            },
            r@ == if is_absolute(self.root@) {
                self.root@
            } else {
                push_path(config_dir@, self.root@)
            },
    {
        proof {
            reveal_strlit("/");
            assert("/"@ =~= seq!['/']);
            if config_dir@.len() > 0 {
                assert(ends_with(config_dir@, "/"@) <==> config_dir@.last() == '/') by {
                    let t = config_dir@.subrange(config_dir@.len() - 1, config_dir@.len() as int);
                    assert(t[0] == config_dir@.last());
                    if config_dir@.last() == '/' {
                        assert(t =~= "/"@);
                    }
                }
            }
            crate::text::lemma_starts_with_char(self.root@, '/');
        }
        if str_starts_with(self.root.as_str(), "/") {
            return self.root.clone();
        }
        if str_ends_with(config_dir, "/") {
            let mut r = owned(config_dir);
            r.append(self.root.as_str());
            r
        } else {
            crate::path::join_str(config_dir, self.root.as_str())
        }
    }

    /// `Ok` for a supported language, else the error `UnsupportedLanguage`
    /// with the configured language.
    pub fn check_language(&self) -> (r: Result<(), VsaError>)
        ensures
            r is Ok <==> supported_language(self.language@),
            r matches Err(e) ==> is_unsupported_language(e, self.language@),
    {
        proof {
            reveal_strlit("typescript");
            reveal_strlit("python");
            reveal_strlit("rust");
        }
        if str_eq(self.language.as_str(), "typescript") || str_eq(self.language.as_str(), "python")
            || str_eq(self.language.as_str(), "rust") {
            Ok(())
        } else {
            Err(VsaError::UnsupportedLanguage(self.language.clone()))
        }
    }

    /// The file extension of the configured language.
    pub fn file_extension(&self) -> (r: &'static str)
        requires
            supported_language(self.language@),
        ensures
            r@ == language_extension(self.language@),
    {
        if str_eq(self.language.as_str(), "typescript") {
            "ts"
        } else if str_eq(self.language.as_str(), "python") {
            "py"
        } else {
            "rs"
        }
    }
}

impl PatternsConfig {
    /// A copy of these patterns.
    pub fn clone_patterns(&self) -> (r: Self)
        ensures
            r == *self,
    {
        PatternsConfig {
            command: self.command.clone(),
            event: self.event.clone(),
            handler: self.handler.clone(),
            query: self.query.clone(),
            integration_event: self.integration_event.clone(),
            test: self.test.clone(),
        }
    }
}

} // verus!
