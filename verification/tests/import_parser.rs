use vsa_core::text::lines_of;
use vsa_core::validation::import_parser::{
    detect_layer, get_parser, parse_imports, resolve_import_path, ArchitectureLayer,
    ImportParser, ImportStatement, PythonImportParser, RustImportParser, TypeScriptImportParser,
};

#[test]
fn test_python_from_import() {
    let parser = PythonImportParser::new();
    let imports = parser.parse_source("from domain.WorkflowAggregate import WorkflowAggregate");
    assert_eq!(imports.len(), 1);
    assert_eq!(imports[0].module, "domain.WorkflowAggregate");
    assert!(!imports[0].is_relative);
}

#[test]
fn test_python_relative_import() {
    let parser = PythonImportParser::new();
    let imports = parser.parse_source("from ..domain import WorkflowAggregate");
    assert_eq!(imports.len(), 1);
    assert_eq!(imports[0].module, "..domain");
    assert!(imports[0].is_relative);
}

#[test]
fn test_python_simple_import() {
    let parser = PythonImportParser::new();
    let imports = parser.parse_source("import os");
    assert_eq!(imports.len(), 1);
    assert_eq!(imports[0].module, "os");
    assert!(!imports[0].is_relative);
}

#[test]
fn test_python_multiple_imports() {
    let parser = PythonImportParser::new();
    let source = "\nfrom domain.WorkflowAggregate import WorkflowAggregate\nimport os\nfrom ..events import WorkflowCreatedEvent\n";
    let imports = parser.parse_source(source);
    assert_eq!(imports.len(), 3);
    assert_eq!(imports[0].module, "domain.WorkflowAggregate");
    assert_eq!(imports[1].module, "os");
    assert_eq!(imports[2].module, "..events");
    assert_eq!(imports[0].line_number, 2);
    assert_eq!(imports[2].line_number, 4);
}

#[test]
fn test_python_skip_comments() {
    let parser = PythonImportParser::new();
    let source = "\n# from domain import Foo\nfrom domain.WorkflowAggregate import WorkflowAggregate\n";
    let imports = parser.parse_source(source);
    assert_eq!(imports.len(), 1);
    assert_eq!(imports[0].module, "domain.WorkflowAggregate");
}

#[test]
fn test_python_type_checking_block_excluded() {
    let parser = PythonImportParser::new();
    let source = "\nfrom __future__ import annotations\n\nfrom typing import TYPE_CHECKING\n\nfrom event_sourcing.core.checkpoint import CheckpointedProjection\n\nif TYPE_CHECKING:\n    from httpx import AsyncClient\n    from boto3 import Session\n\nfrom datetime import datetime\n";
    let imports = parser.parse_source(source);
    assert_eq!(imports.len(), 4);
    assert_eq!(imports[0].module, "__future__");
    assert_eq!(imports[1].module, "typing");
    assert_eq!(imports[2].module, "event_sourcing.core.checkpoint");
    assert_eq!(imports[3].module, "datetime");
}

#[test]
fn test_python_type_checking_block_with_typing_prefix() {
    let parser = PythonImportParser::new();
    let source = "\nimport typing\n\nif typing.TYPE_CHECKING:\n    from httpx import AsyncClient\n\nfrom uuid import uuid4\n";
    let imports = parser.parse_source(source);
    assert_eq!(imports.len(), 2);
    assert_eq!(imports[0].module, "typing");
    assert_eq!(imports[1].module, "uuid");
}

#[test]
fn test_typescript_import_from() {
    let parser = TypeScriptImportParser::new();
    let imports = parser.parse_source("import { WorkflowAggregate } from './domain/WorkflowAggregate';");
    assert_eq!(imports.len(), 1);
    assert_eq!(imports[0].module, "./domain/WorkflowAggregate");
    assert!(imports[0].is_relative);
}

#[test]
fn test_typescript_absolute_import() {
    let parser = TypeScriptImportParser::new();
    let imports = parser.parse_source("import { Something } from '@/domain/WorkflowAggregate';");
    assert_eq!(imports.len(), 1);
    assert_eq!(imports[0].module, "@/domain/WorkflowAggregate");
    assert!(!imports[0].is_relative);
}

#[test]
fn test_typescript_require() {
    let parser = TypeScriptImportParser::new();
    let imports = parser.parse_source("const WorkflowAggregate = require('./domain/WorkflowAggregate');");
    assert_eq!(imports.len(), 1);
    assert_eq!(imports[0].module, "./domain/WorkflowAggregate");
    assert!(imports[0].is_relative);
}

#[test]
fn test_typescript_parent_import() {
    let parser = TypeScriptImportParser::new();
    let imports = parser.parse_source("import { WorkflowAggregate } from '../domain/WorkflowAggregate';");
    assert_eq!(imports.len(), 1);
    assert_eq!(imports[0].module, "../domain/WorkflowAggregate");
    assert!(imports[0].is_relative);
}

#[test]
fn test_typescript_skip_comments() {
    let parser = TypeScriptImportParser::new();
    let source = "\n// import { Foo } from './domain/Foo';\nimport { WorkflowAggregate } from './domain/WorkflowAggregate';\n";
    let imports = parser.parse_source(source);
    assert_eq!(imports.len(), 1);
    assert_eq!(imports[0].module, "./domain/WorkflowAggregate");
}

#[test]
fn test_rust_use_statement() {
    let parser = RustImportParser::new();
    let imports = parser.parse_source("use crate::domain::WorkflowAggregate;");
    assert_eq!(imports.len(), 1);
    assert_eq!(imports[0].module, "crate::domain::WorkflowAggregate");
    assert!(imports[0].is_relative);
}

#[test]
fn test_rust_use_super() {
    let parser = RustImportParser::new();
    let imports = parser.parse_source("use super::domain::WorkflowAggregate;");
    assert_eq!(imports.len(), 1);
    assert_eq!(imports[0].module, "super::domain::WorkflowAggregate");
    assert!(imports[0].is_relative);
}

#[test]
fn test_rust_use_external() {
    let parser = RustImportParser::new();
    let imports = parser.parse_source("use std::collections::HashMap;");
    assert_eq!(imports.len(), 1);
    assert_eq!(imports[0].module, "std::collections::HashMap");
    assert!(!imports[0].is_relative);
}

#[test]
fn test_rust_use_with_braces() {
    let parser = RustImportParser::new();
    let imports = parser.parse_source("use crate::domain::{WorkflowAggregate, WorkflowExecutionAggregate};");
    assert_eq!(imports.len(), 1);
    assert_eq!(imports[0].module, "crate::domain::");
}

#[test]
fn test_rust_use_as() {
    let parser = RustImportParser::new();
    let imports = parser.parse_source("use crate::domain::WorkflowAggregate as WA;");
    assert_eq!(imports.len(), 1);
    assert_eq!(imports[0].module, "crate::domain::WorkflowAggregate");
}

#[test]
fn test_detect_domain_layer() {
    let layer = detect_layer("/app/contexts/workflows/domain/WorkflowAggregate.py", "/app/contexts/workflows");
    assert_eq!(layer, ArchitectureLayer::Domain);
}

#[test]
fn test_detect_events_layer() {
    let layer = detect_layer("/app/contexts/workflows/events/WorkflowCreatedEvent.py", "/app/contexts/workflows");
    assert_eq!(layer, ArchitectureLayer::Events);
}

#[test]
fn test_detect_slices_layer() {
    let layer = detect_layer(
        "/app/contexts/workflows/slices/create_workflow/internal/Handler.py",
        "/app/contexts/workflows",
    );
    assert_eq!(layer, ArchitectureLayer::Slices);
}

#[test]
fn detect_layer_of_other_paths() {
    assert_eq!(detect_layer("/app/w/ports/Port.py", "/app/w"), ArchitectureLayer::Ports);
    assert_eq!(detect_layer("/app/w/infrastructure/db.py", "/app/w"), ArchitectureLayer::Infrastructure);
    assert_eq!(detect_layer("/app/w/application/svc.py", "/app/w"), ArchitectureLayer::Application);
    assert_eq!(detect_layer("/app/w/misc/x.py", "/app/w"), ArchitectureLayer::Unknown);
    assert_eq!(detect_layer("/elsewhere/domain/x.py", "/app/w"), ArchitectureLayer::Unknown);
}

#[test]
fn test_get_parser_python() {
    assert!(get_parser("test.py").is_some());
}

#[test]
fn test_get_parser_typescript() {
    assert!(get_parser("test.ts").is_some());
}

#[test]
fn test_get_parser_rust() {
    assert!(get_parser("test.rs").is_some());
}

#[test]
fn test_get_parser_unknown() {
    assert!(get_parser("test.txt").is_none());
}

#[test]
fn parse_imports_chooses_the_parser_by_extension() {
    assert_eq!(parse_imports("a.py", "import os\n").len(), 1);
    assert_eq!(parse_imports("a.txt", "import os\n").len(), 0);
    assert_eq!(parse_imports("a.tsx", "import x from 'y';\n")[0].module, "y");
}

fn stmt(module: &str, relative: bool) -> ImportStatement {
    ImportStatement { module: module.to_string(), is_relative: relative, line: String::new(), line_number: 1 }
}

#[test]
fn resolve_import_path_relative_and_absolute() {
    assert_eq!(
        resolve_import_path("/ctx/slices/a/handler.py", &stmt("..domain.Agg", true), "/ctx"),
        Some("/ctx/slices/domain/Agg".to_string())
    );
    assert_eq!(
        resolve_import_path("/ctx/slices/a/handler.ts", &stmt("./x", true), "/ctx"),
        Some("/ctx/slices/a/x".to_string())
    );
    assert_eq!(
        resolve_import_path("src/orders/handler.ts", &stmt("./domain/WorkflowAggregate", true), "/ctx"),
        Some("src/orders/domain/WorkflowAggregate".to_string())
    );
    assert_eq!(
        resolve_import_path("src/orders/handler.ts", &stmt("../shared/./util.service", true), "/ctx"),
        Some("src/shared/./util.service".to_string())
    );
    assert_eq!(
        resolve_import_path("src/orders/handler.ts", &stmt("../../../x", true), "/ctx"),
        None
    );
    assert_eq!(
        resolve_import_path("/ctx/slices/a/handler.py", &stmt(".models", true), "/ctx"),
        Some("/ctx/slices/a/models".to_string())
    );
    assert_eq!(
        resolve_import_path("/ctx/slices/a/handler.rs", &stmt("super::x", true), "/ctx"),
        Some("/ctx/slices/a/super::x".to_string())
    );
    assert_eq!(
        resolve_import_path("/ctx/a.rs", &stmt("crate::domain::Agg", false), "/ctx"),
        Some("/ctx/crate/domain/Agg".to_string())
    );
}

#[test]
fn test_lines_keep_lone_final_cr() {
    let s: Vec<char> = "a\r\nb\r".chars().collect();
    let v = lines_of(&s);
    assert_eq!(v, vec![vec!['a'], vec!['b', '\r']]);
    let t: Vec<char> = "x\ny\n".chars().collect();
    assert_eq!(lines_of(&t), vec![vec!['x'], vec!['y']]);
}
