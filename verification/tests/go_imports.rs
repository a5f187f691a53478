use cog::analysis::extractors::calls::Import;
use cog::analysis::extractors::go::{extract_go, extract_go_import};
use cog::analysis::languages::Language;
use cog::analysis::syntax::parse_syntax;

/// Parse Go source and extract the imports of each import_declaration node.
fn extract_imports(source: &str) -> Vec<Import> {
    let root = parse_syntax(Language::Go, source).expect("failed to parse Go source");
    let mut imports = Vec::new();
    for child in &root.children {
        if child.kind == "import_declaration" {
            extract_go_import(child, &mut imports);
        }
    }
    imports
}

#[test]
fn single_import_no_alias() {
    let imports = extract_imports(
        r#"package main
import "fmt"
func main() { fmt.Println("hello") }
"#,
    );
    assert_eq!(imports.len(), 1);
    assert_eq!(imports[0].module, "fmt");
    assert!(imports[0].imported_names.is_empty());
}

#[test]
fn single_import_with_alias() {
    let imports = extract_imports(
        r#"package main
import f "fmt"
func main() { f.Println("hello") }
"#,
    );
    assert_eq!(imports.len(), 1);
    assert_eq!(imports[0].module, "fmt");
    assert_eq!(imports[0].imported_names, vec!["f"]);
}

#[test]
fn blank_import() {
    let imports = extract_imports(
        r#"package main
import _ "net/http/pprof"
func main() {}
"#,
    );
    assert_eq!(imports.len(), 1);
    assert_eq!(imports[0].module, "net/http/pprof");
    assert!(imports[0].imported_names.is_empty());
}

#[test]
fn dot_import() {
    let imports = extract_imports(
        r#"package main
import . "math"
func main() {}
"#,
    );
    assert_eq!(imports.len(), 1);
    assert_eq!(imports[0].module, "math");
    assert!(imports[0].imported_names.is_empty());
}

#[test]
fn multi_import_block_with_mix() {
    let imports = extract_imports(
        r#"package main
import (
    "fmt"
    f "fmt"
    _ "net/http/pprof"
    . "math"
)
func main() {}
"#,
    );
    assert_eq!(imports.len(), 4, "expected 4 imports, got {}: {:#?}", imports.len(), imports);
    assert_eq!(imports[0].module, "fmt");
    assert!(imports[0].imported_names.is_empty());
    assert_eq!(imports[1].module, "fmt");
    assert_eq!(imports[1].imported_names, vec!["f"]);
    assert_eq!(imports[2].module, "net/http/pprof");
    assert!(imports[2].imported_names.is_empty());
    assert_eq!(imports[3].module, "math");
    assert!(imports[3].imported_names.is_empty());
}

#[test]
fn go_functions_methods_types_and_calls() {
    let src = r#"package main
type Server struct {}
func (s *Server) Start() { s.listen(); helper() }
func helper() { fmt.Println("x") }
"#;
    let root = parse_syntax(Language::Go, src).unwrap();
    let (defs, _imports, calls) = extract_go(&root, "app::main");
    let names: Vec<&str> = defs.iter().map(|d| d.qualified_name.as_str()).collect();
    // The receiver is looked up among the receiver list's direct children,
    // where the grammar nests it inside a parameter declaration: the method
    // is named at module level.
    assert_eq!(names, vec!["app::main::Server", "app::main::Start", "app::main::helper"]);
    assert_eq!(defs[1].parent, None);
    let pairs: Vec<(&str, &str)> = calls
        .iter()
        .map(|c| (c.callee_name.as_str(), c.caller_qname.as_str()))
        .collect();
    assert_eq!(
        pairs,
        vec![
            ("listen", "app::main::Start"),
            ("helper", "app::main::Start"),
            ("Println", "app::main::helper"),
        ]
    );
}
