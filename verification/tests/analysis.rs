use cog::analysis::extractors::c::extract_c;
use cog::analysis::extractors::calls::{Call, Definition, Import};
use cog::analysis::extractors::java::extract_java;
use cog::analysis::extractors::javascript::extract_js;
use cog::analysis::extractors::python::extract_python;
use cog::analysis::extractors::rust::extract_rust;
use cog::analysis::languages::{extension_of, language_for_path, Language};
use cog::analysis::scan::extract;
use cog::analysis::syntax::parse_syntax;
use cog::domain::entity::EntityKind;

fn defs_of(defs: &[Definition]) -> Vec<(String, EntityKind, Option<String>)> {
    defs.iter().map(|d| (d.qualified_name.clone(), d.kind, d.parent.clone())).collect()
}

fn imports_of(imports: &[Import]) -> Vec<(String, Vec<String>)> {
    imports.iter().map(|i| (i.module.clone(), i.imported_names.clone())).collect()
}

fn calls_of(calls: &[Call]) -> Vec<(String, String)> {
    calls.iter().map(|c| (c.callee_name.clone(), c.caller_qname.clone())).collect()
}

fn d(q: &str, k: EntityKind, p: Option<&str>) -> (String, EntityKind, Option<String>) {
    (q.to_string(), k, p.map(|s| s.to_string()))
}

fn c(callee: &str, caller: &str) -> (String, String) {
    (callee.to_string(), caller.to_string())
}

#[test]
fn languages_by_extension_and_name() {
    assert_eq!(Language::from_extension("py"), Some(Language::Python));
    assert_eq!(Language::from_extension("mjs"), Some(Language::JavaScript));
    assert_eq!(Language::from_extension("h"), Some(Language::C));
    assert_eq!(Language::from_extension("ts"), Some(Language::JavaScript));
    assert_eq!(Language::from_extension("tsx"), Some(Language::JavaScript));
    assert_eq!(language_for_path("src/app.ts"), Some(Language::JavaScript));
    assert_eq!(language_for_path("a.rs/"), Some(Language::Rust));
    assert_eq!(language_for_path("/"), None);
    assert_eq!(language_for_path("src/a/b.rs"), Some(Language::Rust));
    assert_eq!(language_for_path("src/.hidden"), None);
    assert_eq!(language_for_path("Makefile"), None);
    assert_eq!(extension_of("a.tar.gz"), Some("gz".to_string()));
    assert_eq!(Language::parse("RUST"), Ok(Language::Rust));
    assert_eq!(Language::parse("Py"), Ok(Language::Python));
    assert_eq!(Language::parse("Cobol"), Err("unknown language: cobol".to_string()));
    assert_eq!(Language::Java.as_str(), "java");
}

#[test]
fn python_definitions_imports_and_calls() {
    let src = "import os, sys\nfrom pkg.mod import thing, other\ndef top():\n    helper(1)\n    obj.run()\nclass Widget:\n    def draw(self):\n        self.paint()\n";
    let root = parse_syntax(Language::Python, src).unwrap();
    let (defs, imports, calls) = extract_python(&root, "app");
    assert_eq!(
        defs_of(&defs),
        vec![
            d("app::top", EntityKind::Function, None),
            d("app::Widget", EntityKind::Type, None),
            d("app::Widget::draw", EntityKind::Method, Some("Widget")),
        ]
    );
    assert_eq!(
        imports_of(&imports),
        vec![
            ("os,sys".to_string(), vec!["os".to_string(), "sys".to_string()]),
            ("pkg.mod".to_string(), vec!["thing".to_string(), "other".to_string()]),
        ]
    );
    assert_eq!(
        calls_of(&calls),
        vec![c("helper", "app::top"), c("run", "app::top"), c("paint", "app::Widget::draw")]
    );
}

#[test]
fn rust_definitions_imports_and_calls() {
    let src = "use std::collections::HashMap;\nstruct Lexer<'a> { s: &'a str }\nimpl<'a> Lexer<'a> {\n    fn next(&mut self) -> u8 { self.peek(); Self::make(); 0 }\n}\nfn main() { helper(); }\n";
    let root = parse_syntax(Language::Rust, src).unwrap();
    let (defs, imports, calls) = extract_rust(&root, "app");
    assert_eq!(
        defs_of(&defs),
        vec![
            d("app::Lexer", EntityKind::Type, None),
            d("app::Lexer::next", EntityKind::Method, Some("Lexer")),
            d("app::main", EntityKind::Function, None),
        ]
    );
    assert_eq!(imports_of(&imports), vec![("std::collections::HashMap".to_string(), vec![])]);
    assert_eq!(
        calls_of(&calls),
        vec![c("peek", "app::Lexer::next"), c("make", "app::Lexer::next"), c("helper", "app::main")]
    );
}

#[test]
fn c_definitions_includes_and_calls() {
    let src = "#include <stdio.h>\n#include \"util.h\"\nstatic int *make(int n) { return helper(n); }\nint main(void) { s.run(); return 0; }\n";
    let root = parse_syntax(Language::C, src).unwrap();
    let (defs, imports, calls) = extract_c(&root, "app");
    assert_eq!(
        defs_of(&defs),
        vec![d("app::make", EntityKind::Function, None), d("app::main", EntityKind::Function, None)]
    );
    assert_eq!(
        imports_of(&imports),
        vec![("stdio.h".to_string(), vec![]), ("util.h".to_string(), vec![])]
    );
    assert_eq!(calls_of(&calls), vec![c("helper", "app::make"), c("run", "app::main")]);
}

#[test]
fn javascript_definitions_imports_and_calls() {
    let src = "import { a, b } from './x';\nfunction top() { helper(); obj.run(); }\nclass Box { draw() { this.paint(); } }\nexport var go = () => { step(); };\nexport function ex() {}\n";
    let root = parse_syntax(Language::JavaScript, src).unwrap();
    let (defs, imports, calls) = extract_js(&root, "app");
    assert_eq!(
        defs_of(&defs),
        vec![
            d("app::top", EntityKind::Function, None),
            d("app::Box", EntityKind::Type, None),
            d("app::Box::draw", EntityKind::Method, Some("Box")),
            d("app::go", EntityKind::Function, None),
            d("app::ex", EntityKind::Function, None),
        ]
    );
    // Named imports sit inside the import clause, not directly under the
    // statement: only the module is recorded.
    assert_eq!(imports_of(&imports), vec![("./x".to_string(), vec![])]);
    assert_eq!(
        calls_of(&calls),
        vec![c("helper", "app::top"), c("run", "app::top"), c("paint", "app::Box::draw"), c("step", "app::go")]
    );
}

#[test]
fn java_nested_classes_and_imports() {
    let src = "import java.util.List;\nclass Outer { void run() {} class Inner { int size() { return 0; } } }\n";
    let root = parse_syntax(Language::Java, src).unwrap();
    let (defs, imports, calls) = extract_java(&root, "app");
    assert_eq!(
        defs_of(&defs),
        vec![
            d("app::Outer", EntityKind::Type, None),
            d("app::Outer::run", EntityKind::Method, Some("Outer")),
            d("app::Outer::Inner", EntityKind::Type, Some("Outer")),
            d("app::Inner::size", EntityKind::Method, Some("Inner")),
        ]
    );
    assert_eq!(imports_of(&imports), vec![("java.util.List".to_string(), vec![])]);
    assert!(calls.is_empty());
}

#[test]
fn extract_dispatches_on_language() {
    let root = parse_syntax(Language::Python, "def f():\n    pass\n").unwrap();
    let (defs, _, _) = extract(&root, Language::Python, "m");
    assert_eq!(defs_of(&defs), vec![d("m::f", EntityKind::Function, None)]);
}
