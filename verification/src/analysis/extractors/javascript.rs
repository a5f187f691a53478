//! JavaScript: functions, classes and their methods, arrow-function
//! constants, imports and calls.

use vstd::prelude::*;
use crate::analysis::syntax::{field_child, SyntaxNode};
use crate::analysis::extractors::calls::{
    body_calls, calls_view, child_index_of_kinds, defs_view, extract_calls_from_body,
    imports_view, join_items, kind_is_one_of, kinds_index_from, no_items, qualify, qualify_name,
    CallStyle, Call, CallV, Definition, DefV, Extracted, Import, ImpV,
};
use crate::domain::entity::EntityKind;
use crate::text::{chars_of, push_all, string_of, trim_chars, trim_set};

verus! {

/// A named function node: its definition and the calls in its body.
pub open spec fn js_function(node: SyntaxNode, m: Seq<char>) -> Extracted {
    match field_child(node, "name"@) {
        Some(n) => {
            let fq = qualify(m, n.text@);
            (
                seq![(EntityKind::Function, fq, None::<Seq<char>>)],
                seq![],
                body_calls(CallStyle::JavaScript, node, fq),
            )
        },
        None => no_items(),
    }
}

/// The methods and fields among the members `ch[..n]` of a class body.
pub open spec fn js_members(ch: Seq<SyntaxNode>, m: Seq<char>, class: Seq<char>, n: int) -> (
    Seq<DefV>,
    Seq<CallV>,
)
    decreases n,
{
    if n <= 0 || n > ch.len() {
        (seq![], seq![])
    } else {
        let prev = js_members(ch, m, class, n - 1);
        let mb = ch[n - 1];
        if mb.kind@ == "method_definition"@ || mb.kind@ == "public_field_definition"@ {
            match field_child(mb, "name"@) {
                Some(nm) => {
                    let fq = qualify(qualify(m, class), nm.text@);
                    (
                        prev.0.push((EntityKind::Method, fq, Some(class))),
                        prev.1 + body_calls(CallStyle::JavaScript, mb, fq),
                    )
                },
                None => prev,
            }
        } else {
            prev
        }
    }
}

/// The members of a class: those of its first `class_body` (or `body`) child.
pub open spec fn js_class_methods(class_node: SyntaxNode, m: Seq<char>, class: Seq<char>) -> (
    Seq<DefV>,
    Seq<CallV>,
) {
    let b = kinds_index_from(class_node.children@, seq!["class_body"@, "body"@], 0);
    if 0 <= b < class_node.children@.len() {
        let blk = class_node.children@[b];
        js_members(blk.children@, m, class, blk.children@.len() as int)
    } else {
        (seq![], seq![])
    }
}

/// A named class node: its type definition followed by its members.
pub open spec fn js_class(node: SyntaxNode, m: Seq<char>) -> Extracted {
    match field_child(node, "name"@) {
        Some(n) => {
            let meth = js_class_methods(node, m, n.text@);
            (
                seq![(EntityKind::Type, qualify(m, n.text@), None::<Seq<char>>)] + meth.0,
                seq![],
                meth.1,
            )
        },
        None => no_items(),
    }
}

/// The function-valued declarators among the children `ch[..n]` of a
/// `variable_declaration`.
pub open spec fn js_var_decls(ch: Seq<SyntaxNode>, m: Seq<char>, n: int) -> (Seq<DefV>, Seq<CallV>)
    decreases n,
{
    if n <= 0 || n > ch.len() {
        (seq![], seq![])
    } else {
        let prev = js_var_decls(ch, m, n - 1);
        let d = ch[n - 1];
        if d.kind@ == "variable_declarator"@ {
            match field_child(d, "name"@) {
                Some(nm) => {
                    let fq = qualify(m, nm.text@);
                    match field_child(d, "value"@) {
                        Some(v) => if v.kind@ == "arrow_function"@ || v.kind@
                            == "function_expression"@ {
                            (
                                prev.0.push((EntityKind::Function, fq, None::<Seq<char>>)),
                                prev.1 + body_calls(CallStyle::JavaScript, v, fq),
                            )
                        } else {
                            prev
                        },
                        None => prev,
                    }
                },
                None => prev,
            }
        } else {
            prev
        }
    }
}

/// State of the import scan after the children `ch[..n]`: the module (the
/// last string seen, quotes trimmed) and the imported names.
pub open spec fn js_import_state(ch: Seq<SyntaxNode>, n: int) -> (Seq<char>, Seq<Seq<char>>)
    decreases n,
{
    if n <= 0 || n > ch.len() {
        (seq![], seq![])
    } else {
        let st = js_import_state(ch, n - 1);
        let c = ch[n - 1];
        if c.kind@ == "string"@ || c.kind@ == "string_fragment"@ {
            (trim_set(trim_set(c.text@, seq!['"']), seq!['\'']), st.1)
        } else if c.kind@ == "import_specifier"@ {
            match field_child(c, "name"@) {
                Some(nm) => (st.0, st.1.push(nm.text@)),
                None => st,
            }
        } else if c.kind@ == "namespace_import"@ {
            match field_child(c, "name"@) {
                Some(nm) => (st.0, st.1.push(seq!['*'] + nm.text@)),
                None => st,
            }
        } else {
            st
        }
    }
}

/// The import an `import_statement` yields, if its module is non-empty.
pub open spec fn js_import(node: SyntaxNode) -> Seq<ImpV> {
    let st = js_import_state(node.children@, node.children@.len() as int);
    if st.0.len() > 0 {
        seq![st]
    } else {
        seq![]
    }
}

/// The declaration kinds looked for inside an `export_statement`.
pub open spec fn js_export_kinds() -> Seq<Seq<char>> {
    seq![
        "function_declaration"@,
        "generator_function_declaration"@,
        "class_declaration"@,
        "variable_declaration"@,
    ]
}

/// What the children `ch[..n]` of an `export_statement` contribute.
pub open spec fn js_export(ch: Seq<SyntaxNode>, m: Seq<char>, n: int) -> Extracted
    decreases n,
{
    if n <= 0 || n > ch.len() {
        no_items()
    } else {
        let inner = ch[n - 1];
        let here = if !js_export_kinds().contains(inner.kind@) {
            no_items()
        } else if inner.kind@ == "variable_declaration"@ {
            let v = js_var_decls(inner.children@, m, inner.children@.len() as int);
            (v.0, seq![], v.1)
        } else if inner.kind@ == "class_declaration"@ {
            js_class(inner, m)
        } else {
            js_function(inner, m)
        };
        join_items(js_export(ch, m, n - 1), here)
    }
}

/// What one top-level JavaScript node contributes.
pub open spec fn js_child(c: SyntaxNode, m: Seq<char>) -> Extracted {
    if c.kind@ == "function_declaration"@ || c.kind@ == "generator_function_declaration"@ {
        js_function(c, m)
    } else if c.kind@ == "class_declaration"@ {
        js_class(c, m)
    } else if c.kind@ == "export_statement"@ {
        js_export(c.children@, m, c.children@.len() as int)
    } else if c.kind@ == "import_statement"@ {
        (seq![], js_import(c), seq![])
    } else {
        no_items()
    }
}

/// What the top-level nodes `ch[..n]` contribute, in order.
pub open spec fn js_fold(ch: Seq<SyntaxNode>, m: Seq<char>, n: int) -> Extracted
    decreases n,
{
    if n <= 0 || n > ch.len() {
        no_items()
    } else {
        join_items(js_fold(ch, m, n - 1), js_child(ch[n - 1], m))
    }
}

/// What a JavaScript source file's root node yields.
pub open spec fn spec_extract_js(root: SyntaxNode, m: Seq<char>) -> Extracted {
    js_fold(root.children@, m, root.children@.len() as int)
}

fn js_function_items(
    node: &SyntaxNode,
    m: &str,
    defs: &mut Vec<Definition>,
    calls: &mut Vec<Call>,
)
    ensures
        defs_view(final(defs)@) == defs_view(old(defs)@) + js_function(*node, m@).0,
        calls_view(final(calls)@) == calls_view(old(calls)@) + js_function(*node, m@).2,
        js_function(*node, m@).1 == Seq::<ImpV>::empty(),
{
    match node.child_by_field_name("name") {
        Some(n) => {
            let name = n.node_text();
            let fq = qualify_name(m, name.as_str());
            let ghost d0 = defs@;
            defs.push(Definition { qualified_name: fq.clone(), kind: EntityKind::Function, parent: None });
            assert(defs_view(defs@) =~= defs_view(d0) + js_function(*node, m@).0);
            extract_calls_from_body(CallStyle::JavaScript, node, fq.as_str(), calls);
        },
        None => {
            assert(defs_view(defs@) =~= defs_view(old(defs)@) + js_function(*node, m@).0);
            assert(calls_view(calls@) =~= calls_view(old(calls)@) + js_function(*node, m@).2);
        },
    }
}

fn extract_js_class_methods(
    class_node: &SyntaxNode,
    m: &str,
    class_name: &str,
    defs: &mut Vec<Definition>,
    calls: &mut Vec<Call>,
)
    ensures
        defs_view(final(defs)@) == defs_view(old(defs)@) + js_class_methods(
            *class_node,
            m@,
            class_name@,
        ).0,
        calls_view(final(calls)@) == calls_view(old(calls)@) + js_class_methods(
            *class_node,
            m@,
            class_name@,
        ).1,
{
    let ks: [&str; 2] = ["class_body", "body"];
    assert(ks@.map_values(|s: &str| s@) =~= seq!["class_body"@, "body"@]);
    let b = match child_index_of_kinds(class_node, &ks) {
        Some(b) => b,
        None => {
            assert(defs_view(defs@) =~= defs_view(old(defs)@) + js_class_methods(
                *class_node,
                m@,
                class_name@,
            ).0);
            assert(calls_view(calls@) =~= calls_view(old(calls)@) + js_class_methods(
                *class_node,
                m@,
                class_name@,
            ).1);
            return;
        },
    };
    let blk = &class_node.children[b];
    let mut i: usize = 0;
    while i < blk.children.len()
        invariant
            i <= blk.children@.len(),
            defs_view(defs@) == defs_view(old(defs)@) + js_members(
                blk.children@,
                m@,
                class_name@,
                i as int,
            ).0,
            calls_view(calls@) == calls_view(old(calls)@) + js_members(
                blk.children@,
                m@,
                class_name@,
                i as int,
            ).1,
        decreases blk.children@.len() - i,
    {
        let mb = &blk.children[i];
        let ghost d0 = defs@;
        if mb.is_kind("method_definition") || mb.is_kind("public_field_definition") {
            match mb.child_by_field_name("name") {
                Some(n) => {
                    let method_name = n.node_text();
                    let base = qualify_name(m, class_name);
                    let fq = qualify_name(base.as_str(), method_name.as_str());
                    defs.push(
                        Definition {
                            qualified_name: fq.clone(),
                            kind: EntityKind::Method,
                            parent: Some(class_name.to_string()),
                        },
                    );
                    assert(defs_view(defs@) =~= defs_view(d0).push(
                        (EntityKind::Method, fq@, Some(class_name@)),
                    ));
                    extract_calls_from_body(CallStyle::JavaScript, mb, fq.as_str(), calls);
                },
                None => {},
            }
        }
        assert(defs_view(defs@) =~= defs_view(old(defs)@) + js_members(
            blk.children@,
            m@,
            class_name@,
            i + 1,
        ).0);
        assert(calls_view(calls@) =~= calls_view(old(calls)@) + js_members(
            blk.children@,
            m@,
            class_name@,
            i + 1,
        ).1);
        i += 1;
    }
}

fn js_class_items(node: &SyntaxNode, m: &str, defs: &mut Vec<Definition>, calls: &mut Vec<Call>)
    ensures
        defs_view(final(defs)@) == defs_view(old(defs)@) + js_class(*node, m@).0,
        calls_view(final(calls)@) == calls_view(old(calls)@) + js_class(*node, m@).2,
        js_class(*node, m@).1 == Seq::<ImpV>::empty(),
{
    match node.child_by_field_name("name") {
        Some(n) => {
            let class_name = n.node_text();
            let ghost d0 = defs_view(defs@);
            defs.push(
                Definition {
                    qualified_name: qualify_name(m, class_name.as_str()),
                    kind: EntityKind::Type,
                    parent: None,
                },
            );
            extract_js_class_methods(node, m, class_name.as_str(), defs, calls);
            assert(defs_view(defs@) =~= d0 + js_class(*node, m@).0);
        },
        None => {
            assert(defs_view(defs@) =~= defs_view(old(defs)@) + js_class(*node, m@).0);
            assert(calls_view(calls@) =~= calls_view(old(calls)@) + js_class(*node, m@).2);
        },
    }
}

fn extract_js_var_decls(
    var_node: &SyntaxNode,
    m: &str,
    defs: &mut Vec<Definition>,
    calls: &mut Vec<Call>,
)
    ensures
        defs_view(final(defs)@) == defs_view(old(defs)@) + js_var_decls(
            var_node.children@,
            m@,
            var_node.children@.len() as int,
        ).0,
        calls_view(final(calls)@) == calls_view(old(calls)@) + js_var_decls(
            var_node.children@,
            m@,
            var_node.children@.len() as int,
        ).1,
{
    let mut i: usize = 0;
    while i < var_node.children.len()
        invariant
            i <= var_node.children@.len(),
            defs_view(defs@) == defs_view(old(defs)@) + js_var_decls(
                var_node.children@,
                m@,
                i as int,
            ).0,
            calls_view(calls@) == calls_view(old(calls)@) + js_var_decls(
                var_node.children@,
                m@,
                i as int,
            ).1,
        decreases var_node.children@.len() - i,
    {
        let d = &var_node.children[i];
        let ghost d0 = defs@;
        if d.is_kind("variable_declarator") {
            match d.child_by_field_name("name") {
                Some(n) => {
                    let name = n.node_text();
                    let fq = qualify_name(m, name.as_str());
                    match d.child_by_field_name("value") {
                        Some(v) => {
                            if v.is_kind("arrow_function") || v.is_kind("function_expression") {
                                defs.push(
                                    Definition {
                                        qualified_name: fq.clone(),
                                        kind: EntityKind::Function,
                                        parent: None,
                                    },
                                );
                                assert(defs_view(defs@) =~= defs_view(d0).push(
                                    (EntityKind::Function, fq@, None::<Seq<char>>),
                                ));
                                extract_calls_from_body(CallStyle::JavaScript, v, fq.as_str(), calls);
                            }
                        },
                        None => {},
                    }
                },
                None => {},
            }
        }
        assert(defs_view(defs@) =~= defs_view(old(defs)@) + js_var_decls(
            var_node.children@,
            m@,
            i + 1,
        ).0);
        assert(calls_view(calls@) =~= calls_view(old(calls)@) + js_var_decls(
            var_node.children@,
            m@,
            i + 1,
        ).1);
        i += 1;
    }
}

/// Appends the import of an `import_statement`.
fn extract_js_import(node: &SyntaxNode, imports: &mut Vec<Import>)
    ensures
        imports_view(final(imports)@) == imports_view(old(imports)@) + js_import(*node),
{
    let dq = vec!['"'];
    let sq = vec!['\''];
    assert(dq@ =~= seq!['"']);
    assert(sq@ =~= seq!['\'']);
    let mut module: Vec<char> = Vec::new();
    let mut imported: Vec<String> = Vec::new();
    let mut i: usize = 0;
    while i < node.children.len()
        invariant
            i <= node.children@.len(),
            dq@ == seq!['"'],
            sq@ == seq!['\''],
            (module@, imported@.map_values(|s: String| s@)) == js_import_state(
                node.children@,
                i as int,
            ),
        decreases node.children@.len() - i,
    {
        let c = &node.children[i];
        let ghost prev = imported@;
        if c.is_kind("string") || c.is_kind("string_fragment") {
            let t = chars_of(c.text.as_str());
            let t1 = trim_chars(&t, &dq);
            module = trim_chars(&t1, &sq);
        } else if c.is_kind("import_specifier") {
            match c.child_by_field_name("name") {
                Some(n) => {
                    imported.push(n.node_text());
                    assert(imported@.map_values(|s: String| s@) =~= prev.map_values(
                        |s: String| s@,
                    ).push(n.text@));
                },
                None => {},
            }
        } else if c.is_kind("namespace_import") {
            match c.child_by_field_name("name") {
                Some(n) => {
                    let mut star = vec!['*'];
                    assert(star@ =~= seq!['*']);
                    let nt = chars_of(n.text.as_str());
                    push_all(&mut star, &nt);
                    imported.push(string_of(&star));
                    assert(imported@.map_values(|s: String| s@) =~= prev.map_values(
                        |s: String| s@,
                    ).push(seq!['*'] + n.text@));
                },
                None => {},
            }
        }
        i += 1;
    }
    if module.len() > 0 {
        let ghost before = imports@;
        imports.push(Import { module: string_of(&module), imported_names: imported });
        assert(imports_view(imports@) =~= imports_view(before) + js_import(*node));
    } else {
        assert(imports_view(imports@) =~= imports_view(old(imports)@) + js_import(*node));
    }
}

fn js_export_items(
    c: &SyntaxNode,
    m: &str,
    defs: &mut Vec<Definition>,
    imports: &mut Vec<Import>,
    calls: &mut Vec<Call>,
)
    ensures
        (defs_view(final(defs)@), imports_view(final(imports)@), calls_view(final(calls)@))
            == join_items(
            (defs_view(old(defs)@), imports_view(old(imports)@), calls_view(old(calls)@)),
            js_export(c.children@, m@, c.children@.len() as int),
        ),
{
    let ks: [&str; 4] = [
        "function_declaration",
        "generator_function_declaration",
        "class_declaration",
        "variable_declaration",
    ];
    assert(ks@.map_values(|s: &str| s@) =~= js_export_kinds());
    let ghost start = (defs_view(defs@), imports_view(imports@), calls_view(calls@));
    let mut i: usize = 0;
    while i < c.children.len()
        invariant
            i <= c.children@.len(),
            ks@.map_values(|s: &str| s@) == js_export_kinds(),
            start == (defs_view(old(defs)@), imports_view(old(imports)@), calls_view(old(calls)@)),
            (defs_view(defs@), imports_view(imports@), calls_view(calls@)) == join_items(
                start,
                js_export(c.children@, m@, i as int),
            ),
        decreases c.children@.len() - i,
    {
        let inner = &c.children[i];
        let ghost d0 = defs_view(defs@);
        let ghost i0 = imports_view(imports@);
        let ghost c0 = calls_view(calls@);
        if kind_is_one_of(inner.kind.as_str(), &ks) {
            if inner.is_kind("variable_declaration") {
                extract_js_var_decls(inner, m, defs, calls);
            } else if inner.is_kind("class_declaration") {
                js_class_items(inner, m, defs, calls);
            } else {
                js_function_items(inner, m, defs, calls);
            }
        }
        assert(defs_view(defs@) =~= join_items(start, js_export(c.children@, m@, i + 1)).0);
        assert(imports_view(imports@) =~= join_items(start, js_export(c.children@, m@, i + 1)).1);
        assert(calls_view(calls@) =~= join_items(start, js_export(c.children@, m@, i + 1)).2);
        i += 1;
    }
}

fn process_js_child(
    c: &SyntaxNode,
    m: &str,
    defs: &mut Vec<Definition>,
    imports: &mut Vec<Import>,
    calls: &mut Vec<Call>,
)
    ensures
        (defs_view(final(defs)@), imports_view(final(imports)@), calls_view(final(calls)@))
            == join_items(
            (defs_view(old(defs)@), imports_view(old(imports)@), calls_view(old(calls)@)),
            js_child(*c, m@),
        ),
{
    let ghost d0 = defs_view(defs@);
    let ghost i0 = imports_view(imports@);
    let ghost c0 = calls_view(calls@);
    if c.is_kind("function_declaration") || c.is_kind("generator_function_declaration") {
        js_function_items(c, m, defs, calls);
    } else if c.is_kind("class_declaration") {
        js_class_items(c, m, defs, calls);
    } else if c.is_kind("export_statement") {
        js_export_items(c, m, defs, imports, calls);
    } else if c.is_kind("import_statement") {
        extract_js_import(c, imports);
    }
    assert(defs_view(defs@) =~= d0 + js_child(*c, m@).0);
    assert(imports_view(imports@) =~= i0 + js_child(*c, m@).1);
    assert(calls_view(calls@) =~= c0 + js_child(*c, m@).2);
}

/// Definitions, imports and calls of a JavaScript source file, from its root node.
pub fn extract_js(root: &SyntaxNode, module_qname: &str) -> (r: (Vec<Definition>, Vec<Import>, Vec<Call>))
    ensures
        (defs_view(r.0@), imports_view(r.1@), calls_view(r.2@)) == spec_extract_js(
            *root,
            module_qname@,
        ),
{
    let mut defs: Vec<Definition> = Vec::new();
    let mut imports: Vec<Import> = Vec::new();
    let mut calls: Vec<Call> = Vec::new();
    let mut i: usize = 0;
    while i < root.children.len()
        invariant
            i <= root.children@.len(),
            (defs_view(defs@), imports_view(imports@), calls_view(calls@)) == js_fold(
                root.children@,
                module_qname@,
                i as int,
            ),
        decreases root.children@.len() - i,
    {
        process_js_child(&root.children[i], module_qname, &mut defs, &mut imports, &mut calls);
        i += 1;
    }
    (defs, imports, calls)
}

/// Every definition a top-level node contributes is among those of the
/// whole file.
proof fn lemma_js_fold_keeps(ch: Seq<SyntaxNode>, m: Seq<char>, n: int, i: int)
    requires
        0 <= i < n <= ch.len(),
    ensures
        forall|x: crate::analysis::extractors::calls::DefV| js_child(ch[i], m).0.contains(x) ==> #[trigger] js_fold(ch, m, n).0.contains(x),
    decreases n,
{
    let prev = js_fold(ch, m, n - 1);
    let here = js_child(ch[n - 1], m);
    assert(js_fold(ch, m, n).0 == prev.0 + here.0);
    if i < n - 1 {
        lemma_js_fold_keeps(ch, m, n - 1, i);
        assert forall|x: crate::analysis::extractors::calls::DefV| js_child(ch[i], m).0.contains(x) implies #[trigger] js_fold(ch, m, n).0.contains(x) by {
            assert(js_fold(ch, m, n - 1).0.contains(x));
            let k = choose|k: int| 0 <= k < prev.0.len() && #[trigger] prev.0[k] == x;
            assert((prev.0 + here.0)[k] == x);
        }
    } else {
        assert forall|x: crate::analysis::extractors::calls::DefV| js_child(ch[i], m).0.contains(x) implies #[trigger] js_fold(ch, m, n).0.contains(x) by {
            let k = choose|k: int| 0 <= k < here.0.len() && #[trigger] here.0[k] == x;
            assert((prev.0 + here.0)[prev.0.len() + k] == x);
        }
    }
}

proof fn lemma_js_function_node(c: SyntaxNode, m: Seq<char>)
    requires
        c.kind@ == "function_declaration"@ || c.kind@ == "generator_function_declaration"@,
        field_child(c, "name"@) is Some,
    ensures
        js_child(c, m).0.len() > 0,
        js_child(c, m).0[0] == (EntityKind::Function, m + seq![':', ':'] + field_child(c, "name"@)->0.text@, None::<Seq<char>>),
{
    reveal_strlit("function_declaration");
    reveal_strlit("generator_function_declaration");
    reveal_strlit("class_declaration");
    reveal_strlit("export_statement");
    reveal_strlit("import_statement");
    assert("generator_function_declaration"@.len() != "function_declaration"@.len());
}

/// Functions are recorded: every named function or generator declared at the top of a JavaScript file yields the function definition `m::name` with no parent.
pub proof fn lemma_js_function_recorded(root: SyntaxNode, m: Seq<char>, i: int)
    requires
        0 <= i < root.children@.len(),
        root.children@[i].kind@ == "function_declaration"@ || root.children@[i].kind@ == "generator_function_declaration"@,
        field_child(root.children@[i], "name"@) is Some,
    ensures
        spec_extract_js(root, m).0.contains(
            (EntityKind::Function, m + seq![':', ':'] + field_child(root.children@[i], "name"@)->0.text@, None::<Seq<char>>),
        ),
{
    lemma_js_function_node(root.children@[i], m);
    assert(js_child(root.children@[i], m).0.contains(js_child(root.children@[i], m).0[0]));
    lemma_js_fold_keeps(root.children@, m, root.children@.len() as int, i);
}

proof fn lemma_js_class_node(c: SyntaxNode, m: Seq<char>)
    requires
        c.kind@ == "class_declaration"@,
        field_child(c, "name"@) is Some,
    ensures
        js_child(c, m).0.len() > 0,
        js_child(c, m).0[0] == (EntityKind::Type, m + seq![':', ':'] + field_child(c, "name"@)->0.text@, None::<Seq<char>>),
{
    reveal_strlit("function_declaration");
    reveal_strlit("generator_function_declaration");
    reveal_strlit("class_declaration");
    reveal_strlit("export_statement");
    reveal_strlit("import_statement");
    assert("class_declaration"@.len() != "function_declaration"@.len());
    assert("class_declaration"@.len() != "generator_function_declaration"@.len());
}

/// Classes are recorded: every named class declared at the top of a JavaScript file yields the type definition `m::name` with no parent.
pub proof fn lemma_js_class_recorded(root: SyntaxNode, m: Seq<char>, i: int)
    requires
        0 <= i < root.children@.len(),
        root.children@[i].kind@ == "class_declaration"@,
        field_child(root.children@[i], "name"@) is Some,
    ensures
        spec_extract_js(root, m).0.contains(
            (EntityKind::Type, m + seq![':', ':'] + field_child(root.children@[i], "name"@)->0.text@, None::<Seq<char>>),
        ),
{
    lemma_js_class_node(root.children@[i], m);
    assert(js_child(root.children@[i], m).0.contains(js_child(root.children@[i], m).0[0]));
    lemma_js_fold_keeps(root.children@, m, root.children@.len() as int, i);
}

} // verus!
