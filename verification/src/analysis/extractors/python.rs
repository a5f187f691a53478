//! Python: functions, classes and their methods, imports and calls.

use vstd::prelude::*;
use crate::analysis::syntax::{field_child, kind_index_from, SyntaxNode};
use crate::analysis::extractors::calls::{body_calls, calls_view, defs_view, extract_calls_from_body, imports_view, join_items, kind_is_one_of, no_items, qualify, qualify_name, CallStyle, Call, CallV, Definition, DefV, Extracted, Import};
use crate::domain::entity::EntityKind;
use crate::text::{chars_of, push_all, string_of};

verus! {

/// The texts of the children among `ch[..n]` whose kind is in `ks`.
pub open spec fn texts_of_kinds(ch: Seq<SyntaxNode>, ks: Seq<Seq<char>>, n: int) -> Seq<Seq<char>>
    decreases n,
{
    if n <= 0 || n > ch.len() {
        seq![]
    } else if ks.contains(ch[n - 1].kind@) {
        texts_of_kinds(ch, ks, n - 1).push(ch[n - 1].text@)
    } else {
        texts_of_kinds(ch, ks, n - 1)
    }
}

/// `parts` joined with `,`.
pub open spec fn join_commas(parts: Seq<Seq<char>>) -> Seq<char>
    decreases parts.len(),
{
    if parts.len() == 0 {
        seq![]
    } else if parts.len() == 1 {
        parts[0]
    } else {
        join_commas(parts.drop_last()) + seq![','] + parts.last()
    }
}

/// State of the `from X import a, b` scan after the children `ch[..n]`:
/// the module (the first dotted name) and the names imported after it.
pub open spec fn from_import_state(ch: Seq<SyntaxNode>, n: int) -> (Seq<char>, Seq<Seq<char>>)
    decreases n,
{
    if n <= 0 || n > ch.len() {
        (seq![], seq![])
    } else {
        let st = from_import_state(ch, n - 1);
        let c = ch[n - 1];
        if c.kind@ == "dotted_name"@ && st.0.len() == 0 {
            (c.text@, st.1)
        } else if (c.kind@ == "identifier"@ || c.kind@ == "dotted_name"@) && st.0.len() > 0 {
            (st.0, st.1.push(c.text@))
        } else {
            st
        }
    }
}

/// The methods (and their calls) among the statements `ch[..n]` of a class body.
pub open spec fn py_methods(ch: Seq<SyntaxNode>, m: Seq<char>, class: Seq<char>, n: int) -> (
    Seq<DefV>,
    Seq<CallV>,
)
    decreases n,
{
    if n <= 0 || n > ch.len() {
        (seq![], seq![])
    } else {
        let prev = py_methods(ch, m, class, n - 1);
        let st = ch[n - 1];
        if st.kind@ == "function_definition"@ {
            match field_child(st, "name"@) {
                Some(nm) => {
                    let fq = qualify(qualify(m, class), nm.text@);
                    (
                        prev.0.push((EntityKind::Method, fq, Some(class))),
                        prev.1 + body_calls(CallStyle::Python, st, fq),
                    )
                },
                None => prev,
            }
        } else {
            prev
        }
    }
}

/// The methods of a class node: those in its first `block` child.
pub open spec fn py_class_methods(class_node: SyntaxNode, m: Seq<char>, class: Seq<char>) -> (
    Seq<DefV>,
    Seq<CallV>,
) {
    let b = kind_index_from(class_node.children@, "block"@, 0);
    if 0 <= b < class_node.children@.len() {
        let blk = class_node.children@[b];
        py_methods(blk.children@, m, class, blk.children@.len() as int)
    } else {
        (seq![], seq![])
    }
}

/// What one top-level Python node contributes.
pub open spec fn py_child(c: SyntaxNode, m: Seq<char>) -> Extracted {
    if c.kind@ == "function_definition"@ {
        match field_child(c, "name"@) {
            Some(n) => {
                let fq = qualify(m, n.text@);
                (
                    seq![(EntityKind::Function, fq, None::<Seq<char>>)],
                    seq![],
                    body_calls(CallStyle::Python, c, fq),
                )
            },
            None => no_items(),
        }
    } else if c.kind@ == "class_definition"@ {
        match field_child(c, "name"@) {
            Some(n) => {
                let meth = py_class_methods(c, m, n.text@);
                (
                    seq![(EntityKind::Type, qualify(m, n.text@), None::<Seq<char>>)] + meth.0,
                    seq![],
                    meth.1,
                )
            },
            None => no_items(),
        }
    } else if c.kind@ == "import_statement"@ {
        let names = texts_of_kinds(
            c.children@,
            seq!["dotted_name"@, "identifier"@],
            c.children@.len() as int,
        );
        if names.len() == 0 {
            no_items()
        } else {
            (seq![], seq![(join_commas(names), names)], seq![])
        }
    } else if c.kind@ == "import_from_statement"@ {
        let st = from_import_state(c.children@, c.children@.len() as int);
        if st.0.len() == 0 {
            no_items()
        } else {
            (seq![], seq![st], seq![])
        }
    } else {
        no_items()
    }
}

/// What the top-level nodes `ch[..n]` contribute, in order.
pub open spec fn py_fold(ch: Seq<SyntaxNode>, m: Seq<char>, n: int) -> Extracted
    decreases n,
{
    if n <= 0 || n > ch.len() {
        no_items()
    } else {
        join_items(py_fold(ch, m, n - 1), py_child(ch[n - 1], m))
    }
}

/// What a Python source file's root node yields.
pub open spec fn spec_extract_python(root: SyntaxNode, m: Seq<char>) -> Extracted {
    py_fold(root.children@, m, root.children@.len() as int)
}

fn extract_python_class_methods(
    class_node: &SyntaxNode,
    m: &str,
    class_name: &str,
    defs: &mut Vec<Definition>,
    calls: &mut Vec<Call>,
)
    ensures
        defs_view(final(defs)@) == defs_view(old(defs)@) + py_class_methods(
            *class_node,
            m@,
            class_name@,
        ).0,
        calls_view(final(calls)@) == calls_view(old(calls)@) + py_class_methods(
            *class_node,
            m@,
            class_name@,
        ).1,
{
    let b = match class_node.child_index_of_kind("block") {
        Some(b) => b,
        None => {
            assert(defs_view(defs@) =~= defs_view(old(defs)@) + py_class_methods(
                *class_node,
                m@,
                class_name@,
            ).0);
            assert(calls_view(calls@) =~= calls_view(old(calls)@) + py_class_methods(
                *class_node,
                m@,
                class_name@,
            ).1);
            return;
        },
    };
    let blk = &class_node.children[b];
    let mut i: usize = 0;
    while i < blk.children.len()
        invariant
            i <= blk.children@.len(),
            defs_view(defs@) == defs_view(old(defs)@) + py_methods(
                blk.children@,
                m@,
                class_name@,
                i as int,
            ).0,
            calls_view(calls@) == calls_view(old(calls)@) + py_methods(
                blk.children@,
                m@,
                class_name@,
                i as int,
            ).1,
        decreases blk.children@.len() - i,
    {
        let st = &blk.children[i];
        let ghost d0 = defs@;
        let ghost c0 = calls@;
        if st.is_kind("function_definition") {
            match st.child_by_field_name("name") {
                Some(n) => {
                    let method_name = n.node_text();
                    let base = qualify_name(m, class_name);
                    let fq = qualify_name(base.as_str(), method_name.as_str());
                    defs.push(
                        Definition {
                            qualified_name: fq.clone(),
                            kind: EntityKind::Method,
                            parent: Some(class_name.to_string()),
                        },
                    );
                    assert(defs_view(defs@) =~= defs_view(d0).push(
                        (EntityKind::Method, fq@, Some(class_name@)),
                    ));
                    extract_calls_from_body(CallStyle::Python, st, fq.as_str(), calls);
                },
                None => {},
            }
        }
        assert(defs_view(defs@) =~= defs_view(old(defs)@) + py_methods(
            blk.children@,
            m@,
            class_name@,
            i + 1,
        ).0);
        assert(calls_view(calls@) =~= calls_view(old(calls)@) + py_methods(
            blk.children@,
            m@,
            class_name@,
            i + 1,
        ).1);
        i += 1;
    }
}

fn import_statement_items(c: &SyntaxNode, imports: &mut Vec<Import>)
    requires
        c.kind@ == "import_statement"@,
    ensures
        imports_view(final(imports)@) == imports_view(old(imports)@) + py_child(*c, seq![]).1,
{
    let ks: [&str; 2] = ["dotted_name", "identifier"];
    assert(ks@.map_values(|s: &str| s@) =~= seq!["dotted_name"@, "identifier"@]);
    let ghost kv = ks@.map_values(|s: &str| s@);
    let mut names: Vec<String> = Vec::new();
    let mut joined: Vec<char> = Vec::new();
    let mut i: usize = 0;
    while i < c.children.len()
        invariant
            i <= c.children@.len(),
            kv == ks@.map_values(|s: &str| s@),
            names@.map_values(|s: String| s@) == texts_of_kinds(c.children@, kv, i as int),
            joined@ == join_commas(texts_of_kinds(c.children@, kv, i as int)),
        decreases c.children@.len() - i,
    {
        let n = &c.children[i];
        if kind_is_one_of(n.kind.as_str(), &ks) {
            let ghost prev = names@;
            if names.len() > 0 {
                joined.push(',');
            }
            let t = chars_of(n.text.as_str());
            push_all(&mut joined, &t);
            names.push(n.node_text());
            assert(names@.map_values(|s: String| s@) =~= prev.map_values(|s: String| s@).push(
                n.text@,
            ));
            assert(texts_of_kinds(c.children@, kv, i + 1).drop_last() == texts_of_kinds(
                c.children@,
                kv,
                i as int,
            ));
        }
        i += 1;
    }
    proof {
        reveal_strlit("import_statement");
        reveal_strlit("function_definition");
        reveal_strlit("class_definition");
    }
    assert("import_statement"@[0] != "function_definition"@[0]);
    assert("import_statement"@[0] != "class_definition"@[0]);
    if names.len() > 0 {
        let ghost before = imports@;
        imports.push(Import { module: string_of(&joined), imported_names: names });
        assert(imports_view(imports@) =~= imports_view(before) + py_child(*c, seq![]).1);
    } else {
        assert(imports_view(imports@) =~= imports_view(old(imports)@) + py_child(*c, seq![]).1);
    }
}

fn import_from_items(c: &SyntaxNode, imports: &mut Vec<Import>)
    requires
        c.kind@ == "import_from_statement"@,
    ensures
        imports_view(final(imports)@) == imports_view(old(imports)@) + py_child(*c, seq![]).1,
{
    let mut module: Vec<char> = Vec::new();
    let mut imported: Vec<String> = Vec::new();
    let mut i: usize = 0;
    while i < c.children.len()
        invariant
            i <= c.children@.len(),
            (module@, imported@.map_values(|s: String| s@)) == from_import_state(
                c.children@,
                i as int,
            ),
        decreases c.children@.len() - i,
    {
        let n = &c.children[i];
        if n.is_kind("dotted_name") && module.len() == 0 {
            module = chars_of(n.text.as_str());
        } else if (n.is_kind("identifier") || n.is_kind("dotted_name")) && module.len() > 0 {
            let ghost prev = imported@;
            imported.push(n.node_text());
            assert(imported@.map_values(|s: String| s@) =~= prev.map_values(|s: String| s@).push(
                n.text@,
            ));
        }
        i += 1;
    }
    proof {
        reveal_strlit("import_statement");
        reveal_strlit("import_from_statement");
        reveal_strlit("function_definition");
        reveal_strlit("class_definition");
    }
    let ghost st = from_import_state(c.children@, c.children@.len() as int);
    assert("import_from_statement"@[0] != "function_definition"@[0]);
    assert("import_from_statement"@[0] != "class_definition"@[0]);
    assert("import_from_statement"@[7] != "import_statement"@[7]);
    if module.len() > 0 {
        assert(py_child(*c, seq![]).1 == seq![st]);
        let ghost before = imports@;
        imports.push(Import { module: string_of(&module), imported_names: imported });
        assert(imports_view(imports@) =~= imports_view(before) + py_child(*c, seq![]).1);
    } else {
        assert(imports_view(imports@) =~= imports_view(old(imports)@) + py_child(*c, seq![]).1);
    }
}

fn process_python_child(
    c: &SyntaxNode,
    m: &str,
    defs: &mut Vec<Definition>,
    imports: &mut Vec<Import>,
    calls: &mut Vec<Call>,
)
    ensures
        (defs_view(final(defs)@), imports_view(final(imports)@), calls_view(final(calls)@))
            == join_items(
            (defs_view(old(defs)@), imports_view(old(imports)@), calls_view(old(calls)@)),
            py_child(*c, m@),
        ),
{
    let ghost d0 = defs_view(defs@);
    let ghost i0 = imports_view(imports@);
    let ghost c0 = calls_view(calls@);
    proof {
        reveal_strlit("import_statement");
        reveal_strlit("import_from_statement");
        reveal_strlit("function_definition");
        reveal_strlit("class_definition");
    }
    if c.is_kind("function_definition") {
        match c.child_by_field_name("name") {
            Some(n) => {
                let name = n.node_text();
                let fq = qualify_name(m, name.as_str());
                defs.push(
                    Definition { qualified_name: fq.clone(), kind: EntityKind::Function, parent: None },
                );
                extract_calls_from_body(CallStyle::Python, c, fq.as_str(), calls);
            },
            None => {},
        }
    } else if c.is_kind("class_definition") {
        match c.child_by_field_name("name") {
            Some(n) => {
                let class_name = n.node_text();
                defs.push(
                    Definition {
                        qualified_name: qualify_name(m, class_name.as_str()),
                        kind: EntityKind::Type,
                        parent: None,
                    },
                );
                let ghost d1 = defs_view(defs@);
                extract_python_class_methods(c, m, class_name.as_str(), defs, calls);
                assert(defs_view(defs@) =~= d0 + py_child(*c, m@).0);
            },
            None => {},
        }
    } else if c.is_kind("import_statement") {
        import_statement_items(c, imports);
        assert(py_child(*c, seq![]).1 == py_child(*c, m@).1);
    } else if c.is_kind("import_from_statement") {
        import_from_items(c, imports);
        assert(py_child(*c, seq![]).1 == py_child(*c, m@).1);
    }
    assert(defs_view(defs@) =~= d0 + py_child(*c, m@).0);
    assert(imports_view(imports@) =~= i0 + py_child(*c, m@).1);
    assert(calls_view(calls@) =~= c0 + py_child(*c, m@).2);
}

/// Definitions, imports and calls of a Python source file, from its root node.
pub fn extract_python(root: &SyntaxNode, module_qname: &str) -> (r: (Vec<Definition>, Vec<Import>, Vec<Call>))
    ensures
        (defs_view(r.0@), imports_view(r.1@), calls_view(r.2@)) == spec_extract_python(
            *root,
            module_qname@,
        ),
{
    let mut defs: Vec<Definition> = Vec::new();
    let mut imports: Vec<Import> = Vec::new();
    let mut calls: Vec<Call> = Vec::new();
    let mut i: usize = 0;
    while i < root.children.len()
        invariant
            i <= root.children@.len(),
            (defs_view(defs@), imports_view(imports@), calls_view(calls@)) == py_fold(
                root.children@,
                module_qname@,
                i as int,
            ),
        decreases root.children@.len() - i,
    {
        process_python_child(&root.children[i], module_qname, &mut defs, &mut imports, &mut calls);
        i += 1;
    }
    (defs, imports, calls)
}

/// Every definition a top-level node contributes is among those of the
/// whole file.
proof fn lemma_py_fold_keeps(ch: Seq<SyntaxNode>, m: Seq<char>, n: int, i: int)
    requires
        0 <= i < n <= ch.len(),
    ensures
        forall|x: crate::analysis::extractors::calls::DefV| py_child(ch[i], m).0.contains(x) ==> #[trigger] py_fold(ch, m, n).0.contains(x),
    decreases n,
{
    let prev = py_fold(ch, m, n - 1);
    let here = py_child(ch[n - 1], m);
    assert(py_fold(ch, m, n).0 == prev.0 + here.0);
    if i < n - 1 {
        lemma_py_fold_keeps(ch, m, n - 1, i);
        assert forall|x: crate::analysis::extractors::calls::DefV| py_child(ch[i], m).0.contains(x) implies #[trigger] py_fold(ch, m, n).0.contains(x) by {
            assert(py_fold(ch, m, n - 1).0.contains(x));
            let k = choose|k: int| 0 <= k < prev.0.len() && #[trigger] prev.0[k] == x;
            assert((prev.0 + here.0)[k] == x);
        }
    } else {
        assert forall|x: crate::analysis::extractors::calls::DefV| py_child(ch[i], m).0.contains(x) implies #[trigger] py_fold(ch, m, n).0.contains(x) by {
            let k = choose|k: int| 0 <= k < here.0.len() && #[trigger] here.0[k] == x;
            assert((prev.0 + here.0)[prev.0.len() + k] == x);
        }
    }
}

proof fn lemma_py_function_node(c: SyntaxNode, m: Seq<char>)
    requires
        c.kind@ == "function_definition"@,
        field_child(c, "name"@) is Some,
    ensures
        py_child(c, m).0.len() > 0,
        py_child(c, m).0[0] == (EntityKind::Function, m + seq![':', ':'] + field_child(c, "name"@)->0.text@, None::<Seq<char>>),
{
    reveal_strlit("function_definition");
    reveal_strlit("class_definition");
    reveal_strlit("import_statement");
    reveal_strlit("import_from_statement");

}

/// Functions are recorded: every named function at the top of a Python file yields the function definition `m::name` with no parent.
pub proof fn lemma_py_function_recorded(root: SyntaxNode, m: Seq<char>, i: int)
    requires
        0 <= i < root.children@.len(),
        root.children@[i].kind@ == "function_definition"@,
        field_child(root.children@[i], "name"@) is Some,
    ensures
        spec_extract_python(root, m).0.contains(
            (EntityKind::Function, m + seq![':', ':'] + field_child(root.children@[i], "name"@)->0.text@, None::<Seq<char>>),
        ),
{
    lemma_py_function_node(root.children@[i], m);
    assert(py_child(root.children@[i], m).0.contains(py_child(root.children@[i], m).0[0]));
    lemma_py_fold_keeps(root.children@, m, root.children@.len() as int, i);
}

proof fn lemma_py_class_node(c: SyntaxNode, m: Seq<char>)
    requires
        c.kind@ == "class_definition"@,
        field_child(c, "name"@) is Some,
    ensures
        py_child(c, m).0.len() > 0,
        py_child(c, m).0[0] == (EntityKind::Type, m + seq![':', ':'] + field_child(c, "name"@)->0.text@, None::<Seq<char>>),
{
    reveal_strlit("function_definition");
    reveal_strlit("class_definition");
    reveal_strlit("import_statement");
    reveal_strlit("import_from_statement");
    assert("class_definition"@.len() != "function_definition"@.len());
}

/// Classes are recorded: every named class at the top of a Python file yields the type definition `m::name` with no parent.
pub proof fn lemma_py_class_recorded(root: SyntaxNode, m: Seq<char>, i: int)
    requires
        0 <= i < root.children@.len(),
        root.children@[i].kind@ == "class_definition"@,
        field_child(root.children@[i], "name"@) is Some,
    ensures
        spec_extract_python(root, m).0.contains(
            (EntityKind::Type, m + seq![':', ':'] + field_child(root.children@[i], "name"@)->0.text@, None::<Seq<char>>),
        ),
{
    lemma_py_class_node(root.children@[i], m);
    assert(py_child(root.children@[i], m).0.contains(py_child(root.children@[i], m).0[0]));
    lemma_py_fold_keeps(root.children@, m, root.children@.len() as int, i);
}

} // verus!
