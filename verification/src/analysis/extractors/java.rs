//! Java: classes (nested ones too), methods and imports.

use vstd::prelude::*;
use crate::analysis::syntax::{field_child, SyntaxNode};
use crate::analysis::extractors::calls::{
    calls_view, child_index_of_kinds, defs_view, imports_view, join_items, kinds_index_from,
    no_items, qualify, qualify_name, Call, Definition, DefV, Extracted, Import, ImpV,
};
use crate::domain::entity::EntityKind;
use crate::text::chars_of;

verus! {

/// The definitions in the body of a class node `node` named `class`: those
/// of its first `class_body` (or `interface_body`) child.
pub open spec fn java_class_body(node: SyntaxNode, m: Seq<char>, class: Seq<char>) -> Seq<DefV>
    decreases node, 0int,
{
    let b = kinds_index_from(node.children@, seq!["class_body"@, "interface_body"@], 0);
    if 0 <= b < node.children@.len() {
        let blk = node.children@[b];
        java_members(blk, m, class, blk.children@.len() as int)
    } else {
        seq![]
    }
}

/// The definitions of the members `blk.children[..n]` of a class body:
/// methods, and nested classes followed by their own members.
pub open spec fn java_members(blk: SyntaxNode, m: Seq<char>, class: Seq<char>, n: int) -> Seq<
    DefV,
>
    decreases blk, n,
{
    if n <= 0 || n > blk.children@.len() {
        seq![]
    } else {
        let prev = java_members(blk, m, class, n - 1);
        let mb = blk.children@[n - 1];
        if mb.kind@ == "method_declaration"@ {
            match field_child(mb, "name"@) {
                Some(nm) => prev.push(
                    (EntityKind::Method, qualify(qualify(m, class), nm.text@), Some(class)),
                ),
                None => prev,
            }
        } else if mb.kind@ == "class_declaration"@ {
            match field_child(mb, "name"@) {
                Some(nm) => prev.push(
                    (EntityKind::Type, qualify(qualify(m, class), nm.text@), Some(class)),
                ) + java_class_body(mb, m, nm.text@),
                None => prev,
            }
        } else {
            prev
        }
    }
}

/// The import of an `import_declaration`: the text of its first
/// `scoped_identifier` or `identifier` child, when non-empty.
pub open spec fn java_import(c: SyntaxNode) -> Seq<ImpV> {
    let i = kinds_index_from(c.children@, seq!["scoped_identifier"@, "identifier"@], 0);
    if 0 <= i < c.children@.len() && c.children@[i].text@.len() > 0 {
        seq![(c.children@[i].text@, Seq::<Seq<char>>::empty())]
    } else {
        seq![]
    }
}

/// What one top-level Java node contributes.
pub open spec fn java_child(c: SyntaxNode, m: Seq<char>) -> Extracted {
    if c.kind@ == "class_declaration"@ {
        match field_child(c, "name"@) {
            Some(n) => (
                seq![(EntityKind::Type, qualify(m, n.text@), None::<Seq<char>>)] + java_class_body(
                    c,
                    m,
                    n.text@,
                ),
                seq![],
                seq![],
            ),
            None => no_items(),
        }
    } else if c.kind@ == "method_declaration"@ {
        match field_child(c, "name"@) {
            Some(n) => (
                seq![(EntityKind::Function, qualify(m, n.text@), None::<Seq<char>>)],
                seq![],
                seq![],
            ),
            None => no_items(),
        }
    } else if c.kind@ == "import_declaration"@ {
        (seq![], java_import(c), seq![])
    } else {
        no_items()
    }
}

/// What the top-level nodes `ch[..n]` contribute, in order.
pub open spec fn java_fold(ch: Seq<SyntaxNode>, m: Seq<char>, n: int) -> Extracted
    decreases n,
{
    if n <= 0 || n > ch.len() {
        no_items()
    } else {
        join_items(java_fold(ch, m, n - 1), java_child(ch[n - 1], m))
    }
}

/// What a Java source file's root node yields.
pub open spec fn spec_extract_java(root: SyntaxNode, m: Seq<char>) -> Extracted {
    java_fold(root.children@, m, root.children@.len() as int)
}

/// Appends the definitions in the body of class `class_name`.
fn extract_java_class_body(node: &SyntaxNode, m: &str, class_name: &str, defs: &mut Vec<Definition>)
    ensures
        defs_view(final(defs)@) == defs_view(old(defs)@) + java_class_body(*node, m@, class_name@),
    decreases node, 0int,
{
    let ks: [&str; 2] = ["class_body", "interface_body"];
    assert(ks@.map_values(|s: &str| s@) =~= seq!["class_body"@, "interface_body"@]);
    match child_index_of_kinds(node, &ks) {
        Some(b) => {
            let blk = &node.children[b];
            extract_java_members(blk, m, class_name, defs);
        },
        None => {
            assert(defs_view(defs@) =~= defs_view(old(defs)@) + java_class_body(
                *node,
                m@,
                class_name@,
            ));
        },
    }
}

/// Appends the definitions of the members of a class body `blk`.
fn extract_java_members(blk: &SyntaxNode, m: &str, class_name: &str, defs: &mut Vec<Definition>)
    ensures
        defs_view(final(defs)@) == defs_view(old(defs)@) + java_members(
            *blk,
            m@,
            class_name@,
            blk.children@.len() as int,
        ),
    decreases blk, 1int,
{
    let mut i: usize = 0;
    while i < blk.children.len()
        invariant
            i <= blk.children@.len(),
            defs_view(defs@) == defs_view(old(defs)@) + java_members(
                *blk,
                m@,
                class_name@,
                i as int,
            ),
        decreases blk.children@.len() - i,
    {
        let mb = &blk.children[i];
        let ghost d0 = defs@;
        if mb.is_kind("method_declaration") {
            match mb.child_by_field_name("name") {
                Some(n) => {
                    let name = n.node_text();
                    let base = qualify_name(m, class_name);
                    defs.push(
                        Definition {
                            qualified_name: qualify_name(base.as_str(), name.as_str()),
                            kind: EntityKind::Method,
                            parent: Some(class_name.to_string()),
                        },
                    );
                    assert(defs_view(defs@) =~= defs_view(d0).push(
                        (EntityKind::Method, qualify(qualify(m@, class_name@), name@), Some(class_name@)),
                    ));
                },
                None => {},
            }
        } else if mb.is_kind("class_declaration") {
            match mb.child_by_field_name("name") {
                Some(n) => {
                    let inner_name = n.node_text();
                    let base = qualify_name(m, class_name);
                    defs.push(
                        Definition {
                            qualified_name: qualify_name(base.as_str(), inner_name.as_str()),
                            kind: EntityKind::Type,
                            parent: Some(class_name.to_string()),
                        },
                    );
                    assert(defs_view(defs@) =~= defs_view(d0).push(
                        (EntityKind::Type, qualify(qualify(m@, class_name@), inner_name@), Some(class_name@)),
                    ));
                    extract_java_class_body(mb, m, inner_name.as_str(), defs);
                },
                None => {},
            }
        }
        assert(defs_view(defs@) =~= defs_view(old(defs)@) + java_members(
            *blk,
            m@,
            class_name@,
            i + 1,
        ));
        i += 1;
    }
}

fn process_java_child(
    c: &SyntaxNode,
    m: &str,
    defs: &mut Vec<Definition>,
    imports: &mut Vec<Import>,
)
    ensures
        defs_view(final(defs)@) == defs_view(old(defs)@) + java_child(*c, m@).0,
        imports_view(final(imports)@) == imports_view(old(imports)@) + java_child(*c, m@).1,
        java_child(*c, m@).2 == Seq::<(Seq<char>, Seq<char>)>::empty(),
{
    let ghost d0 = defs_view(defs@);
    let ghost i0 = imports_view(imports@);
    if c.is_kind("class_declaration") {
        match c.child_by_field_name("name") {
            Some(n) => {
                let class_name = n.node_text();
                defs.push(
                    Definition {
                        qualified_name: qualify_name(m, class_name.as_str()),
                        kind: EntityKind::Type,
                        parent: None,
                    },
                );
                extract_java_class_body(c, m, class_name.as_str(), defs);
            },
            None => {},
        }
    } else if c.is_kind("method_declaration") {
        match c.child_by_field_name("name") {
            Some(n) => {
                let name = n.node_text();
                defs.push(
                    Definition {
                        qualified_name: qualify_name(m, name.as_str()),
                        kind: EntityKind::Function,
                        parent: None,
                    },
                );
            },
            None => {},
        }
    } else if c.is_kind("import_declaration") {
        let ks: [&str; 2] = ["scoped_identifier", "identifier"];
        assert(ks@.map_values(|s: &str| s@) =~= seq!["scoped_identifier"@, "identifier"@]);
        match child_index_of_kinds(c, &ks) {
            Some(i) => {
                let text = c.children[i].node_text();
                let tv = chars_of(text.as_str());
                if tv.len() > 0 {
                    let names: Vec<String> = Vec::new();
                    assert(names@.map_values(|s: String| s@) =~= Seq::<Seq<char>>::empty());
                    imports.push(Import { module: text, imported_names: names });
                }
            },
            None => {},
        }
    }
    assert(defs_view(defs@) =~= d0 + java_child(*c, m@).0);
    assert(imports_view(imports@) =~= i0 + java_child(*c, m@).1);
}

/// Definitions and imports of a Java source file, from its root node (no
/// calls are extracted for Java).
pub fn extract_java(root: &SyntaxNode, module_qname: &str) -> (r: (Vec<Definition>, Vec<Import>, Vec<Call>))
    ensures
        (defs_view(r.0@), imports_view(r.1@), calls_view(r.2@)) == spec_extract_java(
            *root,
            module_qname@,
        ),
{
    let mut defs: Vec<Definition> = Vec::new();
    let mut imports: Vec<Import> = Vec::new();
    let calls: Vec<Call> = Vec::new();
    let mut i: usize = 0;
    while i < root.children.len()
        invariant
            i <= root.children@.len(),
            calls@.len() == 0,
            (defs_view(defs@), imports_view(imports@), calls_view(calls@)) == java_fold(
                root.children@,
                module_qname@,
                i as int,
            ),
        decreases root.children@.len() - i,
    {
        let ghost prev = java_fold(root.children@, module_qname@, i as int);
        process_java_child(&root.children[i], module_qname, &mut defs, &mut imports);
        assert(calls_view(calls@) =~= java_fold(root.children@, module_qname@, i + 1).2);
        i += 1;
    }
    (defs, imports, calls)
}

/// Every definition a top-level node contributes is among those of the
/// whole file.
proof fn lemma_java_fold_keeps(ch: Seq<SyntaxNode>, m: Seq<char>, n: int, i: int)
    requires
        0 <= i < n <= ch.len(),
    ensures
        forall|x: crate::analysis::extractors::calls::DefV| java_child(ch[i], m).0.contains(x) ==> #[trigger] java_fold(ch, m, n).0.contains(x),
    decreases n,
{
    let prev = java_fold(ch, m, n - 1);
    let here = java_child(ch[n - 1], m);
    assert(java_fold(ch, m, n).0 == prev.0 + here.0);
    if i < n - 1 {
        lemma_java_fold_keeps(ch, m, n - 1, i);
        assert forall|x: crate::analysis::extractors::calls::DefV| java_child(ch[i], m).0.contains(x) implies #[trigger] java_fold(ch, m, n).0.contains(x) by {
            assert(java_fold(ch, m, n - 1).0.contains(x));
            let k = choose|k: int| 0 <= k < prev.0.len() && #[trigger] prev.0[k] == x;
            assert((prev.0 + here.0)[k] == x);
        }
    } else {
        assert forall|x: crate::analysis::extractors::calls::DefV| java_child(ch[i], m).0.contains(x) implies #[trigger] java_fold(ch, m, n).0.contains(x) by {
            let k = choose|k: int| 0 <= k < here.0.len() && #[trigger] here.0[k] == x;
            assert((prev.0 + here.0)[prev.0.len() + k] == x);
        }
    }
}

proof fn lemma_java_class_node(c: SyntaxNode, m: Seq<char>)
    requires
        c.kind@ == "class_declaration"@,
        field_child(c, "name"@) is Some,
    ensures
        java_child(c, m).0.len() > 0,
        java_child(c, m).0[0] == (EntityKind::Type, m + seq![':', ':'] + field_child(c, "name"@)->0.text@, None::<Seq<char>>),
{
    reveal_strlit("class_declaration");
    reveal_strlit("method_declaration");
    reveal_strlit("import_declaration");

}

/// Classes are recorded: every named class at the top of a Java file yields the type definition `m::name` with no parent.
pub proof fn lemma_java_class_recorded(root: SyntaxNode, m: Seq<char>, i: int)
    requires
        0 <= i < root.children@.len(),
        root.children@[i].kind@ == "class_declaration"@,
        field_child(root.children@[i], "name"@) is Some,
    ensures
        spec_extract_java(root, m).0.contains(
            (EntityKind::Type, m + seq![':', ':'] + field_child(root.children@[i], "name"@)->0.text@, None::<Seq<char>>),
        ),
{
    lemma_java_class_node(root.children@[i], m);
    assert(java_child(root.children@[i], m).0.contains(java_child(root.children@[i], m).0[0]));
    lemma_java_fold_keeps(root.children@, m, root.children@.len() as int, i);
}

proof fn lemma_java_method_node(c: SyntaxNode, m: Seq<char>)
    requires
        c.kind@ == "method_declaration"@,
        field_child(c, "name"@) is Some,
    ensures
        java_child(c, m).0.len() > 0,
        java_child(c, m).0[0] == (EntityKind::Function, m + seq![':', ':'] + field_child(c, "name"@)->0.text@, None::<Seq<char>>),
{
    reveal_strlit("class_declaration");
    reveal_strlit("method_declaration");
    reveal_strlit("import_declaration");
    assert("method_declaration"@.len() != "class_declaration"@.len());
}

/// Methods at the top of a Java file are recorded as the function definition `m::name` with no parent.
pub proof fn lemma_java_method_recorded(root: SyntaxNode, m: Seq<char>, i: int)
    requires
        0 <= i < root.children@.len(),
        root.children@[i].kind@ == "method_declaration"@,
        field_child(root.children@[i], "name"@) is Some,
    ensures
        spec_extract_java(root, m).0.contains(
            (EntityKind::Function, m + seq![':', ':'] + field_child(root.children@[i], "name"@)->0.text@, None::<Seq<char>>),
        ),
{
    lemma_java_method_node(root.children@[i], m);
    assert(java_child(root.children@[i], m).0.contains(java_child(root.children@[i], m).0[0]));
    lemma_java_fold_keeps(root.children@, m, root.children@.len() as int, i);
}

} // verus!
